//! What the interface shows of a dropped file.

use vstd::prelude::*;
use crate::utilities::{human_size, humansize_decimal};
use crate::path_text::{file_name_fits, final_component, plain_file_name, plain_path};

verus! {

/// The byte count shown for a file whose metadata gave `metadata_len` when it was read:
/// that length, or 0 when the metadata could not be read.
pub open spec fn bytes_of(metadata_len: Option<u64>) -> u64 {
    match metadata_len {
        Some(n) => n,
        None => 0,
    }
}

/// The displayed path of a file and its name.
pub struct PathFormatter {
    path: String,
    name: String,
}

impl PathFormatter {
    pub closed spec fn path(&self) -> Seq<char> {
        self.path@
    }

    pub closed spec fn name(&self) -> Seq<char> {
        self.name@
    }

    /// A formatter for the file at `path`, named by the path's final component.
    /// `is_file` is what the file system said of the path; only a file can be formatted.
    /// `None` where the path has no final name (it ends in `..`, or is a root, a prefix or
    /// empty), which no file path does.
    pub fn new(path: String, is_file: bool) -> (f: Option<Self>)
        requires
            is_file,
        ensures
            f matches Some(g) ==> g.path() == path@ && file_name_fits(g.name(), path@),
            plain_path(path@) ==> match plain_file_name(path@) {
                Some(n) => f matches Some(g) && g.name() == n,
                None => f is None,
            },
    {
        match final_component(path.as_str()) {
            Some(name) => Some(PathFormatter { path, name }),
            None => None,
        }
    }

    /// The whole path.
    pub fn full_path(&self) -> (s: String)
        ensures
            s@ == self.path(),
    {
        self.path.clone()
    }

    /// The file's name, without its directory.
    pub fn file_name(&self) -> (s: String)
        ensures
            s@ == self.name(),
    {
        self.name.clone()
    }

    /// The file's length in bytes now: `metadata_len` is what reading its metadata gave at
    /// this call; 0 when it could not be read (for instance after the file was deleted).
    pub fn file_bytes(&self, metadata_len: Option<u64>) -> (n: u64)
        ensures
            n == bytes_of(metadata_len),
    {
        match metadata_len {
            Some(n) => n,
            None => 0,
        }
    }

    /// The file's length now in decimal units, such as `1.50 kB`; `metadata_len` is what
    /// reading its metadata gave at this call.
    pub fn size(&self, metadata_len: Option<u64>) -> (s: String)
        ensures
            s@ == humansize_decimal(bytes_of(metadata_len)),
    {
        human_size(self.file_bytes(metadata_len))
    }
}

impl Clone for PathFormatter {
    fn clone(&self) -> (c: Self)
        ensures
            c.path() == self.path(),
            c.name() == self.name(),
    {
        PathFormatter { path: self.path.clone(), name: self.name.clone() }
    }
}

} // verus!
