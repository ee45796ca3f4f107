//! Which dropped paths are taken in, and the record of files taken so far.

use vstd::prelude::*;
use crate::path_formatter::{bytes_of, PathFormatter};
use crate::path_key::{key_model, same_path, PartModel, PathPart};
use crate::path_text::{
    path_extension, path_parts, plain_extension, plain_parts, plain_path, text_view,
};
use crate::preview::PreviewData;

verus! {

/// File extensions of the formats that can be compressed.
pub const VALID_EXTENSIONS: [&'static str; 6] = ["jpg", "jpeg", "png", "gif", "webp", "tiff"];

pub open spec fn valid_extension_names() -> Seq<Seq<char>> {
    seq!["jpg"@, "jpeg"@, "png"@, "gif"@, "webp"@, "tiff"@]
}

/// The ASCII lower-case code of `c`; other characters keep their code.
pub open spec fn ascii_lower_code(c: char) -> u32 {
    if 'A' <= c <= 'Z' {
        (c as u32 + 32) as u32
    } else {
        c as u32
    }
}

/// Equality of two strings when ASCII letters are compared without regard to case.
pub open spec fn eq_ignore_ascii_case_spec(a: Seq<char>, b: Seq<char>) -> bool {
    &&& a.len() == b.len()
    &&& forall|i: int| 0 <= i < a.len() ==> ascii_lower_code(#[trigger] a[i]) == ascii_lower_code(b[i])
}

/// An extension of one of the supported formats, in any letter case.
pub open spec fn is_valid_extension(ext: Seq<char>) -> bool {
    exists|k: int| 0 <= k < 6 && eq_ignore_ascii_case_spec(ext, #[trigger] valid_extension_names()[k])
}

fn lower_code(c: char) -> (r: u32)
    ensures
        r == ascii_lower_code(c),
{
    if 'A' <= c && c <= 'Z' {
        (c as u32) + 32
    } else {
        c as u32
    }
}

/// Compares two strings, ignoring the case of ASCII letters, as `str::eq_ignore_ascii_case`.
pub fn eq_ignore_ascii_case(a: &str, b: &str) -> (eq: bool)
    ensures
        eq == eq_ignore_ascii_case_spec(a@, b@),
{
    let n = a.unicode_len();
    if n != b.unicode_len() {
        return false;
    }
    let mut i: usize = 0;
    while i < n
        invariant
            n == a@.len(),
            n == b@.len(),
            i <= n,
            forall|j: int| 0 <= j < i ==> ascii_lower_code(#[trigger] a@[j]) == ascii_lower_code(b@[j]),
        decreases n - i,
    {
        if lower_code(a.get_char(i)) != lower_code(b.get_char(i)) {
            return false;
        }
        i = i + 1;
    }
    true
}

/// Whether `ext` names a supported format, in any letter case.
pub fn has_valid_extension(ext: &str) -> (valid: bool)
    ensures
        valid == is_valid_extension(ext@),
{
    proof {
        reveal_strlit("jpg");
        reveal_strlit("jpeg");
        reveal_strlit("png");
        reveal_strlit("gif");
        reveal_strlit("webp");
        reveal_strlit("tiff");
    }
    let names = VALID_EXTENSIONS;
    let mut k: usize = 0;
    while k < 6
        invariant
            k <= 6,
            forall|j: int| 0 <= j < 6 ==> #[trigger] names@[j]@ == valid_extension_names()[j],
            forall|j: int| 0 <= j < k ==> !eq_ignore_ascii_case_spec(ext@, #[trigger] valid_extension_names()[j]),
        decreases 6 - k,
    {
        if eq_ignore_ascii_case(ext, names[k]) {
            return true;
        }
        k = k + 1;
    }
    false
}

/// A path dropped onto the window, with what the file system said of it: its components
/// (which decide whether two paths are the same), its extension as text (none when it
/// has none or it is not valid text) and whether it is a file.
pub struct DroppedPath {
    pub key: Vec<PathPart>,
    pub extension: Option<String>,
    pub is_file: bool,
}

impl DroppedPath {
    /// A dropped path: its components and its extension are read from the path's text,
    /// `is_file` is what the file system said of it.
    pub fn from_path(path: &str, is_file: bool) -> (d: Self)
        ensures
            d.is_file == is_file,
            plain_path(path@) ==> key_model(d.key@) == plain_parts(path@),
            plain_path(path@) ==> text_view(d.extension) == plain_extension(path@),
            d.extension matches Some(e) ==> forall|i: int|
                0 <= i < e@.len() ==> #[trigger] e@[i] != '.',
    {
        DroppedPath { key: path_parts(path), extension: path_extension(path), is_file }
    }
}

/// Whether a dropped path is taken in: a file, with a supported extension, not the same
/// path as any among `recorded`.
pub open spec fn accepts(recorded: Seq<Seq<PartModel>>, p: DroppedPath) -> bool {
    &&& p.is_file
    &&& match p.extension {
        Some(e) => is_valid_extension(e@),
        None => false,
    }
    &&& !recorded.contains(key_model(p.key@))
}

/// The positions of the dropped entries that are taken in, in drop order.
pub open spec fn accepted_indices(recorded: Seq<Seq<PartModel>>, dropped: Seq<DroppedPath>) -> Seq<
    usize,
>
    decreases dropped.len(),
{
    if dropped.len() == 0 {
        Seq::<usize>::empty()
    } else {
        let rest = accepted_indices(recorded, dropped.drop_last());
        if accepts(recorded, dropped.last()) {
            rest.push((dropped.len() - 1) as usize)
        } else {
            rest
        }
    }
}

pub open spec fn key_models(v: Seq<Vec<PathPart>>) -> Seq<Seq<PartModel>> {
    v.map_values(|k: Vec<PathPart>| key_model(k@))
}

/// Every entry that a drop takes in is one of the dropped entries, in increasing order,
/// and is a file with a supported extension whose path was not taken in before.
pub proof fn lemma_accepted_paths_are_new(recorded: Seq<Seq<PartModel>>, dropped: Seq<DroppedPath>)
    requires
        dropped.len() <= usize::MAX,
    ensures
        forall|i: int|
            0 <= i < accepted_indices(recorded, dropped).len() ==> {
                &&& 0 <= #[trigger] accepted_indices(recorded, dropped)[i] < dropped.len()
                &&& accepts(recorded, dropped[accepted_indices(recorded, dropped)[i] as int])
            },
        forall|i: int, j: int|
            0 <= i < j < accepted_indices(recorded, dropped).len() ==> accepted_indices(
                recorded,
                dropped,
            )[i] < accepted_indices(recorded, dropped)[j],
    decreases dropped.len(),
{
    if dropped.len() > 0 {
        let init = dropped.drop_last();
        lemma_accepted_paths_are_new(recorded, init);
        let prev = accepted_indices(recorded, init);
        let acc = accepted_indices(recorded, dropped);
        assert forall|i: int| 0 <= i < acc.len() implies {
            &&& 0 <= #[trigger] acc[i] < dropped.len()
            &&& accepts(recorded, dropped[acc[i] as int])
        } by {
            if i < prev.len() {
                assert(acc[i] == prev[i]);
                assert(dropped[prev[i] as int] == init[prev[i] as int]);
            }
        }
        assert forall|i: int, j: int| 0 <= i < j < acc.len() implies acc[i] < acc[j] by {
            if j < prev.len() {
                assert(acc[i] == prev[i] && acc[j] == prev[j]);
            } else {
                assert(acc[i] == prev[i]);
            }
        }
    }
}

/// Once a file is taken in, dropping the same path again is refused: a dropped entry
/// whose components are those of a plain path that was recorded is not accepted.
pub proof fn lemma_recorded_path_is_refused(
    recorded: Seq<Seq<PartModel>>,
    path: Seq<char>,
    d: DroppedPath,
)
    requires
        plain_path(path),
        key_model(d.key@) == plain_parts(path),
    ensures
        !accepts(recorded.push(plain_parts(path)), d),
{
    assert(recorded.push(plain_parts(path))[recorded.len() as int] == plain_parts(path));
}

/// The files taken in so far, and whether something is being dragged over the window.
pub struct DropZone {
    files: Vec<Vec<PathPart>>,
    has_active_drag: bool,
}

impl DropZone {
    /// The paths of the files taken in, in order, by their components.
    pub closed spec fn files(&self) -> Seq<Seq<PartModel>> {
        key_models(self.files@)
    }

    pub closed spec fn dragging(&self) -> bool {
        self.has_active_drag
    }

    /// No files and no drag.
    pub fn new() -> (z: Self)
        ensures
            z.files() == Seq::<Seq<PartModel>>::empty(),
            !z.dragging(),
    {
        let z = DropZone { files: Vec::new(), has_active_drag: false };
        assert(z.files() =~= Seq::<Seq<PartModel>>::empty());
        z
    }

    /// Records whether a drag is over the window.
    pub fn set_active_drag(&mut self, val: bool)
        ensures
            final(self).dragging() == val,
            final(self).files() == old(self).files(),
    {
        self.has_active_drag = val;
    }

    /// Whether a drag is over the window.
    pub fn has_active_drag(&self) -> (b: bool)
        ensures
            b == self.dragging(),
    {
        self.has_active_drag
    }

    /// The text shown while no file has been taken in; `None` once files are listed.
    pub fn placeholder(&self) -> (text: Option<&'static str>)
        ensures
            self.files().len() > 0 ==> text is None,
            self.files().len() == 0 && self.dragging() ==> (text matches Some(t) && t@
                == "Drop your files here"@),
            self.files().len() == 0 && !self.dragging() ==> (text matches Some(t) && t@
                == "Drag & Drop your files here"@),
    {
        if self.files.len() > 0 {
            None
        } else if self.has_active_drag {
            Some("Drop your files here")
        } else {
            Some("Drag & Drop your files here")
        }
    }

    /// The number of files taken in.
    pub fn file_count(&self) -> (n: usize)
        ensures
            n == self.files().len(),
    {
        self.files.len()
    }

    fn is_recorded(&self, key: &Vec<PathPart>) -> (found: bool)
        ensures
            found == self.files().contains(key_model(key@)),
    {
        let mut i: usize = 0;
        while i < self.files.len()
            invariant
                i <= self.files@.len(),
                forall|j: int| 0 <= j < i ==> key_model(#[trigger] self.files@[j]@) != key_model(key@),
            decreases self.files@.len() - i,
        {
            if same_path(self.files[i].as_slice(), key.as_slice()) {
                assert(self.files()[i as int] == key_model(key@));
                return true;
            }
            i = i + 1;
        }
        assert forall|j: int| 0 <= j < self.files().len() implies self.files()[j] != key_model(key@) by {
            assert(self.files()[j] == key_model(self.files@[j]@));
        }
        false
    }

    /// The positions of the dropped paths that are taken in, in drop order: files with a
    /// supported extension (in any letter case) that are not the same path as any file
    /// taken in so far. A path dropped twice at once is kept twice.
    pub fn filter_paths(&self, paths: &[DroppedPath]) -> (kept: Vec<usize>)
        ensures
            kept@ == accepted_indices(self.files(), paths@),
    {
        let mut kept: Vec<usize> = Vec::new();
        let mut i: usize = 0;
        while i < paths.len()
            invariant
                i <= paths@.len(),
                kept@ == accepted_indices(self.files(), paths@.take(i as int)),
            decreases paths@.len() - i,
        {
            let p = &paths[i];
            let valid_extension = match &p.extension {
                Some(e) => has_valid_extension(e.as_str()),
                None => false,
            };
            let is_already_recorded = self.is_recorded(&p.key);
            proof {
                assert(paths@.take(i + 1).drop_last() =~= paths@.take(i as int));
                assert(paths@.take(i + 1).last() == paths@[i as int]);
            }
            if p.is_file && valid_extension && !is_already_recorded {
                kept.push(i);
            }
            i = i + 1;
        }
        assert(paths@.take(paths@.len() as int) =~= paths@);
        kept
    }

    /// Takes in the file that `formatter` describes, by the components of its path, at
    /// position `index` among those accepted together, and gives the starting values of
    /// its row: compression running, no error, and both sizes the file's length as read
    /// from its metadata, once for each (`compressed_read` first, then `original_read`).
    pub fn push_file(
        &mut self,
        formatter: &PathFormatter,
        compressed_read: Option<u64>,
        original_read: Option<u64>,
        index: usize,
    ) -> (data: PreviewData)
        ensures
            final(self).files().len() == old(self).files().len() + 1,
            final(self).files().drop_last() == old(self).files(),
            plain_path(formatter.path()) ==> final(self).files() == old(self).files().push(
                plain_parts(formatter.path()),
            ),
            final(self).dragging() == old(self).dragging(),
            data.path@ == formatter.path(),
            data.name@ == formatter.name(),
            data.compressed_bytes == bytes_of(compressed_read),
            data.original_bytes == bytes_of(original_read),
            data.index == index,
            data.is_processing,
            !data.is_error,
    {
        let compressed_bytes = formatter.file_bytes(compressed_read);
        let original_bytes = formatter.file_bytes(original_read);
        let path = formatter.full_path();
        let key = path_parts(path.as_str());
        let data = PreviewData {
            path,
            name: formatter.file_name(),
            original_bytes,
            compressed_bytes,
            index,
            is_processing: true,
            is_error: false,
        };
        let ghost k = key_model(key@);
        self.files.push(key);
        assert(self.files() =~= old(self).files().push(k));
        assert(self.files().drop_last() =~= old(self).files());
        data
    }
}

} // verus!
