//! The identity of a path: its components, compared the way paths are compared.

use vstd::prelude::*;

verus! {

/// A path prefix as the platform parses it (Windows drive letters, UNC shares and
/// verbatim forms); names are raw bytes, drive letters as parsed.
pub enum PrefixPart {
    Verbatim(Vec<u8>),
    VerbatimUNC(Vec<u8>, Vec<u8>),
    VerbatimDisk(u8),
    DeviceNS(Vec<u8>),
    UNC(Vec<u8>, Vec<u8>),
    Disk(u8),
}

/// One component of a path.
pub enum PathPart {
    Prefix(PrefixPart),
    RootDir,
    CurDir,
    ParentDir,
    /// A name, as raw bytes.
    Normal(Vec<u8>),
}

/// The content of a prefix.
pub enum PrefixModel {
    Verbatim(Seq<u8>),
    VerbatimUNC(Seq<u8>, Seq<u8>),
    VerbatimDisk(u8),
    DeviceNS(Seq<u8>),
    UNC(Seq<u8>, Seq<u8>),
    Disk(u8),
}

/// The content of a component.
pub enum PartModel {
    Prefix(PrefixModel),
    RootDir,
    CurDir,
    ParentDir,
    Normal(Seq<u8>),
}

impl View for PrefixPart {
    type V = PrefixModel;

    open spec fn view(&self) -> PrefixModel {
        match self {
            PrefixPart::Verbatim(a) => PrefixModel::Verbatim(a@),
            PrefixPart::VerbatimUNC(a, b) => PrefixModel::VerbatimUNC(a@, b@),
            PrefixPart::VerbatimDisk(d) => PrefixModel::VerbatimDisk(*d),
            PrefixPart::DeviceNS(a) => PrefixModel::DeviceNS(a@),
            PrefixPart::UNC(a, b) => PrefixModel::UNC(a@, b@),
            PrefixPart::Disk(d) => PrefixModel::Disk(*d),
        }
    }
}

impl View for PathPart {
    type V = PartModel;

    open spec fn view(&self) -> PartModel {
        match self {
            PathPart::Prefix(p) => PartModel::Prefix(p@),
            PathPart::RootDir => PartModel::RootDir,
            PathPart::CurDir => PartModel::CurDir,
            PathPart::ParentDir => PartModel::ParentDir,
            PathPart::Normal(n) => PartModel::Normal(n@),
        }
    }
}

/// The identity of a path given by its components.
pub open spec fn key_model(parts: Seq<PathPart>) -> Seq<PartModel> {
    parts.map_values(|p: PathPart| p@)
}

fn bytes_equal(a: &Vec<u8>, b: &Vec<u8>) -> (eq: bool)
    ensures
        eq == (a@ == b@),
{
    if a.len() != b.len() {
        return false;
    }
    let mut i: usize = 0;
    while i < a.len()
        invariant
            a@.len() == b@.len(),
            i <= a@.len(),
            forall|j: int| 0 <= j < i ==> a@[j] == b@[j],
        decreases a@.len() - i,
    {
        if a[i] != b[i] {
            return false;
        }
        i = i + 1;
    }
    assert(a@ =~= b@);
    true
}

fn prefix_equal(a: &PrefixPart, b: &PrefixPart) -> (eq: bool)
    ensures
        eq == (a@ == b@),
{
    match (a, b) {
        (PrefixPart::Verbatim(x), PrefixPart::Verbatim(y)) => bytes_equal(x, y),
        (PrefixPart::VerbatimUNC(x1, x2), PrefixPart::VerbatimUNC(y1, y2)) => bytes_equal(x1, y1)
            && bytes_equal(x2, y2),
        (PrefixPart::VerbatimDisk(x), PrefixPart::VerbatimDisk(y)) => *x == *y,
        (PrefixPart::DeviceNS(x), PrefixPart::DeviceNS(y)) => bytes_equal(x, y),
        (PrefixPart::UNC(x1, x2), PrefixPart::UNC(y1, y2)) => bytes_equal(x1, y1) && bytes_equal(
            x2,
            y2,
        ),
        (PrefixPart::Disk(x), PrefixPart::Disk(y)) => *x == *y,
        _ => false,
    }
}

fn part_equal(a: &PathPart, b: &PathPart) -> (eq: bool)
    ensures
        eq == (a@ == b@),
{
    match (a, b) {
        (PathPart::Prefix(x), PathPart::Prefix(y)) => prefix_equal(x, y),
        (PathPart::RootDir, PathPart::RootDir) => true,
        (PathPart::CurDir, PathPart::CurDir) => true,
        (PathPart::ParentDir, PathPart::ParentDir) => true,
        (PathPart::Normal(x), PathPart::Normal(y)) => bytes_equal(x, y),
        _ => false,
    }
}

/// Whether two paths are the same path: the same components in the same order.
pub fn same_path(a: &[PathPart], b: &[PathPart]) -> (eq: bool)
    ensures
        eq == (key_model(a@) == key_model(b@)),
{
    if a.len() != b.len() {
        assert(key_model(a@).len() != key_model(b@).len());
        return false;
    }
    let mut i: usize = 0;
    while i < a.len()
        invariant
            a@.len() == b@.len(),
            i <= a@.len(),
            forall|j: int| 0 <= j < i ==> a@[j]@ == b@[j]@,
        decreases a@.len() - i,
    {
        if !part_equal(&a[i], &b[i]) {
            assert(key_model(a@)[i as int] != key_model(b@)[i as int]);
            return false;
        }
        i = i + 1;
    }
    assert(key_model(a@) =~= key_model(b@));
    true
}

} // verus!
