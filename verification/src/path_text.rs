//! What a path's text says of it: its components, its file name and its extension, as
//! `std::path::Path` reads them.

use vstd::prelude::*;
use vstd::utf8::{encode_utf8, is_ascii_chars, is_ascii_chars_encode_utf8};
use std::path::{Component, Prefix};
use crate::path_key::{key_model, PartModel, PathPart, PrefixPart};

verus! {

#[verifier::external_type_specification]
#[verifier::external_body]
pub struct ExComponent<'a>(Component<'a>);

#[verifier::external_type_specification]
#[verifier::external_body]
pub struct ExPrefix<'a>(Prefix<'a>);

/// A path that every platform reads alike: no backslash (a separator only on Windows),
/// no `:` as its second character (a Windows drive), and not starting with two slashes
/// (a Windows network share or device). Any other characters may stand in it.
pub open spec fn plain_path(s: Seq<char>) -> bool {
    &&& forall|i: int| 0 <= i < s.len() ==> #[trigger] s[i] != '\\'
    &&& !(s.len() >= 2 && s[1] == ':')
    &&& !(s.len() >= 2 && s[0] == '/' && s[1] == '/')
}

/// The pieces of `s` between slashes, empty ones included (`"/a//b"` gives `""`, `"a"`,
/// `""`, `"b"`); never an empty list.
pub open spec fn segments(s: Seq<char>) -> Seq<Seq<char>>
    decreases s.len(),
{
    if s.len() == 0 {
        seq![Seq::<char>::empty()]
    } else if s.last() == '/' {
        segments(s.drop_last()).push(Seq::<char>::empty())
    } else {
        let r = segments(s.drop_last());
        r.update(r.len() - 1, r.last().push(s.last()))
    }
}

/// The bytes of ASCII text.
pub open spec fn ascii_bytes(s: Seq<char>) -> Seq<u8> {
    s.map_values(|c: char| c as u8)
}

/// For ASCII text the UTF-8 bytes are the characters' codes.
pub proof fn lemma_ascii_text_bytes(s: Seq<char>)
    requires
        is_ascii_chars(s),
    ensures
        encode_utf8(s) == ascii_bytes(s),
{
    is_ascii_chars_encode_utf8(s);
    assert(encode_utf8(s) =~= ascii_bytes(s));
}

/// The components that the pieces give: empty pieces and `.` are dropped, `..` is the
/// parent, anything else a name, as its UTF-8 bytes.
pub open spec fn segment_parts(segs: Seq<Seq<char>>) -> Seq<PartModel>
    decreases segs.len(),
{
    if segs.len() == 0 {
        Seq::<PartModel>::empty()
    } else {
        let r = segment_parts(segs.drop_last());
        let g = segs.last();
        if g.len() == 0 || g == seq!['.'] {
            r
        } else if g == seq!['.', '.'] {
            r.push(PartModel::ParentDir)
        } else {
            r.push(PartModel::Normal(encode_utf8(g)))
        }
    }
}

/// The components of a plain path: the root for a leading slash, else the current
/// directory for a leading `.` piece, then the components of the pieces.
pub open spec fn plain_parts(s: Seq<char>) -> Seq<PartModel> {
    let head = if s.len() > 0 && s[0] == '/' {
        seq![PartModel::RootDir]
    } else if segments(s)[0] == seq!['.'] {
        seq![PartModel::CurDir]
    } else {
        Seq::<PartModel>::empty()
    };
    head + segment_parts(segments(s))
}

/// The last piece that is neither empty nor `.`.
pub open spec fn last_named_segment(segs: Seq<Seq<char>>) -> Option<Seq<char>>
    decreases segs.len(),
{
    if segs.len() == 0 {
        None
    } else {
        let g = segs.last();
        if g.len() == 0 || g == seq!['.'] {
            last_named_segment(segs.drop_last())
        } else {
            Some(g)
        }
    }
}

/// The file name of a plain path: its last component when that is a name.
pub open spec fn plain_file_name(s: Seq<char>) -> Option<Seq<char>> {
    match last_named_segment(segments(s)) {
        Some(g) => if g == seq!['.', '.'] {
            None
        } else {
            Some(g)
        },
        None => None,
    }
}

/// The position of the last `.` in `name`, or -1.
pub open spec fn last_dot(name: Seq<char>) -> int
    decreases name.len(),
{
    if name.len() == 0 {
        -1
    } else if name.last() == '.' {
        name.len() - 1
    } else {
        last_dot(name.drop_last())
    }
}

/// The extension of a file name: what follows its last `.`, unless there is none or the
/// only one starts the name.
pub open spec fn extension_of(name: Seq<char>) -> Option<Seq<char>> {
    let i = last_dot(name);
    if name == seq!['.', '.'] || i <= 0 {
        None
    } else {
        Some(name.subrange(i + 1, name.len() as int))
    }
}

/// The extension of a plain path.
pub open spec fn plain_extension(s: Seq<char>) -> Option<Seq<char>> {
    match plain_file_name(s) {
        Some(n) => extension_of(n),
        None => None,
    }
}

proof fn lemma_segments_nonempty(s: Seq<char>)
    ensures
        segments(s).len() >= 1,
    decreases s.len(),
{
    if s.len() > 0 {
        lemma_segments_nonempty(s.drop_last());
    }
}

/// Text without a slash extends the last piece.
proof fn lemma_segments_append(a: Seq<char>, b: Seq<char>)
    requires
        forall|i: int| 0 <= i < b.len() ==> #[trigger] b[i] != '/',
    ensures
        segments(a + b) == segments(a).update(
            segments(a).len() - 1,
            segments(a).last() + b,
        ),
    decreases b.len(),
{
    lemma_segments_nonempty(a);
    if b.len() == 0 {
        assert(a + b =~= a);
        assert(segments(a).last() + b =~= segments(a).last());
        assert(segments(a).update(segments(a).len() - 1, segments(a).last()) =~= segments(a));
    } else {
        let b1 = b.drop_last();
        lemma_segments_append(a, b1);
        assert((a + b).drop_last() =~= a + b1);
        assert((a + b).last() == b.last());
        assert(segments(a).last() + b1 + seq![b.last()] =~= segments(a).last() + b);
        let r = segments(a + b1);
        assert(r.last() == segments(a).last() + b1);
        assert(r.last().push(b.last()) =~= segments(a).last() + b);
        assert(r.update(r.len() - 1, r.last().push(b.last())) =~= segments(a).update(
            segments(a).len() - 1,
            segments(a).last() + b,
        ));
    }
}

/// A directory part that is empty or ends in a slash leaves an empty last piece.
proof fn lemma_segments_after_slash(dir: Seq<char>)
    requires
        dir.len() == 0 || dir.last() == '/',
    ensures
        segments(dir).last() == Seq::<char>::empty(),
{
}

/// The file name of a plain path is the text after its last slash, when that text is a
/// name (not empty, not `.` or `..`): a file name never holds a separator or any part of
/// the directories before it.
pub proof fn lemma_file_name_is_last_piece(dir: Seq<char>, name: Seq<char>)
    requires
        plain_path(dir + name),
        dir.len() == 0 || dir.last() == '/',
        name.len() > 0,
        name != seq!['.'],
        name != seq!['.', '.'],
        forall|i: int| 0 <= i < name.len() ==> #[trigger] name[i] != '/',
    ensures
        plain_file_name(dir + name) == Some(name),
{
    lemma_segments_append(dir, name);
    lemma_segments_after_slash(dir);
    lemma_segments_nonempty(dir);
    let segs = segments(dir + name);
    assert(Seq::<char>::empty() + name =~= name);
    assert(segs.last() == name);
}

proof fn lemma_last_dot_after(stem: Seq<char>, ext: Seq<char>)
    requires
        forall|i: int| 0 <= i < ext.len() ==> #[trigger] ext[i] != '.',
    ensures
        last_dot(stem + seq!['.'] + ext) == stem.len(),
    decreases ext.len(),
{
    if ext.len() == 0 {
        assert(stem + seq!['.'] + ext =~= stem.push('.'));
    } else {
        let e1 = ext.drop_last();
        lemma_last_dot_after(stem, e1);
        assert((stem + seq!['.'] + ext).drop_last() =~= stem + seq!['.'] + e1);
        assert((stem + seq!['.'] + ext).last() == ext.last());
    }
}

/// The extension of a plain path whose file name is `stem.ext` (a stem that is not empty,
/// an extension that is not empty and holds no dot) is `ext`, whatever characters the
/// path holds: a name ending in `.png` has the extension `png`.
pub proof fn lemma_extension_after_last_dot(dir: Seq<char>, stem: Seq<char>, ext: Seq<char>)
    requires
        plain_path(dir + (stem + seq!['.'] + ext)),
        dir.len() == 0 || dir.last() == '/',
        stem.len() > 0,
        ext.len() > 0,
        forall|i: int| 0 <= i < stem.len() ==> #[trigger] stem[i] != '/',
        forall|i: int| 0 <= i < ext.len() ==> #[trigger] ext[i] != '/' && ext[i] != '.',
    ensures
        plain_file_name(dir + (stem + seq!['.'] + ext)) == Some(stem + seq!['.'] + ext),
        plain_extension(dir + (stem + seq!['.'] + ext)) == Some(ext),
{
    let name = stem + seq!['.'] + ext;
    assert(name.len() >= 3);
    assert forall|i: int| 0 <= i < name.len() implies #[trigger] name[i] != '/' by {
        if i < stem.len() {
            assert(name[i] == stem[i]);
        } else if i > stem.len() {
            assert(name[i] == ext[i - stem.len() - 1]);
        }
    }
    assert(name != seq!['.']);
    assert(name != seq!['.', '.']);
    lemma_file_name_is_last_piece(dir, name);
    lemma_last_dot_after(stem, ext);
    assert(name.subrange(stem.len() + 1int, name.len() as int) =~= ext);
}

/// What holds of the file name of any path on any platform: it is not empty, is neither
/// `.` nor `..`, and stands somewhere in the path's text. (In a Windows verbatim path a
/// `/` is no separator, so a name may hold one there.)
pub open spec fn file_name_fits(name: Seq<char>, path: Seq<char>) -> bool {
    &&& name.len() > 0
    &&& name != seq!['.']
    &&& name != seq!['.', '.']
    &&& exists|k: int|
        0 <= k && k + name.len() <= path.len() && #[trigger] path.subrange(k, k + name.len())
            == name
}

pub open spec fn text_view(o: Option<String>) -> Option<Seq<char>> {
    match o {
        Some(t) => Some(t@),
        None => None,
    }
}

/// Takes a `std::path::Prefix` apart, one arm per variant, names as raw bytes.
#[verifier::external_body]
fn prefix_part(p: Prefix) -> PrefixPart {
    match p {
        Prefix::Verbatim(s) => PrefixPart::Verbatim(s.as_encoded_bytes().to_vec()),
        Prefix::VerbatimUNC(a, b) => PrefixPart::VerbatimUNC(a.as_encoded_bytes().to_vec(), b.as_encoded_bytes().to_vec()),
        Prefix::VerbatimDisk(d) => PrefixPart::VerbatimDisk(d),
        Prefix::DeviceNS(s) => PrefixPart::DeviceNS(s.as_encoded_bytes().to_vec()),
        Prefix::UNC(a, b) => PrefixPart::UNC(a.as_encoded_bytes().to_vec(), b.as_encoded_bytes().to_vec()),
        Prefix::Disk(d) => PrefixPart::Disk(d),
    }
}

/// Takes a `std::path::Component` apart, one arm per variant, names as raw bytes.
#[verifier::external_body]
fn component_part(c: Component) -> PathPart {
    match c {
        Component::Prefix(p) => PathPart::Prefix(prefix_part(p.kind())),
        Component::RootDir => PathPart::RootDir,
        Component::CurDir => PathPart::CurDir,
        Component::ParentDir => PathPart::ParentDir,
        Component::Normal(s) => PathPart::Normal(s.as_encoded_bytes().to_vec()),
    }
}

/// Calls `std::path::Path::components`. Its documentation: repeated separators and `.`
/// pieces are dropped except a leading `.`, a trailing separator is dropped, a leading
/// separator is the root. Which characters separate and which prefixes exist depends on
/// the platform, so the components are stated only for a plain path.
#[verifier::external_body]
pub(crate) fn path_parts(path: &str) -> (parts: Vec<PathPart>)
    ensures
        plain_path(path@) ==> key_model(parts@) == plain_parts(path@),
{
    std::path::Path::new(path).components().map(component_part).collect()
}

/// Calls `std::path::Path::file_name`: the last component when it is a name; `None` for
/// a path that ends in `..`, is a root or prefix alone, or is empty.
#[verifier::external_body]
pub(crate) fn final_component(path: &str) -> (name: Option<String>)
    ensures
        name matches Some(n) ==> file_name_fits(n@, path@),
        plain_path(path@) ==> text_view(name) == plain_file_name(path@),
{
    std::path::Path::new(path).file_name().map(|s| s.to_string_lossy().into_owned())
}

/// Calls `std::path::Path::extension` (and `to_str`, which cannot fail on text): what
/// follows the last `.` of the file name, unless it has none or the only one starts it.
#[verifier::external_body]
pub(crate) fn path_extension(path: &str) -> (ext: Option<String>)
    ensures
        ext matches Some(e) ==> forall|i: int| 0 <= i < e@.len() ==> #[trigger] e@[i] != '.',
        plain_path(path@) ==> text_view(ext) == plain_extension(path@),
{
    std::path::Path::new(path).extension().and_then(|e| e.to_str()).map(str::to_string)
}

} // verus!
