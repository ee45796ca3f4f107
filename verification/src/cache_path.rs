//! Where the `.sbmc` cache file of a source image lives.

use vstd::prelude::*;
use std::collections::hash_map::DefaultHasher;
use std::hash::Hash;
use std::hash::Hasher;

verus! {

/// `16^n`.
pub open spec fn pow16(n: nat) -> nat
    decreases n,
{
    if n == 0 {
        1
    } else {
        16 * pow16((n - 1) as nat)
    }
}

/// The lower-case hexadecimal digit for `d < 16`.
pub open spec fn hex_digit(d: nat) -> char {
    if d < 10 {
        ('0' as nat + d) as char
    } else {
        ('a' as nat + (d - 10)) as char
    }
}

/// A lower-case hexadecimal digit.
pub open spec fn is_lower_hex(c: char) -> bool {
    ('0' <= c <= '9') || ('a' <= c <= 'f')
}

/// The value of a lower-case hexadecimal digit.
pub open spec fn hex_digit_value(c: char) -> nat {
    if '0' <= c <= '9' {
        (c as nat - '0' as nat) as nat
    } else {
        (c as nat - 'a' as nat + 10) as nat
    }
}

/// The last `n` hexadecimal digits of `h`, most significant first, zero-padded.
pub open spec fn hex_digits(h: nat, n: nat) -> Seq<char>
    decreases n,
{
    if n == 0 {
        Seq::<char>::empty()
    } else {
        hex_digits(h / 16, (n - 1) as nat).push(hex_digit(h % 16))
    }
}

/// The number that a string of lower-case hexadecimal digits spells.
pub open spec fn hex_value(s: Seq<char>) -> nat
    decreases s.len(),
{
    if s.len() == 0 {
        0
    } else {
        hex_value(s.drop_last()) * 16 + hex_digit_value(s.last())
    }
}

/// The file name of the cache for a source whose path hashes to `hash`: the hash as 16
/// zero-padded lower-case hexadecimal digits, then `.sbmc`.
pub open spec fn cache_file_name_of(hash: u64) -> Seq<char> {
    hex_digits(hash as nat, 16) + ".sbmc"@
}

fn hex_digit_str(d: u64) -> (s: &'static str)
    requires
        d < 16,
    ensures
        s@ == seq![hex_digit(d as nat)],
{
    proof {
        reveal_strlit("0");
        reveal_strlit("1");
        reveal_strlit("2");
        reveal_strlit("3");
        reveal_strlit("4");
        reveal_strlit("5");
        reveal_strlit("6");
        reveal_strlit("7");
        reveal_strlit("8");
        reveal_strlit("9");
        reveal_strlit("a");
        reveal_strlit("b");
        reveal_strlit("c");
        reveal_strlit("d");
        reveal_strlit("e");
        reveal_strlit("f");
    }
    let s = if d == 0 {
        "0"
    } else if d == 1 {
        "1"
    } else if d == 2 {
        "2"
    } else if d == 3 {
        "3"
    } else if d == 4 {
        "4"
    } else if d == 5 {
        "5"
    } else if d == 6 {
        "6"
    } else if d == 7 {
        "7"
    } else if d == 8 {
        "8"
    } else if d == 9 {
        "9"
    } else if d == 10 {
        "a"
    } else if d == 11 {
        "b"
    } else if d == 12 {
        "c"
    } else if d == 13 {
        "d"
    } else if d == 14 {
        "e"
    } else {
        "f"
    };
    assert(s@ =~= seq![hex_digit(d as nat)]);
    s
}

fn push_hex_digits(out: &mut String, h: u64, n: usize)
    ensures
        final(out)@ == old(out)@ + hex_digits(h as nat, n as nat),
    decreases n,
{
    if n > 0 {
        push_hex_digits(out, h / 16, n - 1);
        out.append(hex_digit_str(h % 16));
        assert(final(out)@ =~= old(out)@ + hex_digits(h as nat, n as nat));
    }
}

/// The cache file name for a path hash, as `format!("{:016x}.sbmc", hash)` writes it.
pub fn cache_file_name(hash: u64) -> (name: String)
    ensures
        name@ == cache_file_name_of(hash),
{
    let mut name = String::new();
    push_hex_digits(&mut name, hash, 16);
    name.append(".sbmc");
    name
}

proof fn lemma_pow16_positive(n: nat)
    ensures
        pow16(n) > 0,
    decreases n,
{
    if n > 0 {
        lemma_pow16_positive((n - 1) as nat);
    }
}

proof fn lemma_hex_digits_value(h: nat, n: nat)
    ensures
        hex_digits(h, n).len() == n,
        hex_value(hex_digits(h, n)) == h % pow16(n),
        forall|i: int| 0 <= i < n ==> is_lower_hex(#[trigger] hex_digits(h, n)[i]),
    decreases n,
{
    if n > 0 {
        lemma_hex_digits_value(h / 16, (n - 1) as nat);
        let s = hex_digits(h, n);
        assert(s.drop_last() =~= hex_digits(h / 16, (n - 1) as nat));
        lemma_pow16_positive((n - 1) as nat);
        vstd::arithmetic::div_mod::lemma_mod_breakdown(h as int, 16, pow16((n - 1) as nat) as int);
        assert forall|i: int| 0 <= i < n implies is_lower_hex(#[trigger] s[i]) by {
            if i < n - 1 {
                assert(s[i] == hex_digits(h / 16, (n - 1) as nat)[i]);
            }
        }
    } else {
        assert(h % 1 == 0);
    }
}

proof fn lemma_pow16_16()
    ensures
        pow16(16) == 0x1_0000_0000_0000_0000,
{
    reveal_with_fuel(pow16, 17);
}

/// Different path hashes give different cache file names, each 21 characters long.
pub proof fn lemma_cache_file_name_injective(a: u64, b: u64)
    ensures
        cache_file_name_of(a).len() == 21,
        a != b ==> cache_file_name_of(a) != cache_file_name_of(b),
{
    lemma_hex_digits_value(a as nat, 16);
    lemma_hex_digits_value(b as nat, 16);
    lemma_pow16_16();
    reveal_strlit(".sbmc");
    if cache_file_name_of(a) == cache_file_name_of(b) {
        assert(hex_digits(a as nat, 16) =~= cache_file_name_of(a).subrange(0, 16));
        assert(hex_digits(b as nat, 16) =~= cache_file_name_of(b).subrange(0, 16));
    }
}


/// A file name that a path join appends rather than substitutes: not empty, no leading
/// separator, no drive prefix, and neither `.` nor `..`.
pub open spec fn relative_file_name(name: Seq<char>) -> bool {
    &&& name.len() > 0
    &&& name[0] != '/'
    &&& name[0] != '\\'
    &&& (name.len() >= 2 ==> name[1] != ':')
    &&& name != seq!['.']
    &&& name != seq!['.', '.']
}

/// A path separator on some platform.
pub open spec fn is_separator(c: char) -> bool {
    c == '/' || c == '\\'
}

/// A directory in verbatim form (`\\?\` and what follows), which a join on Windows
/// rebuilds from its components instead of extending.
pub open spec fn is_verbatim(dir: Seq<char>) -> bool {
    &&& dir.len() >= 4
    &&& is_separator(dir[0])
    &&& is_separator(dir[1])
    &&& dir[2] == '?'
    &&& is_separator(dir[3])
}

/// `joined` is `dir` with the relative `name` adjoined: it starts with `dir`, ends with
/// `name`, and at most one separator stands between them.
pub open spec fn joined_path(dir: Seq<char>, name: Seq<char>, joined: Seq<char>) -> bool {
    &&& dir.is_prefix_of(joined)
    &&& name.is_suffix_of(joined)
    &&& dir.len() + name.len() <= joined.len() <= dir.len() + name.len() + 1
}

/// Calls `std::path::Path::join` and hands the result back as a string. For a relative
/// name the standard library's documentation shows the name adjoined to the directory,
/// with a separator between them where the directory does not already end in one; which
/// separator is the platform's own and is not stated. On Windows a directory in verbatim
/// form is rebuilt from its components and the name is normalized into it, so of such a
/// directory nothing is stated.
#[verifier::external_body]
fn join_path(dir: &str, name: &str) -> (joined: String)
    requires
        relative_file_name(name@),
    ensures
        !is_verbatim(dir@) ==> joined_path(dir@, name@, joined@),
{
    std::path::Path::new(dir).join(name).to_string_lossy().into_owned()
}

/// Calls `<std::path::Path as Hash>::hash` on the path `source`, feeding `hasher`. Which
/// bytes a path feeds depends on the platform's path syntax, so nothing is stated of the
/// hasher's state afterwards.
#[verifier::external_body]
fn hash_path(source: &str, hasher: &mut DefaultHasher) {
    std::path::Path::new(source).hash(hasher)
}

/// The path of the cache file for `source`: inside `cache_dir`, named after the hash of
/// the source path; without a directory, next to the source with `.sbmc` appended.
pub fn cache_path_for(source: &str, cache_dir: Option<&str>) -> (path: String)
    ensures
        match cache_dir {
            Some(dir) => !is_verbatim(dir@) ==> exists|h: u64|
                joined_path(dir@, #[trigger] cache_file_name_of(h), path@),
            None => path@ == source@ + ".sbmc"@,
        },
{
    match cache_dir {
        Some(dir) => {
            let mut hasher = DefaultHasher::new();
            hash_path(source, &mut hasher);
            let hash = hasher.finish();
            let name = cache_file_name(hash);
            proof {
                reveal_strlit(".sbmc");
                lemma_hex_digits_value(hash as nat, 16);
                assert(name@[0] == hex_digits(hash as nat, 16)[0]);
                assert(name@[1] == hex_digits(hash as nat, 16)[1]);
                assert(is_lower_hex(hex_digits(hash as nat, 16)[0]));
                assert(is_lower_hex(hex_digits(hash as nat, 16)[1]));
                assert(name@.len() == 21);
            }
            let path = join_path(dir, name.as_str());
            path
        },
        None => {
            let mut path = String::from_str(source);
            path.append(".sbmc");
            path
        },
    }
}

/// A store whose cache files are written into one directory.
pub struct SbmcStore {
    cache_dir: String,
}

impl SbmcStore {
    /// A store for `cache_dir`. The directory itself is made by the caller.
    pub fn new(cache_dir: String) -> (store: Self)
        ensures
            store.dir() == cache_dir@,
    {
        SbmcStore { cache_dir }
    }

    pub closed spec fn dir(&self) -> Seq<char> {
        self.cache_dir@
    }

    /// The directory that holds the cache files.
    pub fn cache_dir(&self) -> (dir: &str)
        ensures
            dir@ == self.dir(),
    {
        self.cache_dir.as_str()
    }

    /// Where this store keeps the cache of `source`.
    pub fn cache_path(&self, source: &str) -> (path: String)
        ensures
            !is_verbatim(self.dir()) ==> exists|h: u64|
                joined_path(self.dir(), #[trigger] cache_file_name_of(h), path@),
    {
        cache_path_for(source, Some(self.cache_dir.as_str()))
    }
}

impl Clone for SbmcStore {
    fn clone(&self) -> (c: Self)
        ensures
            c.dir() == self.dir(),
    {
        SbmcStore { cache_dir: self.cache_dir.clone() }
    }
}

} // verus!
