//! The state of one dropped file's row: its sizes before and after compression.

use vstd::prelude::*;
use crate::utilities::{decimal, human_size, humansize_decimal, push_decimal};

verus! {

/// What `str::to_uppercase` makes of `s`.
pub uninterp spec fn unicode_uppercase(s: Seq<char>) -> Seq<char>;

/// A character below 128.
pub open spec fn is_ascii_char(c: char) -> bool {
    (c as u32) < 128
}

/// `c` with `a` to `z` turned into `A` to `Z`.
pub open spec fn ascii_upper(c: char) -> char {
    if 'a' <= c <= 'z' {
        ((c as u32) - 32) as char
    } else {
        c
    }
}

/// Calls `str::to_uppercase`. Its result is named: upper-casing follows the Unicode
/// tables. Of text in ASCII alone the documentation shows each letter `a` to `z` mapped to
/// its capital and every other character kept, which is stated.
#[verifier::external_body]
fn to_uppercase(s: &str) -> (u: String)
    ensures
        u@ == unicode_uppercase(s@),
        (forall|i: int| 0 <= i < s@.len() ==> is_ascii_char(#[trigger] s@[i])) ==> u@
            == s@.map_values(|c: char| ascii_upper(c)),
{
    s.to_uppercase()
}

/// The values a row starts from.
pub struct PreviewData {
    pub path: String,
    pub name: String,
    pub original_bytes: u64,
    pub compressed_bytes: u64,
    /// Position of the file among those dropped together.
    pub index: usize,
    pub is_processing: bool,
    pub is_error: bool,
}

/// Which indicator a row shows.
#[derive(Debug, Clone, Copy, PartialEq, Eq, Structural)]
pub enum PreviewStatus {
    /// Compression is still running.
    Processing,
    /// The compressed file is smaller than the original.
    Smaller,
    /// The compressed file is not smaller than the original.
    NotSmaller,
    /// Compression failed.
    Failed,
}

/// One dropped file's row.
pub struct Preview {
    name: String,
    path: String,
    original_bytes: u64,
    sequence: bool,
    compressed_bytes: u64,
    is_processing: bool,
    is_error: bool,
}

/// The text for the change in size: `0%` for an empty original, otherwise the
/// compressed size as a whole percentage of the original (rounded down), written as how
/// far it is above (`+`) or below (`-`) one hundred.
pub open spec fn savings_text(original: u64, compressed: u64) -> Seq<char> {
    if original == 0 {
        "0%"@
    } else {
        let ratio = compressed * 100 / (original as int);
        if ratio >= 100 {
            "+"@ + decimal((ratio - 100) as nat) + "%"@
        } else {
            "-"@ + decimal((100 - ratio) as nat) + "%"@
        }
    }
}

/// The indicator for a row's flags: running compression first, then failure, then the
/// size comparison.
pub open spec fn status_of(is_processing: bool, is_error: bool, is_smaller: bool) -> PreviewStatus {
    if is_processing {
        PreviewStatus::Processing
    } else if is_error {
        PreviewStatus::Failed
    } else if is_smaller {
        PreviewStatus::Smaller
    } else {
        PreviewStatus::NotSmaller
    }
}

impl Preview {
    pub closed spec fn name_view(&self) -> Seq<char> {
        self.name@
    }

    pub closed spec fn path_view(&self) -> Seq<char> {
        self.path@
    }

    pub closed spec fn original(&self) -> u64 {
        self.original_bytes
    }

    pub closed spec fn sequence(&self) -> bool {
        self.sequence
    }

    pub closed spec fn compressed(&self) -> u64 {
        self.compressed_bytes
    }

    pub closed spec fn processing(&self) -> bool {
        self.is_processing
    }

    pub closed spec fn failed(&self) -> bool {
        self.is_error
    }

    /// The size of the source file when the row was made.
    pub fn original_bytes(&self) -> (n: u64)
        ensures
            n == self.original(),
    {
        self.original_bytes
    }

    /// The size after compression (the original size while compression runs).
    pub fn compressed_bytes(&self) -> (n: u64)
        ensures
            n == self.compressed(),
    {
        self.compressed_bytes
    }

    /// Whether compression is still running.
    pub fn is_processing(&self) -> (b: bool)
        ensures
            b == self.processing(),
    {
        self.is_processing
    }

    /// Whether compression failed.
    pub fn is_error(&self) -> (b: bool)
        ensures
            b == self.failed(),
    {
        self.is_error
    }

    /// A row for `data`; rows at even positions are marked for the plain background.
    pub fn new(data: PreviewData) -> (p: Self)
        ensures
            p.name_view() == data.name@,
            p.path_view() == data.path@,
            p.original() == data.original_bytes,
            p.compressed() == data.compressed_bytes,
            p.processing() == data.is_processing,
            p.failed() == data.is_error,
            p.sequence() == (data.index % 2 == 0),
    {
        let PreviewData {
            path,
            name,
            original_bytes,
            compressed_bytes,
            index,
            is_processing,
            is_error,
        } = data;
        Preview {
            name,
            path,
            original_bytes,
            sequence: index % 2 == 0,
            compressed_bytes,
            is_processing,
            is_error,
        }
    }

    /// The file's name.
    pub fn name(&self) -> (s: &str)
        ensures
            s@ == self.name_view(),
    {
        self.name.as_str()
    }

    /// The file's path.
    pub fn path(&self) -> (s: &str)
        ensures
            s@ == self.path_view(),
    {
        self.path.as_str()
    }

    /// Whether the row is drawn on the alternate background (odd positions).
    pub fn uses_alternate_background(&self) -> (b: bool)
        ensures
            b == !self.sequence(),
    {
        !self.sequence
    }

    /// The original size in decimal units, upper-cased.
    pub fn original_size(&self) -> (s: String)
        ensures
            s@ == unicode_uppercase(humansize_decimal(self.original())),
            self.original() < 1000 ==> s@ == decimal(self.original() as nat) + " B"@,
    {
        upper_human_size(self.original_bytes)
    }

    /// The compressed size in decimal units, upper-cased.
    pub fn compressed_size(&self) -> (s: String)
        ensures
            s@ == unicode_uppercase(humansize_decimal(self.compressed())),
            self.compressed() < 1000 ==> s@ == decimal(self.compressed() as nat) + " B"@,
    {
        upper_human_size(self.compressed_bytes)
    }

    /// Whether compression made the file smaller.
    pub fn is_smaller(&self) -> (b: bool)
        ensures
            b == (self.compressed() < self.original()),
    {
        self.compressed_bytes < self.original_bytes
    }

    /// The change in size as text, such as `-42%` or `+3%`.
    pub fn savings(&self) -> (s: String)
        requires
            self.original() == 0 || self.compressed() * 100 <= u64::MAX,
        ensures
            s@ == savings_text(self.original(), self.compressed()),
    {
        proof {
            reveal_strlit("0%");
            reveal_strlit("+");
            reveal_strlit("-");
            reveal_strlit("%");
        }
        if self.original_bytes == 0 {
            return String::from_str("0%");
        }
        let ratio = self.compressed_bytes * 100 / self.original_bytes;
        let mut s;
        if ratio >= 100 {
            s = String::from_str("+");
            push_decimal(&mut s, ratio - 100);
        } else {
            s = String::from_str("-");
            push_decimal(&mut s, 100 - ratio);
        }
        s.append("%");
        s
    }

    /// The indicator the row shows.
    pub fn status(&self) -> (st: PreviewStatus)
        ensures
            st == status_of(self.processing(), self.failed(), self.compressed() < self.original()),
    {
        let smaller = self.is_smaller();
        if self.is_processing {
            PreviewStatus::Processing
        } else if self.is_error {
            PreviewStatus::Failed
        } else if smaller {
            PreviewStatus::Smaller
        } else {
            PreviewStatus::NotSmaller
        }
    }

    /// Records how compression ended: the new size, or a failure (`None`). A failure sets
    /// the error flag and leaves the processing flag as it was.
    pub fn finish_compression(&mut self, result: Option<u64>)
        ensures
            final(self).name_view() == old(self).name_view(),
            final(self).path_view() == old(self).path_view(),
            final(self).original() == old(self).original(),
            final(self).sequence() == old(self).sequence(),
            match result {
                Some(n) => {
                    &&& final(self).compressed() == n
                    &&& !final(self).processing()
                    &&& final(self).failed() == old(self).failed()
                },
                None => {
                    &&& final(self).compressed() == old(self).compressed()
                    &&& final(self).processing() == old(self).processing()
                    &&& final(self).failed()
                },
            },
    {
        match result {
            Some(n) => {
                self.compressed_bytes = n;
                self.is_processing = false;
            },
            None => {
                self.is_error = true;
            },
        }
    }
}

proof fn lemma_decimal_digits(n: nat)
    ensures
        forall|i: int| 0 <= i < decimal(n).len() ==> '0' <= #[trigger] decimal(n)[i] <= '9',
    decreases n,
{
    if n >= 10 {
        lemma_decimal_digits(n / 10);
        let d = decimal(n / 10);
        assert forall|i: int| 0 <= i < decimal(n).len() implies '0' <= #[trigger] decimal(n)[i]
            <= '9' by {
            if i < d.len() {
                assert(decimal(n)[i] == d[i]);
            }
        }
    }
}

/// A byte count in decimal units, upper-cased.
fn upper_human_size(size: u64) -> (s: String)
    ensures
        s@ == unicode_uppercase(humansize_decimal(size)),
        size < 1000 ==> s@ == decimal(size as nat) + " B"@,
{
    let h = human_size(size);
    proof {
        if size < 1000 {
            reveal_strlit(" B");
            lemma_decimal_digits(size as nat);
            let t = decimal(size as nat) + " B"@;
            assert forall|i: int| 0 <= i < t.len() implies is_ascii_char(#[trigger] t[i]) && ascii_upper(t[i]) == t[i] by {
                if i < decimal(size as nat).len() {
                    assert(t[i] == decimal(size as nat)[i]);
                }
            }
            assert(t.map_values(|c: char| ascii_upper(c)) =~= t);
        }
    }
    to_uppercase(h.as_str())
}

/// For a non-empty original, the savings text starts with `-` exactly when the file got
/// smaller, and with `+` otherwise.
pub proof fn lemma_savings_sign(original: u64, compressed: u64)
    requires
        original > 0,
    ensures
        savings_text(original, compressed)[0] == (if compressed < original {
            '-'
        } else {
            '+'
        }),
{
    reveal_strlit("+");
    reveal_strlit("-");
    let ratio = compressed * 100 / (original as int);
    if compressed < original {
        assert(compressed * 100 < original * 100) by (nonlinear_arith)
            requires
                compressed < original,
        ;
        assert(ratio < 100) by (nonlinear_arith)
            requires
                ratio == compressed * 100 / (original as int),
                compressed * 100 < original * 100,
                original > 0,
        ;
    } else {
        assert(ratio >= 100) by (nonlinear_arith)
            requires
                ratio == compressed * 100 / (original as int),
                compressed >= original,
                original > 0,
        ;
    }
}

} // verus!
