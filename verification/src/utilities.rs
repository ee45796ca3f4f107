//! Number formatting and a range-bounded pseudo-random number.

use vstd::prelude::*;
use std::time::{Duration, SystemTime, SystemTimeError};

verus! {

/// The decimal digit for `d < 10`.
pub open spec fn decimal_digit(d: nat) -> char {
    ('0' as nat + d) as char
}

/// The decimal representation of `n`, without leading zeros (`0` for zero).
pub open spec fn decimal(n: nat) -> Seq<char>
    decreases n,
{
    if n < 10 {
        seq![decimal_digit(n)]
    } else {
        decimal(n / 10).push(decimal_digit(n % 10))
    }
}

fn decimal_digit_str(d: u64) -> (s: &'static str)
    requires
        d < 10,
    ensures
        s@ == seq![decimal_digit(d as nat)],
{
    proof {
        reveal_strlit("0");
        reveal_strlit("1");
        reveal_strlit("2");
        reveal_strlit("3");
        reveal_strlit("4");
        reveal_strlit("5");
        reveal_strlit("6");
        reveal_strlit("7");
        reveal_strlit("8");
        reveal_strlit("9");
    }
    let s = if d == 0 {
        "0"
    } else if d == 1 {
        "1"
    } else if d == 2 {
        "2"
    } else if d == 3 {
        "3"
    } else if d == 4 {
        "4"
    } else if d == 5 {
        "5"
    } else if d == 6 {
        "6"
    } else if d == 7 {
        "7"
    } else if d == 8 {
        "8"
    } else {
        "9"
    };
    assert(s@ =~= seq![decimal_digit(d as nat)]);
    s
}

/// Appends the decimal representation of `n`, as `format!("{}", n)` writes it.
pub fn push_decimal(out: &mut String, n: u64)
    ensures
        final(out)@ == old(out)@ + decimal(n as nat),
    decreases n,
{
    if n < 10 {
        out.append(decimal_digit_str(n));
        assert(final(out)@ =~= old(out)@ + decimal(n as nat));
    } else {
        push_decimal(out, n / 10);
        out.append(decimal_digit_str(n % 10));
        assert(final(out)@ =~= old(out)@ + decimal(n as nat));
    }
}

/// What `humansize::format_size(size, humansize::DECIMAL)` writes for `size` bytes.
pub uninterp spec fn humansize_decimal(size: u64) -> Seq<char>;

/// A byte count in decimal units, as humansize's `format_size` with its `DECIMAL` options
/// writes it (`"1.50 kB"`). The humansize source divides in floating point; below 1000
/// bytes the value is written with no decimals, then a space and `B`, which is stated.
pub fn human_size(size: u64) -> (s: String)
    ensures
        s@ == humansize_decimal(size),
        size < 1000 ==> s@ == decimal(size as nat) + " B"@,
{
    format_human_size(size)
}

/// Calls `humansize::format_size` with the `DECIMAL` options. In humansize's source a
/// value below 1000 keeps the unit `B`, has no fractional part, and is printed with no
/// decimal places followed by a space and the unit.
#[verifier::external_body]
fn format_human_size(size: u64) -> (s: String)
    ensures
        s@ == humansize_decimal(size),
        size < 1000 ==> s@ == decimal(size as nat) + " B"@,
{
    humansize::format_size(size, humansize::DECIMAL)
}

/// One step of the 64-bit xorshift generator with shifts 13, 7 and 17.
pub open spec fn xorshift64(seed: u64) -> u64 {
    let a = seed ^ (seed << 13u64);
    let b = a ^ (a >> 7u64);
    b ^ (b << 17u64)
}

/// The number in `min..=max` that a seed gives.
pub open spec fn in_range_from_seed(seed: u64, min: u64, max: u64) -> int {
    min + (xorshift64(seed) % ((max - min + 1) as u64))
}

/// Scrambles `seed` with one xorshift step and reduces it into `min..=max`.
pub fn random_in_range_from_seed(seed: u64, min: u64, max: u64) -> (r: u64)
    requires
        min <= max,
        max - min < u64::MAX,
    ensures
        r == in_range_from_seed(seed, min, max),
        min <= r <= max,
{
    let mut s = seed;
    s = s ^ (s << 13u64);
    s = s ^ (s >> 7u64);
    s = s ^ (s << 17u64);
    let span: u64 = max - min + 1;
    min + (s % span)
}

#[verifier::external_type_specification]
#[verifier::external_body]
pub struct ExSystemTime(SystemTime);

#[verifier::external_type_specification]
#[verifier::external_body]
pub struct ExSystemTimeError(SystemTimeError);

/// Calls `std::time::SystemTime::now`. The clock's reading is not stated.
#[verifier::external_body]
fn system_time_now() -> SystemTime {
    SystemTime::now()
}

/// Calls `SystemTime::duration_since` with `std::time::UNIX_EPOCH`; an error when the
/// time is before the epoch. Nothing is stated of the value: it comes from the clock.
#[verifier::external_body]
fn since_unix_epoch(t: &SystemTime) -> Result<Duration, SystemTimeError> {
    t.duration_since(std::time::UNIX_EPOCH)
}

/// Calls `std::time::Duration::as_nanos`.
#[verifier::external_body]
fn duration_as_nanos(d: &Duration) -> u128 {
    d.as_nanos()
}

/// A pseudo-random number in `min..=max`, seeded with the clock's nanoseconds since the
/// Unix epoch (cut to 64 bits) and scrambled with one xorshift step; `None` when the
/// clock reads a time before the epoch.
pub fn get_random_in_range(min: u64, max: u64) -> (r: Option<u64>)
    requires
        min <= max,
        max - min < u64::MAX,
    ensures
        r matches Some(v) ==> min <= v <= max && exists|seed: u64| v == in_range_from_seed(seed, min, max),
{
    let now = system_time_now();
    match since_unix_epoch(&now) {
        Ok(d) => {
            let seed = duration_as_nanos(&d) as u64;
            Some(random_in_range_from_seed(seed, min, max))
        },
        Err(_) => None,
    }
}

} // verus!
