//! Values of the command line: defaults and the checks on option values.

use vstd::prelude::*;

use crate::text::{digits_value, is_ascii_digit, unsigned_digits};

verus! {

/// Seconds between two refreshes of the process table, unless asked otherwise.
pub const DEFAULT_PROC_REFRESH: u64 = 2;

/// Entries of each ranked list, unless asked otherwise.
pub const DEFAULT_TOP_N: u64 = 10;

/// Seconds between two reports in the file and JSON modes.
pub const REFRESH_INTERVAL_SECS: u64 = 5;

/// The `u64` that `s` writes in decimal, as `str::parse::<u64>` reads it: an
/// optional `+`, then one or more ASCII digits, of a value that fits.
pub open spec fn spec_parse_u64(s: Seq<char>) -> Option<u64> {
    let d = unsigned_digits(s);
    if d.len() > 0 && (forall|i: int| 0 <= i < d.len() ==> is_ascii_digit(#[trigger] d[i]))
        && digits_value(d) <= u64::MAX {
        Some(digits_value(d) as u64)
    } else {
        None
    }
}

proof fn lemma_digits_value_grows(d: Seq<char>, k: int)
    requires
        0 <= k <= d.len(),
    ensures
        digits_value(d.subrange(0, k)) <= digits_value(d),
    decreases d.len() - k,
{
    if k < d.len() {
        lemma_digits_value_grows(d, k + 1);
        assert(d.subrange(0, k + 1).drop_last() =~= d.subrange(0, k));
    } else {
        assert(d.subrange(0, k) =~= d);
    }
}

/// Reads an unsigned decimal number; see [`spec_parse_u64`].
pub fn parse_u64(s: &str) -> (r: Option<u64>)
    ensures
        r == spec_parse_u64(s@),
{
    let n = s.unicode_len();
    let mut start: usize = 0;
    if n > 0 && s.get_char(0) == '+' {
        start = 1;
    }
    let ghost d = unsigned_digits(s@);
    assert(d =~= s@.subrange(start as int, n as int));
    if start == n {
        return None;
    }
    let mut value: u64 = 0;
    let mut i: usize = start;
    while i < n
        invariant
            n == s@.len(),
            start <= i <= n,
            d == s@.subrange(start as int, n as int),
            d == unsigned_digits(s@),
            forall|k: int| 0 <= k < i - start ==> is_ascii_digit(#[trigger] d[k]),
            value == digits_value(d.subrange(0, i - start)),
        decreases n - i,
    {
        let c = s.get_char(i);
        if !('0' <= c && c <= '9') {
            assert(!is_ascii_digit(d[i - start]));
            return None;
        }
        let digit = (c as u32 - '0' as u32) as u64;
        assert(d.subrange(0, i - start + 1).drop_last() =~= d.subrange(0, i - start));
        assert(d.subrange(0, i - start + 1).last() == c);
        match value.checked_mul(10) {
            Some(tens) => match tens.checked_add(digit) {
                Some(next) => {
                    value = next;
                },
                None => {
                    proof {
                        lemma_digits_value_grows(d, i - start + 1);
                    }
                    return None;
                },
            },
            None => {
                proof {
                    lemma_digits_value_grows(d, i - start + 1);
                }
                return None;
            },
        }
        i += 1;
    }
    assert(d.subrange(0, d.len() as int) =~= d);
    Some(value)
}

/// What [`positive_u64`] says about a text that is not a positive number.
pub open spec fn positive_u64_error(s: Seq<char>) -> Seq<char> {
    if spec_parse_u64(s) == Some(0u64) {
        "value must be greater than 0"@
    } else {
        "value must be a positive integer"@
    }
}

/// Checks an option value that must be a positive whole number: the number,
/// or the reason it was refused.
pub fn positive_u64(s: &str) -> (r: Result<u64, String>)
    ensures
        match spec_parse_u64(s@) {
            Some(v) if v > 0 => r == Ok::<u64, String>(v),
            _ => r matches Err(e) && e@ == positive_u64_error(s@),
        },
{
    match parse_u64(s) {
        Some(v) => {
            if v > 0 {
                Ok(v)
            } else {
                Err("value must be greater than 0".to_string())
            }
        },
        None => Err("value must be a positive integer".to_string()),
    }
}

} // verus!
