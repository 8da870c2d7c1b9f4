//! The two durations of the configuration, the idle timeout and the grace
//! period, from their written form to whole milliseconds.

use vstd::prelude::*;
use vstd::string::StrSliceExecFns;

verus! {

/// The error of `parse_duration::parse`.
#[verifier::external_type_specification]
#[verifier::external_body]
pub struct ExDurationError(parse_duration::parse::Error);

/// The duration that `parse_duration::parse` reads from `text`, as whole
/// seconds and the nanoseconds beyond them, or `None` where it reports an
/// error.
pub uninterp spec fn parsed_duration(text: Seq<char>) -> Option<(u64, u32)>;

/// Why a written duration gives no timeout.
#[derive(Debug, Clone, Copy, PartialEq, Eq, Structural)]
pub enum TimeoutError {
    /// The text holds an exponent of three digits or more, which is not
    /// accepted.
    LongExponent,
    /// The text is not a duration, or not one that can be represented.
    Unparsable,
}

/// Whether `c` is one of the digits `0` to `9`.
pub open spec fn is_digit(c: char) -> bool {
    '0' <= c && c <= '9'
}

/// Where the digits of an exponent marked at `i` begin: behind the mark,
/// and behind the one sign that may follow it.
pub open spec fn exponent_digits_from(text: Seq<char>, i: int) -> int {
    if i + 1 < text.len() && (text[i + 1] == '+' || text[i + 1] == '-') {
        i + 2
    } else {
        i + 1
    }
}

/// Whether `text` holds at `i` the mark of an exponent of three digits or
/// more: an `e` of either case that stands directly behind a number (a
/// digit, or a digit and a decimal point) and is followed, after at most
/// one sign, by three digits.
pub open spec fn long_exponent_at(text: Seq<char>, i: int) -> bool {
    let j = exponent_digits_from(text, i);
    &&& 1 <= i < text.len()
    &&& (text[i] == 'e' || text[i] == 'E')
    &&& (is_digit(text[i - 1]) || (i >= 2 && text[i - 1] == '.' && is_digit(text[i - 2])))
    &&& j + 2 < text.len()
    &&& is_digit(text[j])
    &&& is_digit(text[j + 1])
    &&& is_digit(text[j + 2])
}

/// Whether `text` holds an exponent of three digits or more anywhere.
pub open spec fn has_long_exponent(text: Seq<char>) -> bool {
    exists|i: int| #[trigger] long_exponent_at(text, i)
}

/// A duration of `secs` seconds and `nanos` nanoseconds in milliseconds: a
/// started millisecond counts as a whole one, so that a wait is never cut
/// short, and what does not fit is the largest number.
pub open spec fn millis_of(secs: u64, nanos: u32) -> u64 {
    let total = secs * 1000 + (nanos + 999_999) / 1_000_000;
    if total > u64::MAX {
        u64::MAX
    } else {
        total as u64
    }
}

/// Calls `parse_duration::parse`, which reads a duration written as numbers
/// with units, and splits the result with `Duration::as_secs` and
/// `Duration::subsec_nanos`. Trusted: the result is the function's own,
/// named `parsed_duration`, and depends on `text` alone. Texts with a long
/// exponent are kept away: the function raises ten to the exponent as a
/// number of unbounded size, and on a large one does not come back. An
/// exponent that it can read at all is made of the digits `0` to `9` and
/// follows a number made of them, so what is admitted here has an
/// exponent of two digits at most.
#[verifier::external_body]
fn parse_text(text: &str) -> (r: Result<(u64, u32), parse_duration::parse::Error>)
    requires
        !has_long_exponent(text@),
    ensures
        match r {
            Ok(parts) => parsed_duration(text@) == Some(parts),
            Err(_) => parsed_duration(text@).is_none(),
        },
{
    match parse_duration::parse(text) {
        Ok(d) => Ok((d.as_secs(), d.subsec_nanos())),
        Err(e) => Err(e),
    }
}

/// Whether `c` is one of the digits `0` to `9`.
fn digit(c: char) -> (r: bool)
    ensures
        r == is_digit(c),
{
    '0' <= c && c <= '9'
}

/// Whether `text` holds at `i` the mark of a long exponent.
fn long_exponent_starts(text: &str, n: usize, i: usize) -> (found: bool)
    requires
        n == text@.len(),
        1 <= i < n,
    ensures
        found == long_exponent_at(text@, i as int),
{
    let c = text.get_char(i);
    if !(c == 'e' || c == 'E') {
        return false;
    }
    let before = text.get_char(i - 1);
    let after_number = digit(before) || (i >= 2 && before == '.' && digit(text.get_char(i - 2)));
    if !after_number {
        return false;
    }
    let mut j: usize = i + 1;
    if j < n {
        let sign = text.get_char(j);
        if sign == '+' || sign == '-' {
            j = j + 1;
        }
    }
    assert(j == exponent_digits_from(text@, i as int));
    if n - j < 3 {
        return false;
    }
    digit(text.get_char(j)) && digit(text.get_char(j + 1)) && digit(text.get_char(j + 2))
}

/// Whether `text` holds an exponent of three digits or more.
pub fn holds_long_exponent(text: &str) -> (found: bool)
    ensures
        found == has_long_exponent(text@),
{
    let n: usize = text.unicode_len();
    let mut i: usize = 1;
    while i < n
        invariant
            n == text@.len(),
            1 <= i,
            forall|k: int| 0 <= k < i ==> !long_exponent_at(text@, k),
        decreases n - i,
    {
        if long_exponent_starts(text, n, i) {
            return true;
        }
        i += 1;
    }
    false
}

/// Converts seconds and nanoseconds to milliseconds, rounding up and
/// saturating.
pub fn to_millis(secs: u64, nanos: u32) -> (ms: u64)
    ensures
        ms == millis_of(secs, nanos),
{
    let part: u64 = ((nanos as u64) + 999_999) / 1_000_000;
    if secs > (u64::MAX - part) / 1000 {
        u64::MAX
    } else {
        secs * 1000 + part
    }
}

/// Reads a timeout such as `1h`, `10s`, `1m 30s` or `1.5e3 ms`, in
/// milliseconds.
pub fn parse_timeout(text: &str) -> (r: Result<u64, TimeoutError>)
    ensures
        match r {
            Ok(ms) => !has_long_exponent(text@) && parsed_duration(text@).is_some() && ms
                == millis_of(parsed_duration(text@).unwrap().0, parsed_duration(text@).unwrap().1),
            Err(TimeoutError::LongExponent) => has_long_exponent(text@),
            Err(TimeoutError::Unparsable) => !has_long_exponent(text@) && parsed_duration(
                text@,
            ).is_none(),
        },
{
    if holds_long_exponent(text) {
        return Err(TimeoutError::LongExponent);
    }
    match parse_text(text) {
        Ok((secs, nanos)) => Ok(to_millis(secs, nanos)),
        Err(_) => Err(TimeoutError::Unparsable),
    }
}

} // verus!
