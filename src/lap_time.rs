//! Lap times written as `H:MM'SS.s`, `MM'SS.s` or `SS.s`, read as signed milliseconds.

use vstd::prelude::*;
use vstd::slice::slice_subrange;
use crate::numeric::{
    all_digits, chars_of, digit_value, digits_value, find_char, first_index, is_all_digits,
    parse_u32, read_digits, u32_of,
};

verus! {

/// Why a lap time could not be read.
#[derive(Clone, Copy, Debug, PartialEq, Eq, Structural)]
pub enum LapTimeError {
    /// The token ends at its hour or minute separator.
    TrailingSeparator,
    /// A component is not a number of the expected form.
    Malformed,
    /// The duration does not fit an `i64` count of milliseconds.
    OutOfRange,
}

pub const MS_PER_HOUR: i128 = 3_600_000;

pub const MS_PER_MINUTE: i128 = 60_000;

pub const MS_PER_SECOND: i128 = 1_000;

/// The largest whole-seconds value that is read exactly; any larger one puts every lap
/// time out of the `i64` range.
pub const MAX_WHOLE_SECONDS: u64 = 18_446_744_073_709_551;

/// The first three fractional digits as milliseconds; later digits are cut off.
pub open spec fn fraction_ms(f: Seq<char>) -> nat {
    (if f.len() > 0 { digit_value(f[0]) * 100 } else { 0 }) + (if f.len() > 1 {
        digit_value(f[1]) * 10
    } else {
        0
    }) + (if f.len() > 2 { digit_value(f[2]) } else { 0 })
}

pub open spec fn has_sign(s: Seq<char>) -> bool {
    s.len() > 0 && (s[0] == '+' || s[0] == '-')
}

/// Milliseconds in a seconds component, cut toward zero: an optional sign, whole seconds,
/// and an optional `.` with a fraction; one of the two digit runs may be empty, not both.
pub open spec fn seconds_ms(s: Seq<char>) -> Option<int> {
    let b = if has_sign(s) { s.drop_first() } else { s };
    let (w, f) = match first_index(b, '.') {
        Some(d) => (b.take(d), b.skip(d + 1)),
        None => (b, Seq::empty()),
    };
    if (w.len() > 0 || f.len() > 0) && all_digits(w) && all_digits(f) {
        let v = digits_value(w) * 1000 + fraction_ms(f);
        Some(if has_sign(s) && s[0] == '-' { -v } else { v as int })
    } else {
        None
    }
}

pub open spec fn ends_in_separator(s: Seq<char>) -> bool {
    s.len() > 0 && (s.last() == ':' || s.last() == '\'')
}

pub open spec fn fits_i64(v: int) -> bool {
    i64::MIN <= v <= i64::MAX
}

/// The sum of an hour count, a minute count and a seconds component, where all three read
/// and the sum fits an `i64`.
pub open spec fn sum_ms(hours: Option<u32>, minutes: Option<u32>, secs: Option<int>) -> Result<
    int,
    LapTimeError,
> {
    match (hours, minutes, secs) {
        (Some(h), Some(m), Some(ms)) => {
            let t = h * 3_600_000 + m * 60_000 + ms;
            if fits_i64(t) {
                Ok(t)
            } else {
                Err(LapTimeError::OutOfRange)
            }
        },
        _ => Err(LapTimeError::Malformed),
    }
}

/// The duration that a lap-time token denotes, in milliseconds. With an apostrophe, the
/// minutes stand before the first one and the seconds after it; a colon before the
/// apostrophe puts the hours before it. Without an apostrophe the token is seconds alone.
pub open spec fn lap_time_ms(s: Seq<char>) -> Result<int, LapTimeError> {
    if ends_in_separator(s) {
        Err(LapTimeError::TrailingSeparator)
    } else {
        match first_index(s, '\'') {
            Some(a) => {
                let head = s.take(a);
                let secs = seconds_ms(s.skip(a + 1));
                match first_index(head, ':') {
                    Some(c) => sum_ms(u32_of(head.take(c)), u32_of(head.skip(c + 1)), secs),
                    None => sum_ms(Some(0), u32_of(head), secs),
                }
            },
            None => sum_ms(Some(0), Some(0), seconds_ms(s)),
        }
    }
}

/// A lap-time result with its milliseconds as a mathematical integer.
pub open spec fn ms_view(r: Result<i64, LapTimeError>) -> Result<int, LapTimeError> {
    match r {
        Ok(v) => Ok(v as int),
        Err(e) => Err(e),
    }
}

/// A seconds component as read: its milliseconds, or too large for any lap time, or no
/// number of the expected form.
enum SecondsRead {
    Value(i128),
    TooLarge,
    Malformed,
}

fn parse_seconds_ms(s: &[char]) -> (r: SecondsRead)
    ensures
        match r {
            SecondsRead::Value(v) => seconds_ms(s@) == Some(v as int) && -18_446_744_073_709_551_999
                <= v <= 18_446_744_073_709_551_999,
            SecondsRead::TooLarge => seconds_ms(s@) is Some && (seconds_ms(s@)->0
                >= 18_446_744_073_709_552_000 || seconds_ms(s@)->0 <= -18_446_744_073_709_552_000),
            SecondsRead::Malformed => seconds_ms(s@) is None,
        },
{
    let signed = s.len() > 0 && (s[0] == '+' || s[0] == '-');
    let negative = signed && s[0] == '-';
    let b = if signed {
        slice_subrange(s, 1, s.len())
    } else {
        s
    };
    assert(b@ =~= (if has_sign(s@) { s@.drop_first() } else { s@ }));
    let (w, f) = match find_char(b, '.') {
        Some(d) => (slice_subrange(b, 0, d), slice_subrange(b, d + 1, b.len())),
        None => (b, slice_subrange(b, 0, 0)),
    };
    proof {
        match first_index(b@, '.') {
            Some(d) => {
                assert(w@ =~= b@.take(d));
                assert(f@ =~= b@.skip(d + 1));
            },
            None => {
                assert(w@ =~= b@);
                assert(f@ =~= Seq::<char>::empty());
            },
        }
    }
    if w.len() == 0 && f.len() == 0 {
        return SecondsRead::Malformed;
    }
    if !is_all_digits(f) || !is_all_digits(w) {
        return SecondsRead::Malformed;
    }
    let whole = match read_digits(w, 0, MAX_WHOLE_SECONDS) {
        Some(v) => v,
        None => {
            return SecondsRead::TooLarge;
        },
    };
    let mut frac: i128 = 0;
    if f.len() > 0 {
        frac = frac + (f[0] as u32 - '0' as u32) as i128 * 100;
    }
    if f.len() > 1 {
        frac = frac + (f[1] as u32 - '0' as u32) as i128 * 10;
    }
    if f.len() > 2 {
        frac = frac + (f[2] as u32 - '0' as u32) as i128;
    }
    assert(frac == fraction_ms(f@));
    let v = whole as i128 * MS_PER_SECOND + frac;
    if negative {
        SecondsRead::Value(-v)
    } else {
        SecondsRead::Value(v)
    }
}

/// The sum of hours, minutes and the milliseconds of a seconds component, where it fits an
/// `i64`.
fn sum_checked(hours: u32, minutes: u32, ms: i128) -> (r: Result<i64, LapTimeError>)
    requires
        -18_446_744_073_709_551_999 <= ms <= 18_446_744_073_709_551_999,
    ensures
        ms_view(r) == sum_ms(Some(hours), Some(minutes), Some(ms as int)),
{
    let t = hours as i128 * MS_PER_HOUR + minutes as i128 * MS_PER_MINUTE + ms;
    if -9_223_372_036_854_775_808 <= t && t <= 9_223_372_036_854_775_807 {
        Ok(t as i64)
    } else {
        Err(LapTimeError::OutOfRange)
    }
}

/// Reads a lap-time token as milliseconds.
pub fn parse_lap_time(time: &str) -> (r: Result<i64, LapTimeError>)
    ensures
        ms_view(r) == lap_time_ms(time@),
{
    let v = chars_of(time);
    let s = v.as_slice();
    let n = s.len();
    if n > 0 && (s[n - 1] == ':' || s[n - 1] == '\'') {
        return Err(LapTimeError::TrailingSeparator);
    }
    let (hours, minutes, secs) = match find_char(s, '\'') {
        Some(a) => {
            let head = slice_subrange(s, 0, a);
            let rest = slice_subrange(s, a + 1, n);
            assert(head@ =~= time@.take(a as int));
            assert(rest@ =~= time@.skip(a + 1));
            match find_char(head, ':') {
                Some(c) => {
                    let hs = slice_subrange(head, 0, c);
                    let ms = slice_subrange(head, c + 1, a);
                    assert(hs@ =~= head@.take(c as int));
                    assert(ms@ =~= head@.skip(c + 1));
                    (parse_u32(hs), parse_u32(ms), parse_seconds_ms(rest))
                },
                None => (Some(0u32), parse_u32(head), parse_seconds_ms(rest)),
            }
        },
        None => (Some(0u32), Some(0u32), parse_seconds_ms(s)),
    };
    match (hours, minutes, secs) {
        (Some(h), Some(m), SecondsRead::Value(x)) => sum_checked(h, m, x),
        (Some(_), Some(_), SecondsRead::TooLarge) => Err(LapTimeError::OutOfRange),
        _ => Err(LapTimeError::Malformed),
    }
}

} // verus!
