//! Digit strings, unsigned integers and decimal numbers read from text.

use vstd::prelude::*;
use vstd::slice::slice_subrange;
use vstd::string::StrSliceExecFns;

verus! {

pub open spec fn is_digit(c: char) -> bool {
    '0' <= c && c <= '9'
}

pub open spec fn digit_value(c: char) -> nat {
    (c as int - '0' as int) as nat
}

pub open spec fn all_digits(s: Seq<char>) -> bool {
    forall|i: int| 0 <= i < s.len() ==> is_digit(#[trigger] s[i])
}

/// The number written by the digits `s` after the digits already read into `acc`.
pub open spec fn fold_digits(acc: nat, s: Seq<char>) -> nat
    decreases s.len(),
{
    if s.len() == 0 {
        acc
    } else {
        fold_digits(acc * 10 + digit_value(s[0]), s.drop_first())
    }
}

pub open spec fn digits_value(s: Seq<char>) -> nat {
    fold_digits(0, s)
}

/// A leading `+` is allowed before an unsigned number, as std's integer parsing allows it.
pub open spec fn unsigned_body(s: Seq<char>) -> Seq<char> {
    if s.len() > 0 && s[0] == '+' {
        s.drop_first()
    } else {
        s
    }
}

/// What `s` denotes as a `u32`: one or more decimal digits, with an optional leading `+`,
/// whose value fits.
pub open spec fn u32_of(s: Seq<char>) -> Option<u32> {
    let b = unsigned_body(s);
    if b.len() > 0 && all_digits(b) && digits_value(b) <= u32::MAX {
        Some(digits_value(b) as u32)
    } else {
        None
    }
}

/// The position of the first `c` in `s`.
pub open spec fn first_index(s: Seq<char>, c: char) -> Option<int> {
    if exists|i: int| is_first_index(s, c, i) {
        Some(choose|i: int| is_first_index(s, c, i))
    } else {
        None
    }
}

pub open spec fn is_first_index(s: Seq<char>, c: char, i: int) -> bool {
    0 <= i < s.len() && s[i] == c && forall|j: int| 0 <= j < i ==> s[j] != c
}

pub proof fn lemma_fold_digits_ge(acc: nat, s: Seq<char>)
    ensures
        fold_digits(acc, s) >= acc,
    decreases s.len(),
{
    if s.len() > 0 {
        lemma_fold_digits_ge(acc * 10 + digit_value(s[0]), s.drop_first());
    }
}

pub proof fn lemma_first_index_is(s: Seq<char>, c: char, i: int)
    requires
        is_first_index(s, c, i),
    ensures
        first_index(s, c) == Some(i),
{
    let k = choose|k: int| is_first_index(s, c, k);
    assert(is_first_index(s, c, k));
    if k < i {
        assert(s[k] != c);
    } else if k > i {
        assert(s[i] != c);
    }
}

pub proof fn lemma_first_index_none(s: Seq<char>, c: char)
    requires
        forall|j: int| 0 <= j < s.len() ==> s[j] != c,
    ensures
        first_index(s, c) is None,
{
    if exists|i: int| is_first_index(s, c, i) {
        let k = choose|k: int| is_first_index(s, c, k);
        assert(s[k] == c);
    }
}

/// Position of the first `c` in `s`.
pub fn find_char(s: &[char], c: char) -> (r: Option<usize>)
    ensures
        match r {
            Some(i) => first_index(s@, c) == Some(i as int),
            None => first_index(s@, c) is None,
        },
{
    let mut i: usize = 0;
    while i < s.len()
        invariant
            0 <= i <= s@.len(),
            forall|j: int| 0 <= j < i ==> s@[j] != c,
        decreases s@.len() - i,
    {
        if s[i] == c {
            proof {
                lemma_first_index_is(s@, c, i as int);
            }
            return Some(i);
        }
        i = i + 1;
    }
    proof {
        lemma_first_index_none(s@, c);
    }
    None
}

/// Reads the digits `s` after the value `init` already read, and fails where a character
/// is no digit or the value would pass `limit`.
pub fn read_digits(s: &[char], init: u64, limit: u64) -> (r: Option<u64>)
    requires
        init <= limit,
        9 <= limit,
    ensures
        match r {
            Some(v) => all_digits(s@) && v == fold_digits(init as nat, s@) && v <= limit,
            None => !all_digits(s@) || fold_digits(init as nat, s@) > limit,
        },
{
    let mut acc: u64 = init;
    let mut i: usize = 0;
    assert(s@.subrange(0, s@.len() as int) =~= s@);
    while i < s.len()
        invariant
            0 <= i <= s@.len(),
            acc <= limit,
            9 <= limit,
            all_digits(s@.subrange(0, i as int)),
            fold_digits(init as nat, s@) == fold_digits(acc as nat, s@.subrange(i as int, s@.len() as int)),
        decreases s@.len() - i,
    {
        let c = s[i];
        let rest = Ghost(s@.subrange(i as int, s@.len() as int));
        assert(rest@.drop_first() =~= s@.subrange(i + 1, s@.len() as int));
        if !('0' <= c && c <= '9') {
            assert(!is_digit(s@[i as int]));
            return None;
        }
        let d: u64 = (c as u32 - '0' as u32) as u64;
        assert(d as nat == digit_value(c));
        if acc > (limit - d) / 10 {
            assert(acc * 10 + d > limit) by (nonlinear_arith)
                requires
                    acc > (limit - d) / 10,
                    d <= 9,
                    9 <= limit,
            ;
            proof {
                lemma_fold_digits_ge((acc * 10 + digit_value(c)) as nat, rest@.drop_first());
            }
            return None;
        }
        assert(acc * 10 + d <= limit) by (nonlinear_arith)
            requires
                acc <= (limit - d) / 10,
                d <= 9,
                9 <= limit,
        ;
        acc = acc * 10 + d;
        assert(all_digits(s@.subrange(0, i + 1))) by {
            assert forall|j: int| 0 <= j < i + 1 implies is_digit(#[trigger] s@.subrange(0, i + 1)[j]) by {
                if j < i {
                    assert(s@.subrange(0, i + 1)[j] == s@.subrange(0, i as int)[j]);
                }
            }
        }
        i = i + 1;
    }
    assert(s@.subrange(0, s@.len() as int) =~= s@);
    Some(acc)
}

/// Whether every character of `s` is a decimal digit.
pub fn is_all_digits(s: &[char]) -> (r: bool)
    ensures
        r == all_digits(s@),
{
    let mut i: usize = 0;
    while i < s.len()
        invariant
            0 <= i <= s@.len(),
            forall|j: int| 0 <= j < i ==> is_digit(#[trigger] s@[j]),
        decreases s@.len() - i,
    {
        if !('0' <= s[i] && s[i] <= '9') {
            assert(!is_digit(s@[i as int]));
            return false;
        }
        i = i + 1;
    }
    true
}

/// The characters of `s`, one by one.
pub fn chars_of(s: &str) -> (r: Vec<char>)
    ensures
        r@ == s@,
{
    let n = s.unicode_len();
    let mut r: Vec<char> = Vec::new();
    let mut i: usize = 0;
    while i < n
        invariant
            n == s@.len(),
            0 <= i <= n,
            r@ == s@.subrange(0, i as int),
        decreases n - i,
    {
        r.push(s.get_char(i));
        assert(r@ =~= s@.subrange(0, i + 1));
        i = i + 1;
    }
    assert(r@ =~= s@);
    r
}

/// A decimal number: `mantissa / 10^scale`, negated where `negative` holds.
#[derive(Clone, Copy, Debug, PartialEq, Eq, Structural)]
pub struct Decimal {
    pub negative: bool,
    pub mantissa: u64,
    pub scale: usize,
}

/// What `s` denotes as a decimal: an optional sign, a whole part and an optional `.` with a
/// fraction, one of the two digit runs not empty, all its digits together fitting a `u64`.
pub open spec fn decimal_of(s: Seq<char>) -> Option<Decimal> {
    let signed = s.len() > 0 && (s[0] == '+' || s[0] == '-');
    let b = if signed { s.drop_first() } else { s };
    let (w, f) = match first_index(b, '.') {
        Some(d) => (b.take(d), b.skip(d + 1)),
        None => (b, Seq::empty()),
    };
    let m = fold_digits(digits_value(w), f);
    if (w.len() > 0 || f.len() > 0) && all_digits(w) && all_digits(f) && m <= u64::MAX {
        Some(Decimal { negative: signed && s[0] == '-', mantissa: m as u64, scale: f.len() as usize })
    } else {
        None
    }
}

/// Reads `s` as a decimal number.
pub fn parse_decimal(s: &[char]) -> (r: Option<Decimal>)
    ensures
        r == decimal_of(s@),
{
    let signed = s.len() > 0 && (s[0] == '+' || s[0] == '-');
    let b = if signed {
        slice_subrange(s, 1, s.len())
    } else {
        s
    };
    let ghost bs = if signed { s@.drop_first() } else { s@ };
    assert(b@ =~= bs);
    let (w, f) = match find_char(b, '.') {
        Some(d) => (slice_subrange(b, 0, d), slice_subrange(b, d + 1, b.len())),
        None => (b, slice_subrange(b, 0, 0)),
    };
    proof {
        match first_index(b@, '.') {
            Some(d) => {
                assert(w@ =~= b@.take(d));
                assert(f@ =~= b@.skip(d + 1));
            },
            None => {
                assert(w@ =~= b@);
                assert(f@ =~= Seq::<char>::empty());
            },
        }
    }
    if w.len() == 0 && f.len() == 0 {
        return None;
    }
    let whole = match read_digits(w, 0, 0xffff_ffff_ffff_ffff) {
        Some(v) => v,
        None => {
            proof {
                if all_digits(w@) {
                    lemma_fold_digits_ge(digits_value(w@), f@);
                }
            }
            return None;
        },
    };
    match read_digits(f, whole, 0xffff_ffff_ffff_ffff) {
        Some(m) => Some(Decimal { negative: signed && s[0] == '-', mantissa: m, scale: f.len() }),
        None => None,
    }
}

/// Whether `s` and `w` hold the same characters.
pub fn same_chars(s: &[char], w: &[char]) -> (r: bool)
    ensures
        r == (s@ == w@),
{
    if s.len() != w.len() {
        return false;
    }
    let mut i: usize = 0;
    while i < s.len()
        invariant
            s@.len() == w@.len(),
            0 <= i <= s@.len(),
            forall|j: int| 0 <= j < i ==> s@[j] == w@[j],
        decreases s@.len() - i,
    {
        if s[i] != w[i] {
            return false;
        }
        i = i + 1;
    }
    assert(s@ =~= w@);
    true
}

/// Reads `s` as a `u32`.
pub fn parse_u32(s: &[char]) -> (r: Option<u32>)
    ensures
        r == u32_of(s@),
{
    let body = if s.len() > 0 && s[0] == '+' {
        slice_subrange(s, 1, s.len())
    } else {
        s
    };
    assert(body@ =~= unsigned_body(s@));
    if body.len() == 0 {
        return None;
    }
    match read_digits(body, 0, 0xffff_ffff) {
        Some(v) => Some(v as u32),
        None => None,
    }
}

} // verus!
