//! Decimal numbers read from bytes.

use vstd::prelude::*;

verus! {

/// The byte of the plus sign.
pub const PLUS: u8 = 43;

/// The byte of the minus sign.
pub const MINUS: u8 = 45;

/// The largest magnitude of a negative `i64`.
pub const I64_MIN_MAGNITUDE: u64 = 9223372036854775808;

/// Whether `b` writes a decimal digit.
pub open spec fn is_digit(b: u8) -> bool {
    48 <= b <= 57
}

/// The number that a text of digits writes; 0 for the empty text.
pub open spec fn digits_value(s: Seq<u8>) -> nat
    decreases s.len(),
{
    if s.len() == 0 {
        0
    } else {
        digits_value(s.drop_last()) * 10 + (s.last() - 48) as nat
    }
}

/// Whether `s` is made of digits alone.
pub open spec fn all_digits(s: Seq<u8>) -> bool {
    forall|i: int| 0 <= i < s.len() ==> is_digit(s[i])
}

/// The number that `s` writes where it is made of one or more digits and of nothing
/// else.
pub open spec fn magnitude_of(s: Seq<u8>) -> Option<nat> {
    if s.len() > 0 && all_digits(s) {
        Some(digits_value(s))
    } else {
        None
    }
}

/// The number up to `limit` that `s` writes in digits, if it writes one.
pub open spec fn magnitude_up_to(s: Seq<u8>, limit: u64) -> Option<u64> {
    match magnitude_of(s) {
        Some(n) if n <= limit => Some(n as u64),
        _ => None,
    }
}

/// `s` without the sign in front of it: a plus sign, or a minus sign too where
/// `minus_too` says so.
pub open spec fn unsigned_part(s: Seq<u8>, minus_too: bool) -> Seq<u8> {
    if s.len() > 0 && (s[0] == PLUS || (minus_too && s[0] == MINUS)) {
        s.drop_first()
    } else {
        s
    }
}

/// The `u64` that `s` writes: one or more digits, a plus sign before them allowed.
pub open spec fn unsigned_of(s: Seq<u8>) -> Option<u64> {
    magnitude_up_to(unsigned_part(s, false), u64::MAX)
}

/// The `i64` that `s` writes: one or more digits, a plus or a minus sign before them
/// allowed.
pub open spec fn signed_of(s: Seq<u8>) -> Option<i64> {
    if s.len() > 0 && s[0] == MINUS {
        match magnitude_up_to(unsigned_part(s, true), I64_MIN_MAGNITUDE) {
            Some(n) => Some((-n) as i64),
            None => None,
        }
    } else {
        match magnitude_up_to(unsigned_part(s, true), 0x7fff_ffff_ffff_ffff) {
            Some(n) => Some(n as i64),
            None => None,
        }
    }
}

/// The number that the first `k` digits write is no more than what all of them write.
pub proof fn lemma_digits_value_grows(s: Seq<u8>, k: int)
    requires
        0 <= k <= s.len(),
    ensures
        digits_value(s.take(k)) <= digits_value(s),
    decreases s.len() - k,
{
    if k < s.len() {
        lemma_digits_value_grows(s, k + 1);
        assert(s.take(k + 1).drop_last() =~= s.take(k));
        let v = digits_value(s.take(k));
        assert(v <= v * 10 + (s.take(k + 1).last() - 48) as nat);
    } else {
        assert(s.take(k) =~= s);
    }
}

/// The number up to `limit` that the bytes from `start` to `stop` write in digits.
pub fn parse_magnitude(text: &[u8], start: usize, stop: usize, limit: u64) -> (r: Option<u64>)
    requires
        start <= stop <= text@.len(),
    ensures
        r == magnitude_up_to(text@.subrange(start as int, stop as int), limit),
{
    let ghost digits = text@.subrange(start as int, stop as int);
    if stop == start {
        return None;
    }
    let mut value: u64 = 0;
    let mut i: usize = start;
    assert(digits.take(0) =~= Seq::<u8>::empty());
    while i < stop
        invariant
            start <= i <= stop,
            start < stop,
            stop <= text@.len(),
            digits == text@.subrange(start as int, stop as int),
            all_digits(digits.take(i - start)),
            value == digits_value(digits.take(i - start)),
            value <= limit,
        decreases stop - i,
    {
        let b = text[i];
        let ghost next = digits.take(i - start + 1);
        proof {
            assert(next.drop_last() =~= digits.take(i - start));
            assert(next.last() == b);
        }
        if b < 48 || b > 57 {
            proof {
                assert(digits[i - start] == b);
                assert(!is_digit(digits[i - start]));
                assert(!all_digits(digits));
            }
            return None;
        }
        let d = (b - 48) as u64;
        if d > limit || value > (limit - d) / 10 {
            proof {
                assert(digits_value(next) == value * 10 + d);
                assert(value * 10 + d > limit);
                lemma_digits_value_grows(digits, i - start + 1);
                assert(digits_value(digits) > limit);
            }
            return None;
        }
        value = value * 10 + d;
        proof {
            assert forall|j: int| 0 <= j < next.len() implies is_digit(next[j]) by {
                if j < next.len() - 1 {
                    assert(digits.take(i - start)[j] == next[j]);
                }
            }
        }
        i += 1;
    }
    assert(digits.take(stop - start) =~= digits);
    Some(value)
}

/// The `u64` that the bytes from `start` to `stop` write.
pub fn parse_unsigned_in(text: &[u8], start: usize, stop: usize) -> (r: Option<u64>)
    requires
        start <= stop <= text@.len(),
    ensures
        r == unsigned_of(text@.subrange(start as int, stop as int)),
{
    let ghost s = text@.subrange(start as int, stop as int);
    if start < stop && text[start] == PLUS {
        assert(s.drop_first() =~= text@.subrange(start + 1, stop as int));
        parse_magnitude(text, start + 1, stop, u64::MAX)
    } else {
        parse_magnitude(text, start, stop, u64::MAX)
    }
}

/// The `u64` that `text` writes.
pub fn parse_unsigned(text: &[u8]) -> (r: Option<u64>)
    ensures
        r == unsigned_of(text@),
{
    assert(text@.subrange(0, text@.len() as int) =~= text@);
    parse_unsigned_in(text, 0, text.len())
}

/// The `i64` that `text` writes.
pub fn parse_signed(text: &[u8]) -> (r: Option<i64>)
    ensures
        r == signed_of(text@),
{
    let n = text.len();
    assert(text@.subrange(0, n as int) =~= text@);
    if n > 0 && text[0] == MINUS {
        assert(text@.drop_first() =~= text@.subrange(1, n as int));
        match parse_magnitude(text, 1, n, I64_MIN_MAGNITUDE) {
            Some(m) => {
                if m == I64_MIN_MAGNITUDE {
                    Some(i64::MIN)
                } else {
                    Some(-(m as i64))
                }
            },
            None => None,
        }
    } else if n > 0 && text[0] == PLUS {
        assert(text@.drop_first() =~= text@.subrange(1, n as int));
        match parse_magnitude(text, 1, n, 0x7fff_ffff_ffff_ffff) {
            Some(m) => Some(m as i64),
            None => None,
        }
    } else {
        match parse_magnitude(text, 0, n, 0x7fff_ffff_ffff_ffff) {
            Some(m) => Some(m as i64),
            None => None,
        }
    }
}

} // verus!
