//! Strictly-below-tolerance test on decimal numerals.
//!
//! The drawing tolerance is one millionth of a drawing unit.  Distances are
//! obtained from the geometry kernel as plain decimal numerals (digits with
//! at most one decimal point, as `Display` prints a finite non-negative
//! `f64`), and the comparison against the tolerance is done here, on the
//! numeral itself: a numeral is strictly below one millionth exactly when
//! its integer digits are all zero and its first six fractional digits are
//! all zero.  Any byte string that is not such a numeral (for instance the
//! rendering of a NaN distance) counts as not below the tolerance, so the
//! corresponding points are never merged.

use vstd::prelude::*;

verus! {

/// Decimal digits of the fractional part that the tolerance reaches: the
/// tolerance is 10^-MICRO_DIGITS drawing units.
pub const MICRO_DIGITS: usize = 6;

pub open spec fn is_digit(c: u8) -> bool {
    48 <= c <= 57
}

pub open spec fn all_digits(s: Seq<u8>) -> bool {
    forall|i: int| 0 <= i < s.len() ==> is_digit(#[trigger] s[i])
}

pub open spec fn all_zeros(s: Seq<u8>) -> bool {
    forall|i: int| 0 <= i < s.len() ==> #[trigger] s[i] == 48
}

/// The first `MICRO_DIGITS` fractional digits (or all of them, if there are
/// fewer) are zero: the fraction is strictly below one millionth.
pub open spec fn frac_below_micro(f: Seq<u8>) -> bool {
    forall|i: int| 0 <= i < f.len() && i < MICRO_DIGITS ==> #[trigger] f[i] == 48
}

/// `t` is a plain decimal numeral whose value is strictly below one
/// millionth.  Byte 46 is the decimal point.
pub open spec fn lt_micro(t: Seq<u8>) -> bool {
    ||| (t.len() > 0 && all_digits(t) && all_zeros(t))
    ||| (exists|d: int|
        0 < d && d + 1 < t.len() && #[trigger] t[d] == 46 && all_digits(t.subrange(0, d))
            && all_digits(t.subrange(d + 1, t.len() as int)) && all_zeros(t.subrange(0, d))
            && frac_below_micro(t.subrange(d + 1, t.len() as int)))
}

/// Decides `lt_micro` on a byte string.
pub fn lt_micro_exec(t: &[u8]) -> (r: bool)
    ensures
        r == lt_micro(t@),
{
    let n: usize = t.len();
    // find the first byte that is not a zero digit
    let mut i: usize = 0;
    while i < n && t[i] == 48
        invariant
            0 <= i <= n,
            n == t@.len(),
            forall|k: int| 0 <= k < i ==> t@[k] == 48,
        decreases n - i,
    {
        i = i + 1;
    }
    if i == n {
        // all bytes are zero digits: a numeral exactly when non-empty
        assert(n > 0 ==> all_digits(t@) && all_zeros(t@));
        return n > 0;
    }
    // t[i] is the first byte that is not a zero digit; for the numeral to be
    // below the tolerance it must be the decimal point
    if t[i] != 46 {
        assert(!lt_micro(t@)) by {
            assert(!(all_digits(t@) && all_zeros(t@)));
            assert forall|d: int|
                !(0 < d && d + 1 < t@.len() && t@[d] == 46 && all_digits(t@.subrange(0, d))
                    && all_digits(t@.subrange(d + 1, t@.len() as int)) && all_zeros(
                    t@.subrange(0, d),
                ) && frac_below_micro(t@.subrange(d + 1, t@.len() as int))) by {
                if 0 < d && d + 1 < t@.len() && t@[d] == 46 {
                    if d < i {
                        assert(t@[d] == 48);
                    } else {
                        // t[i] would sit in one of the digit ranges
                        if d == i {
                        } else {
                            assert(t@.subrange(0, d)[i as int] == t@[i as int]);
                        }
                    }
                }
            }
        }
        return false;
    }
    if i == 0 {
        // a numeral needs at least one integer digit
        assert(!lt_micro(t@)) by {
            assert(!is_digit(t@[0]));
            assert forall|d: int|
                0 < d && d + 1 < t@.len() && t@[d] == 46 implies !all_digits(
                t@.subrange(0, d),
            ) by {
                assert(t@.subrange(0, d)[0] == t@[0]);
            }
        }
        return false;
    }
    if i + 1 == n {
        // a numeral needs at least one fractional digit after the point
        assert(!lt_micro(t@)) by {
            assert(!is_digit(t@[i as int]));
            assert forall|d: int|
                0 < d && d + 1 < t@.len() && t@[d] == 46 implies !(all_digits(
                t@.subrange(0, d),
            ) && all_digits(t@.subrange(d + 1, t@.len() as int))) by {
                if d < i {
                    assert(t@.subrange(d + 1, t@.len() as int)[i - d - 1] == t@[i as int]);
                }
            }
        }
        return false;
    }
    // the integer part t[0..i] is all zero digits and t[i] is the point;
    // check the fraction: digits throughout, zeros up to the tolerance digit
    let mut j: usize = i + 1;
    let mut zeros_ok: bool = true;
    while j < n
        invariant
            i + 1 <= j <= n,
            n == t@.len(),
            0 < i && i + 1 < n,
            t@[i as int] == 46,
            forall|k: int| 0 <= k < i ==> t@[k] == 48,
            forall|k: int| i + 1 <= k < j ==> is_digit(#[trigger] t@[k]),
            zeros_ok == (forall|k: int|
                i + 1 <= k < j && k - i - 1 < MICRO_DIGITS ==> #[trigger] t@[k] == 48),
        decreases n - j,
    {
        let c = t[j];
        if c < 48 || c > 57 {
            // not a numeral at all
            assert(!lt_micro(t@)) by {
                assert(!is_digit(t@[j as int]));
                assert(!all_zeros(t@));
                assert forall|d: int|
                    0 < d && d + 1 < t@.len() && t@[d] == 46 implies !(all_digits(
                    t@.subrange(0, d),
                ) && all_digits(t@.subrange(d + 1, t@.len() as int))) by {
                    if d < j {
                        assert(t@.subrange(d + 1, t@.len() as int)[j - d - 1] == t@[j as int]);
                    } else {
                        // the true dot at i sits inside this candidate's
                        // integer digits
                        assert(t@.subrange(0, d)[i as int] == t@[i as int]);
                    }
                }
            }
            return false;
        }
        if j - i - 1 < MICRO_DIGITS && c != 48 {
            zeros_ok = false;
        }
        j = j + 1;
    }
    if zeros_ok {
        assert(lt_micro(t@)) by {
            let d = i as int;
            assert(all_digits(t@.subrange(0, d)));
            assert(all_digits(t@.subrange(d + 1, t@.len() as int)));
            assert(all_zeros(t@.subrange(0, d)));
            assert(frac_below_micro(t@.subrange(d + 1, t@.len() as int)));
        }
    } else {
        assert(!lt_micro(t@)) by {
            let w = choose|k: int|
                i + 1 <= k < n && k - i - 1 < MICRO_DIGITS && #[trigger] t@[k] != 48;
            assert(!all_zeros(t@)) by {
                assert(t@[i as int] == 46);
            }
            assert forall|d: int|
                0 < d && d + 1 < t@.len() && t@[d] == 46 && all_digits(t@.subrange(0, d))
                    && all_digits(t@.subrange(d + 1, t@.len() as int)) implies !(all_zeros(
                t@.subrange(0, d),
            ) && frac_below_micro(t@.subrange(d + 1, t@.len() as int))) by {
                if d == i {
                    assert(t@.subrange(d + 1, t@.len() as int)[w - d - 1] == t@[w]);
                } else if d < i {
                    assert(t@.subrange(0, d)[0] == t@[0]);
                    assert(t@.subrange(d + 1, t@.len() as int)[i - d - 1] == t@[i as int]);
                } else {
                    assert(t@.subrange(0, d)[i as int] == t@[i as int]);
                }
            }
        }
    }
    zeros_ok
}

} // verus!
