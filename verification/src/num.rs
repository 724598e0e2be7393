//! Small arithmetic helpers shared across the crate: saturating addition
//! (width sums clip at the `i64` bounds instead of wrapping) and division
//! that truncates toward zero, the way hardware division treats a signed
//! numerator.

use vstd::prelude::*;

verus! {

/// `a + b` clipped to the `i64` range.
pub open spec fn sat_add(a: int, b: int) -> int {
    if a + b > i64::MAX {
        i64::MAX as int
    } else if a + b < i64::MIN {
        i64::MIN as int
    } else {
        a + b
    }
}

/// Saturating addition on `i64`.
pub fn sat_add_i64(a: i64, b: i64) -> (r: i64)
    ensures
        r as int == sat_add(a as int, b as int),
{
    match a.checked_add(b) {
        Some(v) => v,
        None => if a > 0 {
            i64::MAX
        } else {
            i64::MIN
        },
    }
}

/// `-a` clipped to the `i64` range (only `i64::MIN` clips).
pub open spec fn sat_neg(a: int) -> int {
    if -a > i64::MAX {
        i64::MAX as int
    } else if -a < i64::MIN {
        i64::MIN as int
    } else {
        -a
    }
}

/// Saturating negation on `i64`.
pub fn sat_neg_i64(a: i64) -> (r: i64)
    ensures
        r as int == sat_neg(a as int),
{
    if a == i64::MIN {
        i64::MAX
    } else {
        -a
    }
}

/// Division truncating toward zero, for a positive divisor.
pub open spec fn tdiv(a: int, b: int) -> int {
    if a >= 0 {
        a / b
    } else {
        -((-a) / b)
    }
}

/// Truncating division of an `i64` by a small positive divisor.
pub fn tdiv_i64(a: i64, d: u64) -> (r: i64)
    requires
        2 <= d <= 1000,
    ensures
        r as int == tdiv(a as int, d as int),
{
    if a >= 0 {
        ((a as u64) / d) as i64
    } else {
        let mag: u64 = ((-(a + 1)) as u64) + 1;
        assert(mag == -(a as int));
        let q = mag / d;
        assert(q <= mag / 2) by {
            vstd::arithmetic::div_mod::lemma_div_is_ordered_by_denominator(
                mag as int,
                2,
                d as int,
            );
        }
        -(q as i64)
    }
}

} // verus!
