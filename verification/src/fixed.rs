//! Fixed-point arithmetic helpers: truncating division and remainder as the
//! machine performs them, floor division for cell lookup, and an exact
//! integer square root.

use vstd::prelude::*;

verus! {

use vstd::arithmetic::div_mod::{lemma_div_is_ordered, lemma_div_multiples_vanish};
use vstd::arithmetic::mul::lemma_mul_is_commutative;

use crate::UNIT;

/// Truncating (round-toward-zero) division for a positive divisor, the
/// meaning of the machine's `/` on signed integers.
pub open spec fn tdiv(a: int, b: int) -> int {
    if a >= 0 {
        a / b
    } else {
        -((-a) / b)
    }
}

/// Truncating remainder for a positive divisor, the meaning of the
/// machine's `%` on signed integers.
pub open spec fn tmod(a: int, b: int) -> int {
    if a >= 0 {
        a % b
    } else {
        -((-a) % b)
    }
}

/// Floor division (round toward negative infinity) by a positive divisor.
/// In spec arithmetic `/` is Euclidean division, which for a positive
/// divisor is exactly floor division.
pub open spec fn floor_div(a: int, b: int) -> int {
    a / b
}

/// The flooring square root: `sqrt_floor(n)` is the unique `r` with
/// `r * r <= n < (r + 1) * (r + 1)`.
pub open spec fn is_sqrt_floor(n: nat, r: nat) -> bool {
    r * r <= n < (r + 1) * (r + 1)
}

pub open spec fn sqrt_floor(n: nat) -> nat {
    choose|r: nat| is_sqrt_floor(n, r)
}

/// Any two flooring square roots of the same number coincide, so a witness
/// pins down `sqrt_floor` exactly.
pub proof fn lemma_sqrt_floor_unique(n: nat, r: nat)
    requires
        is_sqrt_floor(n, r),
    ensures
        r == sqrt_floor(n),
{
    assert(is_sqrt_floor(n, sqrt_floor(n))) by {
        assert(exists|x: nat| is_sqrt_floor(n, x));
    }
    let s = sqrt_floor(n);
    assert(r == s) by (nonlinear_arith)
        requires
            r * r <= n < (r + 1) * (r + 1),
            s * s <= n < (s + 1) * (s + 1),
    ;
}

/// Bounds a product from bounds on its factors.
pub proof fn lemma_mul_in_bounds(x: int, y: int, mx: int, my: int)
    by (nonlinear_arith)
    requires
        0 <= mx,
        0 <= my,
        -mx <= x <= mx,
        -my <= y <= my,
    ensures
        -(mx * my) <= x * y <= mx * my,
{
}

/// If `num` lies between `lo * d` and `hi * d` for a positive divisor `d`,
/// the truncating quotient lies between `lo` and `hi`.
pub proof fn lemma_tdiv_between(num: int, d: int, lo: int, hi: int)
    requires
        0 < d,
        lo * d <= num,
        num <= hi * d,
    ensures
        lo <= tdiv(num, d) <= hi,
{
    if num >= 0 {
        // tdiv(num, d) == num / d, and Euclidean division by a positive
        // divisor is monotone with (d * x) / d == x.
        lemma_div_is_ordered(lo * d, num, d);
        lemma_div_is_ordered(num, hi * d, d);
        lemma_div_multiples_vanish(lo, d);
        lemma_div_multiples_vanish(hi, d);
        lemma_mul_is_commutative(lo, d);
        lemma_mul_is_commutative(hi, d);
    } else {
        let m = -num;
        // num <= hi * d, so -hi * d <= m; lo * d <= num, so m <= -lo * d.
        assert((-hi) * d <= m && m <= (-lo) * d) by (nonlinear_arith)
            requires
                lo * d <= num,
                num <= hi * d,
                m == -num,
        ;
        lemma_div_is_ordered((-hi) * d, m, d);
        lemma_div_is_ordered(m, (-lo) * d, d);
        lemma_div_multiples_vanish(-hi, d);
        lemma_div_multiples_vanish(-lo, d);
        lemma_mul_is_commutative(-hi, d);
        lemma_mul_is_commutative(-lo, d);
        assert(-hi <= m / d <= -lo);
    }
}

/// Floor division of a world coordinate by [`UNIT`], mapping a fixed-point
/// coordinate to its cell index. Rounds toward negative infinity, so cells
/// at negative coordinates are not folded onto cell zero.
pub fn cell_index(w: i64) -> (r: i64)
    requires
        -4_000_000 <= w <= 4_000_000,
    ensures
        r == floor_div(w as int, UNIT as int),
{
    if w >= 0 {
        w / UNIT
    } else {
        let q: i64 = (-w) / UNIT;
        let rem: i64 = (-w) % UNIT;
        if rem == 0 {
            proof {
                vstd::arithmetic::div_mod::lemma_fundamental_div_mod(-w as int, UNIT as int);
                assert(w as int == UNIT as int * (-q as int));
                lemma_div_multiples_vanish(-q as int, UNIT as int);
            }
            -q
        } else {
            proof {
                vstd::arithmetic::div_mod::lemma_fundamental_div_mod(-w as int, UNIT as int);
                vstd::arithmetic::div_mod::lemma_fundamental_div_mod_converse(
                    w as int,
                    UNIT as int,
                    -q - 1,
                    UNIT - rem as int,
                );
            }
            -q - 1
        }
    }
}

/// The flooring square root of `n`, found by binary search.
pub fn isqrt(n: u64) -> (r: u64)
    requires
        n <= 4_000_000_000_000_000_000,
    ensures
        is_sqrt_floor(n as nat, r as nat),
        r == sqrt_floor(n as nat),
{
    let mut lo: u64 = 0;
    let mut hi: u64 = 2_000_000_001;
    proof {
        assert((2_000_000_001 as nat) * (2_000_000_001 as nat) > 4_000_000_000_000_000_000)
            by (nonlinear_arith);
    }
    while lo + 1 < hi
        invariant
            lo < hi <= 2_000_000_001,
            (lo as nat) * (lo as nat) <= n as nat,
            (n as nat) < (hi as nat) * (hi as nat),
        decreases hi - lo,
    {
        let mid: u64 = lo + (hi - lo) / 2;
        proof {
            lemma_mul_in_bounds(mid as int, mid as int, 2_000_000_000, 2_000_000_000);
        }
        if mid * mid <= n {
            lo = mid;
        } else {
            hi = mid;
        }
    }
    proof {
        lemma_sqrt_floor_unique(n as nat, lo as nat);
    }
    lo
}

} // verus!
