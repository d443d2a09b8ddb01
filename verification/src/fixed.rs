//! Fixed-point quantities and the integer arithmetic that the statistics rest on.
//!
//! Every score, confidence, duration and statistic of this crate is an integer
//! number of millionths. Divisions round towards minus infinity and square roots
//! round down, so each result is a function of its inputs that a contract can
//! state exactly.

use vstd::arithmetic::div_mod::lemma_fundamental_div_mod;
use vstd::arithmetic::div_mod::lemma_fundamental_div_mod_converse;
use vstd::prelude::*;

verus! {

/// A quantity counted in millionths of a unit.
pub type Micro = i64;

/// One whole unit, in millionths.
pub const SCALE: i64 = 1_000_000;

/// `value` limited to the interval from `low` to `high`.
pub open spec fn clamped(value: int, low: int, high: int) -> int {
    if value < low {
        low
    } else if value > high {
        high
    } else {
        value
    }
}

/// `r` is the square root of `n`, rounded down.
pub open spec fn is_floor_sqrt(n: int, r: int) -> bool {
    0 <= r && r * r <= n < (r + 1) * (r + 1)
}

/// The square root of `n`, rounded down.
pub open spec fn floor_sqrt(n: int) -> int {
    choose|r: int| is_floor_sqrt(n, r)
}

/// At most one integer is the rounded-down square root of `n`.
pub proof fn lemma_floor_sqrt_unique(n: int, a: int, b: int)
    requires
        is_floor_sqrt(n, a),
        is_floor_sqrt(n, b),
    ensures
        a == b,
{
    if a < b {
        assert((a + 1) * (a + 1) <= b * b) by (nonlinear_arith)
            requires
                0 <= a + 1 <= b,
        ;
    }
    if b < a {
        assert((b + 1) * (b + 1) <= a * a) by (nonlinear_arith)
            requires
                0 <= b + 1 <= a,
        ;
    }
}

/// The rounded-down square root does not exceed a bound whose square is not
/// below `n`.
pub proof fn lemma_floor_sqrt_bound(n: int, r: int, bound: int)
    requires
        is_floor_sqrt(n, r),
        0 <= bound,
        n <= bound * bound,
    ensures
        r <= bound,
{
    if r > bound {
        assert(r * r >= (bound + 1) * (bound + 1)) by (nonlinear_arith)
            requires
                0 <= bound + 1 <= r,
        ;
        assert((bound + 1) * (bound + 1) > bound * bound) by (nonlinear_arith)
            requires
                0 <= bound,
        ;
    }
}

/// The quotient of `a` by a positive `b`, rounded towards minus infinity.
pub fn floor_div(a: i128, b: i128) -> (q: i128)
    requires
        b > 0,
        a > i128::MIN,
    ensures
        q == a / b,
{
    if a >= 0 {
        a / b
    } else {
        let n: i128 = -a;
        let whole: i128 = n / b;
        let rest: i128 = n % b;
        proof {
            lemma_fundamental_div_mod(n as int, b as int);
        }
        if rest == 0 {
            proof {
                assert(a == (-whole) * b + 0) by (nonlinear_arith)
                    requires
                        n == b * whole + rest,
                        rest == 0,
                        a == -n,
                ;
                lemma_fundamental_div_mod_converse(a as int, b as int, -whole as int, 0);
            }
            -whole
        } else {
            proof {
                assert(a == (-whole - 1) * b + (b - rest)) by (nonlinear_arith)
                    requires
                        n == b * whole + rest,
                        a == -n,
                ;
                lemma_fundamental_div_mod_converse(
                    a as int,
                    b as int,
                    -whole - 1,
                    b - rest,
                );
            }
            -whole - 1
        }
    }
}

/// `value` limited to the interval from `low` to `high`.
pub fn clamp(value: i128, low: i128, high: i128) -> (r: i128)
    requires
        low <= high,
    ensures
        r == clamped(value as int, low as int, high as int),
        low <= r <= high,
{
    if value < low {
        low
    } else if value > high {
        high
    } else {
        value
    }
}

/// The square root of `n`, rounded down.
pub fn isqrt(n: u128) -> (r: u64)
    ensures
        is_floor_sqrt(n as int, r as int),
        r == floor_sqrt(n as int),
{
    let mut low: u128 = 0;
    let mut high: u128 = 0x1_0000_0000_0000_0000;
    assert(high * high > n) by (nonlinear_arith)
        requires
            high == 0x1_0000_0000_0000_0000,
            n <= u128::MAX,
    ;
    while high - low > 1
        invariant
            low < high <= 0x1_0000_0000_0000_0000,
            low * low <= n < high * high,
        decreases high - low,
    {
        let mid: u128 = low + (high - low) / 2;
        assert(mid * mid <= u128::MAX) by (nonlinear_arith)
            requires
                0 <= mid < 0x1_0000_0000_0000_0000,
        ;
        if mid * mid <= n {
            low = mid;
        } else {
            high = mid;
        }
    }
    proof {
        assert(high == low + 1);
        assert(is_floor_sqrt(n as int, low as int));
        lemma_floor_sqrt_unique(n as int, low as int, floor_sqrt(n as int));
    }
    low as u64
}

} // verus!
