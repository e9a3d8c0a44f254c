use vstd::prelude::*;
use vstd::arithmetic::div_mod::{lemma_div_by_multiple, lemma_div_is_ordered};
use vstd::arithmetic::mul::lemma_mul_inequality;

verus! {

/// Number of raw steps in one unit of length, velocity or force.
pub const SCALE: i64 = 1_000_000;

/// Floor of the square root of `n`.
pub open spec fn floor_sqrt(n: nat) -> nat
    decreases n,
{
    if n == 0 {
        0
    } else {
        let r = floor_sqrt((n - 1) as nat);
        if (r + 1) * (r + 1) <= n {
            r + 1
        } else {
            r
        }
    }
}

/// `floor_sqrt(n)` squared is at most `n`, and its successor squared exceeds `n`.
pub proof fn lemma_floor_sqrt(n: nat)
    ensures
        floor_sqrt(n) * floor_sqrt(n) <= n,
        n < (floor_sqrt(n) + 1) * (floor_sqrt(n) + 1),
    decreases n,
{
    if n > 0 {
        lemma_floor_sqrt((n - 1) as nat);
        let r = floor_sqrt((n - 1) as nat);
        if (r + 1) * (r + 1) <= n {
            assert(floor_sqrt(n) == r + 1);
            assert(n < (r + 2) * (r + 2)) by (nonlinear_arith)
                requires
                    n - 1 < (r + 1) * (r + 1),
                    r >= 0,
            ;
            assert((floor_sqrt(n) + 1) * (floor_sqrt(n) + 1) == (r + 2) * (r + 2));
        } else {
            assert(floor_sqrt(n) == r);
            assert(n < (floor_sqrt(n) + 1) * (floor_sqrt(n) + 1));
        }
    } else {
        assert(floor_sqrt(n) == 0);
        let z = floor_sqrt(n);
        assert((z + 1) * (z + 1) == 1) by (nonlinear_arith)
            requires
                z == 0,
        ;
    }
}

/// Any `r` with `r * r <= n < (r + 1) * (r + 1)` is the floor square root of `n`.
pub proof fn lemma_floor_sqrt_unique(n: nat, r: nat)
    requires
        r * r <= n,
        n < (r + 1) * (r + 1),
    ensures
        floor_sqrt(n) == r,
{
    lemma_floor_sqrt(n);
    let s = floor_sqrt(n);
    if s < r {
        assert((s + 1) * (s + 1) <= r * r) by (nonlinear_arith)
            requires
                s + 1 <= r,
                s >= 0,
        ;
    } else if s > r {
        assert((r + 1) * (r + 1) <= s * s) by (nonlinear_arith)
            requires
                r + 1 <= s,
                r >= 0,
        ;
    }
}

/// An integer whose square is at most `n` is at most the floor square root of `n`.
pub proof fn lemma_floor_sqrt_bounds(n: nat, a: nat, m: nat)
    ensures
        a * a <= n ==> a <= floor_sqrt(n),
        n < m * m ==> floor_sqrt(n) < m,
{
    lemma_floor_sqrt(n);
    let s = floor_sqrt(n);
    if a * a <= n && a > s {
        assert((s + 1) * (s + 1) <= a * a) by (nonlinear_arith)
            requires
                s + 1 <= a,
                s >= 0,
        ;
    }
    if n < m * m && s >= m {
        assert(m * m <= s * s) by (nonlinear_arith)
            requires
                m <= s,
                m >= 0,
        ;
    }
}

/// Floor square root of `n`, by bisection.
pub fn isqrt(n: u128) -> (r: u64)
    requires
        n < 0x1000_0000_0000_0000_0000_0000_0000_0000u128,
    ensures
        r as nat == floor_sqrt(n as nat),
{
    let mut lo: u128 = 0;
    let mut hi: u128 = 0x4000_0000_0000_0000u128;
    assert(hi * hi == 0x1000_0000_0000_0000_0000_0000_0000_0000u128);
    while hi - lo > 1
        invariant
            lo < hi <= 0x4000_0000_0000_0000u128,
            lo * lo <= n,
            n < hi * hi,
        decreases hi - lo,
    {
        let mid: u128 = lo + (hi - lo) / 2;
        assert(mid * mid <= hi * hi <= 0x1000_0000_0000_0000_0000_0000_0000_0000u128)
            by (nonlinear_arith)
            requires
                mid <= hi,
                hi <= 0x4000_0000_0000_0000u128,
        ;
        if mid * mid <= n {
            lo = mid;
        } else {
            hi = mid;
        }
    }
    proof {
        lemma_floor_sqrt_unique(n as nat, lo as nat);
    }
    lo as u64
}

/// Integer division rounded toward zero, by a positive divisor.
pub open spec fn div_toward_zero(a: int, b: int) -> int {
    if a >= 0 {
        a / b
    } else {
        -((-a) / b)
    }
}

/// Scaling `f` by `a / d` with `a <= d` gives at most `f`.
pub proof fn lemma_scaled_down(f: int, a: int, d: int)
    requires
        f >= 0,
        0 <= a <= d,
        d > 0,
    ensures
        0 <= (f * a) / d <= f,
{
    lemma_mul_inequality(a, d, f);
    assert(f * a == a * f && f * d == d * f) by (nonlinear_arith);
    assert(0 <= f * a) by (nonlinear_arith)
        requires
            f >= 0,
            a >= 0,
    ;
    lemma_div_is_ordered(0, f * a, d);
    lemma_div_is_ordered(f * a, f * d, d);
    lemma_div_by_multiple(f, d);
}

} // verus!
