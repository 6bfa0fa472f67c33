//! Fixed-point scalar arithmetic: the scale constant, world bounds,
//! truncating division, saturation, and an integer square root.

use vstd::prelude::*;

verus! {

/// One whole unit of any fixed-point quantity (normals, restitution, dt).
pub const FIXED_ONE: i64 = 1_000_000;

/// Largest magnitude admitted for a world coordinate, velocity or force
/// component, shape dimension, or mass. Keeps every intermediate product of
/// the collision pipeline inside `i128`.
pub const WORLD_MAX: i64 = 1_000_000_000;

/// Absolute value.
pub open spec fn abs_i(x: int) -> int {
    if x < 0 {
        -x
    } else {
        x
    }
}

/// The smaller of two integers.
pub open spec fn min_i(x: int, y: int) -> int {
    if x <= y {
        x
    } else {
        y
    }
}

/// The larger of two integers.
pub open spec fn max_i(x: int, y: int) -> int {
    if x >= y {
        x
    } else {
        y
    }
}

/// Saturation of `x` into the interval `[-bound, bound]`.
pub open spec fn clamp_i(x: int, bound: int) -> int {
    if x < -bound {
        -bound
    } else if x > bound {
        bound
    } else {
        x
    }
}

/// Division that truncates toward zero, the behaviour of hardware signed
/// division. Coincides with Euclidean division on a non-negative dividend.
pub open spec fn div_trunc(a: int, b: int) -> int
    recommends
        b > 0,
{
    if a >= 0 {
        a / b
    } else {
        -((-a) / b)
    }
}

/// The integer square root: the largest `r` with `r * r <= n`.
pub open spec fn sqrt_floor(n: nat) -> nat
    decreases n,
{
    if n == 0 {
        0
    } else {
        let r = sqrt_floor((n - 1) as nat);
        if (r + 1) * (r + 1) <= n {
            r + 1
        } else {
            r
        }
    }
}

/// `sqrt_floor` is what its name says: it squares to at most `n`, and the
/// next integer squares to more.
pub proof fn lemma_sqrt_floor_bounds(n: nat)
    ensures
        sqrt_floor(n) * sqrt_floor(n) <= n,
        n < (sqrt_floor(n) + 1) * (sqrt_floor(n) + 1),
    decreases n,
{
    if n > 0 {
        lemma_sqrt_floor_bounds((n - 1) as nat);
        let r = sqrt_floor((n - 1) as nat);
        assert(sqrt_floor(n) == if (r + 1) * (r + 1) <= n {
            r + 1
        } else {
            r
        });
        if (r + 1) * (r + 1) <= n {
            assert(n < (r + 2) * (r + 2)) by (nonlinear_arith)
                requires
                    n <= (r + 1) * (r + 1),
            ;
        }
    } else {
        assert(sqrt_floor(n) == 0);
        assert(sqrt_floor(n) * sqrt_floor(n) <= n);
        assert(n < (sqrt_floor(n) + 1) * (sqrt_floor(n) + 1)) by (nonlinear_arith)
            requires
                n == 0,
                sqrt_floor(n) == 0,
        ;
    }
}

/// Any `r` in the square-root bracket is the integer square root.
pub proof fn lemma_sqrt_floor_unique(n: nat, r: nat)
    requires
        r * r <= n,
        n < (r + 1) * (r + 1),
    ensures
        r == sqrt_floor(n),
{
    lemma_sqrt_floor_bounds(n);
    let s = sqrt_floor(n);
    if r < s {
        assert((r + 1) * (r + 1) <= s * s) by (nonlinear_arith)
            requires
                r + 1 <= s,
        ;
    }
    if s < r {
        assert((s + 1) * (s + 1) <= r * r) by (nonlinear_arith)
            requires
                s + 1 <= r,
        ;
    }
}

/// Integer square root of a `u64`, by bisection on the answer.
pub fn isqrt_u64(n: u64) -> (r: u64)
    ensures
        r == sqrt_floor(n as nat),
        r <= 4_294_967_296,
{
    let mut lo: u64 = 0;
    let mut hi: u64 = 4_294_967_296;
    if n < hi {
        hi = n + 1;
    }
    proof {
        lemma_sqrt_floor_bounds(n as nat);
        assert(n < (n + 1) * (n + 1)) by (nonlinear_arith);
        assert(0x1_0000_0000_0000_0000int == 4_294_967_296int * 4_294_967_296int)
            by (nonlinear_arith);
    }
    while lo + 1 < hi
        invariant
            lo < hi,
            hi <= 4_294_967_297,
            lo * lo <= n,
            n < hi * hi,
        decreases hi - lo,
    {
        let mid = lo + (hi - lo) / 2;
        proof {
            assert(mid * mid < u128::MAX) by (nonlinear_arith)
                requires
                    0 <= mid <= 4_294_967_297int,
            ;
        }
        if (mid as u128) * (mid as u128) <= n as u128 {
            lo = mid;
        } else {
            hi = mid;
        }
    }
    proof {
        lemma_sqrt_floor_unique(n as nat, lo as nat);
    }
    lo
}

/// Truncating signed division on `i128`, carried out on magnitudes so that
/// `div_trunc(-a, b) == -div_trunc(a, b)` holds exactly.
pub fn div_trunc_i128(a: i128, b: i128) -> (q: i128)
    requires
        b > 0,
        a > i128::MIN,
    ensures
        q == div_trunc(a as int, b as int),
{
    if a >= 0 {
        let q = (a as u128) / (b as u128);
        q as i128
    } else {
        let m = (-a) as u128;
        let q = m / (b as u128);
        proof {
            assert(q <= m) by (nonlinear_arith)
                requires
                    q == m as int / b as int,
                    b >= 1,
                    m >= 0,
            ;
        }
        -(q as i128)
    }
}

/// Saturate an `i128` into `[-bound, bound]`.
pub fn clamp_i128(x: i128, bound: i64) -> (r: i64)
    requires
        0 < bound,
    ensures
        r == clamp_i(x as int, bound as int),
{
    if x < -(bound as i128) {
        -bound
    } else if x > bound as i128 {
        bound
    } else {
        x as i64
    }
}

/// Product of an `i64` with itself, widened to `i128`.
pub fn sq_i128(v: i64) -> (r: i128)
    requires
        -5_000_000_000 <= v <= 5_000_000_000,
    ensures
        r == v * v,
        0 <= r <= 25_000_000_000_000_000_000,
{
    proof {
        assert(v * v >= 0 && v * v <= 25_000_000_000_000_000_000) by (nonlinear_arith)
            requires
                -5_000_000_000 <= v <= 5_000_000_000,
        ;
    }
    (v as i128) * (v as i128)
}

/// Product of two `i64` values, widened to `i128`.
pub fn mul_i128(a: i64, b: i64) -> (r: i128)
    requires
        -5_000_000_000 <= a <= 5_000_000_000,
        -5_000_000_000 <= b <= 5_000_000_000,
    ensures
        r == a * b,
        -25_000_000_000_000_000_000 <= r <= 25_000_000_000_000_000_000,
{
    proof {
        assert(-25_000_000_000_000_000_000 <= a * b <= 25_000_000_000_000_000_000)
            by (nonlinear_arith)
            requires
                -5_000_000_000 <= a <= 5_000_000_000,
                -5_000_000_000 <= b <= 5_000_000_000,
        ;
    }
    (a as i128) * (b as i128)
}

/// The magnitude of a truncating quotient is bounded by any bound on the
/// exact quotient.
pub proof fn lemma_div_trunc_bound(a: int, b: int, m: int)
    requires
        b > 0,
        abs_i(a) <= m * b,
    ensures
        abs_i(div_trunc(a, b)) <= m,
{
    if a >= 0 {
        assert(a / b <= m) by (nonlinear_arith)
            requires
                b > 0,
                0 <= a <= m * b,
        ;
        assert(a / b >= 0) by (nonlinear_arith)
            requires
                b > 0,
                a >= 0,
        ;
    } else {
        assert((-a) / b <= m) by (nonlinear_arith)
            requires
                b > 0,
                0 <= -a <= m * b,
        ;
        assert((-a) / b >= 0) by (nonlinear_arith)
            requires
                b > 0,
                -a >= 0,
        ;
    }
}

/// Truncating division is odd in its dividend.
pub proof fn lemma_div_trunc_neg(a: int, b: int)
    requires
        b > 0,
    ensures
        div_trunc(-a, b) == -div_trunc(a, b),
{
    if a == 0 {
        assert(0int / b == 0) by (nonlinear_arith)
            requires
                b > 0,
        ;
    }
}

/// A quotient of zero.
pub proof fn lemma_div_trunc_zero(b: int)
    requires
        b > 0,
    ensures
        div_trunc(0, b) == 0,
{
    assert(0int / b == 0) by (nonlinear_arith)
        requires
            b > 0,
    ;
}

} // verus!
