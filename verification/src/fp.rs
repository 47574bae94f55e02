//! Fixed-point scalar arithmetic for the simulation.
//!
//! Every physical quantity (position, velocity, mass, radius, angle) is an
//! `i64` holding the quantity multiplied by `SCALE`. All engine arithmetic is
//! exact integer arithmetic over this representation, saturating at
//! `FP_LIMIT`, so the whole step algorithm can be stated and proved exactly.

use vstd::prelude::*;
use vstd::arithmetic::div_mod::{
    lemma_div_is_ordered,
    lemma_div_multiples_vanish,
    lemma_div_pos_is_pos,
};

verus! {

/// One simulation unit, as a fixed-point integer.
pub const SCALE: i64 = 1_000_000_000_000_000;

/// Saturation bound for every stored quantity: 1000 units.
pub const FP_LIMIT: i64 = 1_000_000_000_000_000_000;

/// Orbital phase increment per colliding step: 0.05 radians.
pub const ANGLE_STEP: i64 = 50_000_000_000_000;

/// cos(0.05) at `SCALE`, rounded down.
pub const COS_STEP: i64 = 998_750_260_394_966;

/// sin(0.05) at `SCALE`, rounded down.
pub const SIN_STEP: i64 = 49_979_169_270_678;

/// Gravitational constant 6.67430e-11 as the exact ratio G_NUM / G_DEN.
pub const G_NUM: i64 = 667_430;

/// See `G_NUM`.
pub const G_DEN: i64 = 10_000_000_000_000_000;

/// `v` saturated into `[-lim, lim]`.
pub open spec fn clamped(v: int, lim: int) -> int {
    if v < -lim {
        -lim
    } else if v > lim {
        lim
    } else {
        v
    }
}

/// Quotient of `a` by `b`, truncated toward zero (the rounding every engine
/// division uses).
pub open spec fn tdiv(a: int, b: int) -> int
    recommends
        b > 0,
{
    if a >= 0 {
        a / b
    } else {
        -((-a) / b)
    }
}

/// Largest `r` with `r * r <= n`.
pub open spec fn sqrt_floor(n: nat) -> nat
    decreases n,
{
    if n == 0 {
        0
    } else {
        let r = sqrt_floor((n - 1) as nat);
        if (r + 1) * (r + 1) <= n {
            r + 1
        } else {
            r
        }
    }
}

pub proof fn lemma_sqrt_floor_bounds(n: nat)
    ensures
        sqrt_floor(n) * sqrt_floor(n) <= n,
        n < (sqrt_floor(n) + 1) * (sqrt_floor(n) + 1),
    decreases n,
{
    reveal_with_fuel(sqrt_floor, 2);
    if n == 0 {
        assert(sqrt_floor(n) == 0);
        assert(n < (sqrt_floor(n) + 1) * (sqrt_floor(n) + 1)) by (nonlinear_arith)
            requires
                n == 0,
                sqrt_floor(n) == 0,
        ;
    } else {
        let r = sqrt_floor((n - 1) as nat);
        lemma_sqrt_floor_bounds((n - 1) as nat);
        if (r + 1) * (r + 1) <= n {
            let s = sqrt_floor(n);
            assert(s == r + 1);
            assert(n <= (r + 1) * (r + 1));
            assert(n < (s + 1) * (s + 1)) by (nonlinear_arith)
                requires
                    n <= (r + 1) * (r + 1),
                    s == r + 1,
            ;
        } else {
            assert(sqrt_floor(n) == r);
            assert(n < (r + 1) * (r + 1));
        }
    }
}

pub proof fn lemma_sqrt_floor_unique(n: nat, r: nat)
    requires
        r * r <= n,
        n < (r + 1) * (r + 1),
    ensures
        r == sqrt_floor(n),
{
    lemma_sqrt_floor_bounds(n);
    let s = sqrt_floor(n);
    assert(r == s) by (nonlinear_arith)
        requires
            r * r <= n,
            n < (r + 1) * (r + 1),
            s * s <= n,
            n < (s + 1) * (s + 1),
    ;
}

/// `|tdiv(a, b)| <= m` whenever `|a| <= m * b`.
pub proof fn lemma_tdiv_bound(a: int, b: int, m: int)
    requires
        b >= 1,
        m >= 0,
        -(m * b) <= a <= m * b,
    ensures
        -m <= tdiv(a, b) <= m,
{
    assert(m * b == b * m) by (nonlinear_arith);
    lemma_div_multiples_vanish(m, b);
    assert((m * b) / b == m);
    if a >= 0 {
        lemma_div_is_ordered(a, m * b, b);
        lemma_div_pos_is_pos(a, b);
    } else {
        lemma_div_is_ordered(-a, m * b, b);
        lemma_div_pos_is_pos(-a, b);
    }
}

/// A square grows no faster than the square of a bound on its root.
pub proof fn lemma_square_bound(a: int, m: int) by (nonlinear_arith)
    requires
        0 <= m,
        -m <= a <= m,
    ensures
        0 <= a * a <= m * m,
{
}

/// `v` saturated into `[-lim, lim]`, exactly as `clamped` states.
pub fn clamp_to(v: i128, lim: i64) -> (r: i64)
    requires
        lim > 0,
    ensures
        r as int == clamped(v as int, lim as int),
{
    if v < -(lim as i128) {
        -lim
    } else if v > lim as i128 {
        lim
    } else {
        v as i64
    }
}

/// Truncated division on machine integers, exactly as `tdiv` states.
pub fn tdiv_exec(a: i128, b: i128) -> (r: i128)
    requires
        b > 0,
        a > i128::MIN,
    ensures
        r == tdiv(a as int, b as int),
{
    if a >= 0 {
        ((a as u128) / (b as u128)) as i128
    } else {
        let q = ((-a) as u128) / (b as u128);
        -(q as i128)
    }
}

/// Integer square root, exactly `sqrt_floor`.
pub fn isqrt(n: u128) -> (r: u128)
    ensures
        r == sqrt_floor(n as nat),
        r * r <= n,
        n < (r + 1) * (r + 1),
{
    let mut lo: u128 = 0;
    let mut hi: u128 = 0xFFFF_FFFF_FFFF_FFFF;
    proof {
        assert((hi as int + 1) * (hi as int + 1) > n as int) by (nonlinear_arith)
            requires
                n <= u128::MAX,
                hi == 0xFFFF_FFFF_FFFF_FFFFu128,
        ;
    }
    while lo < hi
        invariant
            lo <= hi <= 0xFFFF_FFFF_FFFF_FFFF,
            lo * lo <= n,
            (hi as int + 1) * (hi as int + 1) > n as int,
        decreases hi - lo,
    {
        let mid = lo + (hi - lo + 1) / 2;
        assert(lo < mid <= hi);
        proof {
            assert(mid * mid <= u128::MAX) by (nonlinear_arith)
                requires
                    mid <= 0xFFFF_FFFF_FFFF_FFFFu128,
            ;
        }
        if mid * mid <= n {
            lo = mid;
        } else {
            hi = mid - 1;
        }
    }
    proof {
        lemma_sqrt_floor_unique(n as nat, lo as nat);
    }
    lo
}

/// Fixed-point cosine and sine of `k` orbital phase steps of 0.05 radians,
/// by the rotation recurrence at `SCALE`, saturated into `[-SCALE, SCALE]`.
pub open spec fn rot(k: nat) -> (int, int)
    decreases k,
{
    if k == 0 {
        (SCALE as int, 0int)
    } else {
        let prev = rot((k - 1) as nat);
        (
            clamped(tdiv(prev.0 * COS_STEP - prev.1 * SIN_STEP, SCALE as int), SCALE as int),
            clamped(tdiv(prev.0 * SIN_STEP + prev.1 * COS_STEP, SCALE as int), SCALE as int),
        )
    }
}

/// Computes `rot(k)`.
pub fn rot_exec(k: u64) -> (r: (i64, i64))
    ensures
        (r.0 as int, r.1 as int) == rot(k as nat),
        -SCALE <= r.0 <= SCALE,
        -SCALE <= r.1 <= SCALE,
{
    let mut c: i64 = SCALE;
    let mut s: i64 = 0;
    let mut i: u64 = 0;
    while i < k
        invariant
            i <= k,
            (c as int, s as int) == rot(i as nat),
            -SCALE <= c <= SCALE,
            -SCALE <= s <= SCALE,
        decreases k - i,
    {
        let num_c: i128 = (c as i128) * (COS_STEP as i128) - (s as i128) * (SIN_STEP as i128);
        let num_s: i128 = (c as i128) * (SIN_STEP as i128) + (s as i128) * (COS_STEP as i128);
        proof {
            assert(-(2_000_000_000_000_000_000_000_000_000_000int) <= num_c as int
                <= 2_000_000_000_000_000_000_000_000_000_000int) by (nonlinear_arith)
                requires
                    num_c == c * COS_STEP - s * SIN_STEP,
                    -SCALE <= c <= SCALE,
                    -SCALE <= s <= SCALE,
                    COS_STEP == 998_750_260_394_966i64,
                    SIN_STEP == 49_979_169_270_678i64,
                    SCALE == 1_000_000_000_000_000i64,
            ;
            assert(-(2_000_000_000_000_000_000_000_000_000_000int) <= num_s as int
                <= 2_000_000_000_000_000_000_000_000_000_000int) by (nonlinear_arith)
                requires
                    num_s == c * SIN_STEP + s * COS_STEP,
                    -SCALE <= c <= SCALE,
                    -SCALE <= s <= SCALE,
                    COS_STEP == 998_750_260_394_966i64,
                    SIN_STEP == 49_979_169_270_678i64,
                    SCALE == 1_000_000_000_000_000i64,
            ;
        }
        let c2 = clamp_to(tdiv_exec(num_c, SCALE as i128), SCALE);
        let s2 = clamp_to(tdiv_exec(num_s, SCALE as i128), SCALE);
        c = c2;
        s = s2;
        i = i + 1;
    }
    (c, s)
}

} // verus!
