//! Scalar integer helpers for the signal path: truncating division,
//! clamping, and an integer square root.

use vstd::prelude::*;

verus! {

use vstd::arithmetic::div_mod::{lemma_fundamental_div_mod, lemma_mod_multiples_basic};
use vstd::arithmetic::power2::{
    pow2, lemma_pow2_unfold, lemma_pow2_pos, lemma2_to64, lemma2_to64_rest,
};

/// Round-toward-zero division of `a` by a positive divisor `d`; this is the
/// rounding a hardware divide performs, and the one the fixed-point signal
/// path uses throughout.
pub open spec fn div_trunc(a: int, d: int) -> int
    recommends
        d > 0,
{
    if a >= 0 {
        a / d
    } else {
        -((-a) / d)
    }
}

/// `x` pulled into `[lo, hi]`.
pub open spec fn clamp_spec(x: int, lo: int, hi: int) -> int
    recommends
        lo <= hi,
{
    if x < lo {
        lo
    } else if x > hi {
        hi
    } else {
        x
    }
}

/// The absolute value of an integer.
pub open spec fn abs_int(x: int) -> int {
    if x < 0 {
        -x
    } else {
        x
    }
}

/// Scaling by a full fixed-point unit and dividing it back out is the
/// identity.
pub proof fn lemma_div_trunc_mul_id(a: int, d: int)
    requires
        d > 0,
    ensures
        div_trunc(a * d, d) == a,
{
    if a >= 0 {
        assert(a * d >= 0) by (nonlinear_arith)
            requires
                a >= 0,
                d > 0,
        ;
        vstd::arithmetic::div_mod::lemma_div_multiples_vanish(a, d);
        assert(d * a == a * d) by (nonlinear_arith);
    } else {
        assert(-(a * d) == (-a) * d) by (nonlinear_arith);
        assert(a * d < 0) by (nonlinear_arith)
            requires
                a < 0,
                d > 0,
        ;
        vstd::arithmetic::div_mod::lemma_div_multiples_vanish(-a, d);
        assert(d * (-a) == (-a) * d) by (nonlinear_arith);
    }
}

/// Scaling by a proper fraction `f / d` strictly shrinks a nonzero value.
pub proof fn lemma_div_trunc_scale_lt(a: int, f: int, d: int)
    requires
        d > 0,
        0 <= f < d,
        a != 0,
    ensures
        abs_int(div_trunc(a * f, d)) < abs_int(a),
{
    lemma_div_trunc_scale_le(a, f, d);
    let m = abs_int(a);
    assert(m * f < d * m) by (nonlinear_arith)
        requires
            m > 0,
            0 <= f < d,
    ;
    vstd::arithmetic::div_mod::lemma_multiply_divide_lt(m * f, d, m);
    if a >= 0 {
        assert(a * f == m * f);
    } else {
        assert(-(a * f) == m * f) by (nonlinear_arith)
            requires
                m == -a,
        ;
        assert(a * f <= 0) by (nonlinear_arith)
            requires
                a < 0,
                f >= 0,
        ;
    }
}

/// Scaling by a fraction of at most one never grows the absolute value.
pub proof fn lemma_div_trunc_scale_le(a: int, f: int, d: int)
    requires
        d > 0,
        0 <= f <= d,
    ensures
        abs_int(div_trunc(a * f, d)) <= abs_int(a),
{
    let m = abs_int(a);
    assert(m * f <= d * m) by (nonlinear_arith)
        requires
            m >= 0,
            0 <= f <= d,
    ;
    vstd::arithmetic::div_mod::lemma_multiply_divide_le(m * f, d, m);
    vstd::arithmetic::div_mod::lemma_div_pos_is_pos(m * f, d);
    assert(m * f >= 0) by (nonlinear_arith)
        requires
            m >= 0,
            f >= 0,
    ;
    if a >= 0 {
        assert(a * f == m * f);
    } else {
        assert(-(a * f) == m * f) by (nonlinear_arith)
            requires
                m == -a,
        ;
        assert(a * f <= 0) by (nonlinear_arith)
            requires
                a < 0,
                f >= 0,
        ;
    }
}

/// Truncating `a / d` on machine integers.
pub fn div_i64_trunc(a: i64, d: i64) -> (r: i64)
    requires
        d > 0,
        a > i64::MIN,
    ensures
        r == div_trunc(a as int, d as int),
{
    if a >= 0 {
        a / d
    } else {
        -((-a) / d)
    }
}

/// `x` pulled into `[lo, hi]` on machine integers.
pub fn clamp_i64(x: i64, lo: i64, hi: i64) -> (r: i64)
    requires
        lo <= hi,
    ensures
        r == clamp_spec(x as int, lo as int, hi as int),
{
    if x < lo {
        lo
    } else if x > hi {
        hi
    } else {
        x
    }
}

/// The integer square root of a nonnegative integer, as a specification
/// value: the unique `r >= 0` with `r * r <= n < (r + 1) * (r + 1)`.
pub open spec fn spec_isqrt(n: int) -> int {
    choose|r: int| 0 <= r && #[trigger] (r * r) <= n && (r + 1) * (r + 1) > n
}

/// Any `r` that brackets `n` between consecutive squares is the integer
/// square root.
pub proof fn lemma_isqrt_unique(n: int, r: int)
    requires
        0 <= r,
        r * r <= n,
        (r + 1) * (r + 1) > n,
    ensures
        spec_isqrt(n) == r,
{
    assert(0 <= r && r * r <= n && (r + 1) * (r + 1) > n);
    let c = spec_isqrt(n);
    assert(0 <= c && c * c <= n && (c + 1) * (c + 1) > n) by {
        assert(exists|q: int| 0 <= q && #[trigger] (q * q) <= n && (q + 1) * (q + 1) > n) by {
            assert(0 <= r && r * r <= n && (r + 1) * (r + 1) > n);
        }
    }
    if c < r {
        assert((c + 1) * (c + 1) <= r * r) by (nonlinear_arith)
            requires
                0 <= c,
                c < r,
        ;
        assert(false);
    }
    if c > r {
        assert((r + 1) * (r + 1) <= c * c) by (nonlinear_arith)
            requires
                0 <= r,
                r < c,
        ;
        assert(false);
    }
}

/// A truncating quotient is bounded by any bound on the dividend expressed
/// in units of the divisor.
pub proof fn lemma_div_trunc_bound(a: int, d: int, m: int)
    requires
        d > 0,
        m >= 0,
        -(m * d) <= a <= m * d,
    ensures
        -m <= div_trunc(a, d) <= m,
{
    assert(m * d == d * m) by (nonlinear_arith);
    if a >= 0 {
        vstd::arithmetic::div_mod::lemma_multiply_divide_le(a, d, m);
        vstd::arithmetic::div_mod::lemma_div_pos_is_pos(a, d);
    } else {
        vstd::arithmetic::div_mod::lemma_multiply_divide_le(-a, d, m);
        vstd::arithmetic::div_mod::lemma_div_pos_is_pos(-a, d);
    }
}

/// The integer square root: the largest `r` with `r * r <= n`.
///
/// Works bit by bit from the top: `p` sweeps the powers of two downward and
/// each candidate bit is kept exactly when the enlarged root still squares
/// to at most `n`.
pub fn isqrt_u128(n: u128) -> (r: u64)
    requires
        n < 0x40000000000000000000000000000000u128,  // 2^126
    ensures
        (r as int) * (r as int) <= n as int,
        (r as int + 1) * (r as int + 1) > n as int,
{
    let mut r: u64 = 0;
    let mut p: u64 = 0x8000000000000000u64;  // 2^63
    let ghost mut k: nat = 63;
    proof {
        lemma2_to64();
        lemma2_to64_rest();
    }
    while p > 0
        invariant
            (n as int) < 0x40000000000000000000000000000000,
            p > 0 ==> p == pow2(k),
            k <= 63,
            (r as int) * (r as int) <= n as int,
            p > 0 ==> (r as int) % (2 * (p as int)) == 0,
            p > 0 ==> (r as int + 2 * (p as int)) * (r as int + 2 * (p as int)) > n as int,
            p == 0 ==> (r as int + 1) * (r as int + 1) > n as int,
        decreases p,
    {
        proof {
            lemma2_to64();
            lemma2_to64_rest();
            lemma_pow2_pos(k);
            if k < 63 {
                vstd::arithmetic::power2::lemma_pow2_strictly_increases(k, 63);
            }
            assert(p as int <= 0x8000000000000000);
            assert((r as int) < 0x8000000000000000) by (nonlinear_arith)
                requires
                    (r as int) * (r as int) <= n as int,
                    (n as int) < 0x40000000000000000000000000000000,
            ;
        }
        let c: u64 = r + p;
        proof {
            assert((c as int) * (c as int) < 0x100000000000000000000000000000000)
                by (nonlinear_arith)
                requires
                    0 <= c as int <= 0x10000000000000000,
            ;
        }
        let cc: u128 = (c as u128) * (c as u128);
        let old_r: u64 = r;
        if cc <= n {
            r = c;
        }
        proof {
            // Alignment: r was a multiple of 2p, so both r and r + p are
            // multiples of p.
            assert((old_r as int) % (p as int) == 0 && (c as int) % (p as int) == 0) by {
                let ri = old_r as int;
                let pi = p as int;
                let q = ri / (2 * pi);
                lemma_fundamental_div_mod(ri, 2 * pi);
                assert(ri == 2 * pi * q + ri % (2 * pi));
                assert(ri == (2 * q) * pi) by (nonlinear_arith)
                    requires
                        ri == 2 * pi * q,
                ;
                lemma_mod_multiples_basic(2 * q, pi);
                assert(ri + pi == (2 * q + 1) * pi) by (nonlinear_arith)
                    requires
                        ri == (2 * q) * pi,
                ;
                lemma_mod_multiples_basic(2 * q + 1, pi);
            }
        }
        let ghost old_p: u64 = p;
        p = p / 2;
        proof {
            if old_p > 1 {
                lemma_pow2_unfold(k);
                assert(k >= 1) by {
                    lemma2_to64();
                }
                k = (k - 1) as nat;
                assert(p == pow2(k));
                assert(2 * (p as int) == old_p as int);
                // The new r is a multiple of the old p, which is twice the
                // new p, so alignment carries to the next round.
            } else {
                assert(p == 0);
            }
        }
    }
    r
}

} // verus!
