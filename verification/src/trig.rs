//! Fixed-point sine and cosine.
//!
//! Angles are given as a fraction `num / den` of one full turn, which is the
//! natural form for a phase-accumulating oscillator.  The fraction is folded
//! into one octant by the symmetries of the circle, the remaining arc (at
//! most an eighth of a turn) is evaluated with a polynomial in Q30
//! fixed-point, and the result is returned in units of `1 / 32768`
//! (Q15, matching the crate's sample scale).

use vstd::prelude::*;

verus! {

use vstd::arithmetic::div_mod::{
    lemma_div_is_ordered, lemma_multiply_divide_lt, lemma_div_multiples_vanish,
};

/// One in Q30 fixed-point.
pub const Q30: u64 = 0x40000000;

/// A quarter of pi in Q30 fixed-point: the largest arc the polynomial
/// kernels are asked to evaluate.
pub const PI4_Q30: u64 = 843314857;

/// The Q30 sine kernel on `[0, pi/4]`: the alternating product form of the
/// Taylor series, evaluated innermost first.
pub open spec fn spec_sin_poly(x: int) -> int {
    let x2 = (x * x) / (Q30 as int);
    let p3 = (Q30 as int) - x2 / 72;
    let p2 = (Q30 as int) - ((x2 * p3) / (Q30 as int)) / 42;
    let p1 = (Q30 as int) - ((x2 * p2) / (Q30 as int)) / 20;
    let p0 = (Q30 as int) - ((x2 * p1) / (Q30 as int)) / 6;
    (x * p0) / (Q30 as int)
}

/// The Q30 cosine kernel on `[0, pi/4]`.
pub open spec fn spec_cos_poly(x: int) -> int {
    let x2 = (x * x) / (Q30 as int);
    let q3 = (Q30 as int) - x2 / 56;
    let q2 = (Q30 as int) - ((x2 * q3) / (Q30 as int)) / 30;
    let q1 = (Q30 as int) - ((x2 * q2) / (Q30 as int)) / 12;
    (Q30 as int) - ((x2 * q1) / (Q30 as int)) / 2
}

/// A wave sample folded out of one octant: `oct` selects the octant of the
/// turn, `rem / den` the position inside it, and the octant decides which
/// kernel applies, whether the arc runs forward or backward, and the sign.
pub open spec fn spec_wave_octant(oct: int, rem: int, den: int) -> int {
    let frac = if oct % 2 == 1 {
        den - rem
    } else {
        rem
    };
    let x = ((PI4_Q30 as int) * frac) / den;
    let v = if oct == 1 || oct == 2 || oct == 5 || oct == 6 {
        spec_cos_poly(x)
    } else {
        spec_sin_poly(x)
    };
    let v15 = v / 32768;
    if oct >= 4 {
        -v15
    } else {
        v15
    }
}

/// `sin(2 * pi * num / den)` in units of `1 / 32768`.
pub open spec fn spec_sin_cycle(num: int, den: int) -> int {
    spec_wave_octant((8 * num) / den, (8 * num) % den, den)
}

/// `cos(2 * pi * num / den)` in units of `1 / 32768`: the sine a quarter
/// turn (two octants) further on.
pub open spec fn spec_cos_cycle(num: int, den: int) -> int {
    spec_wave_octant(((8 * num) / den + 2) % 8, (8 * num) % den, den)
}

fn sin_poly(x: u64) -> (r: u64)
    requires
        x <= PI4_Q30,
    ensures
        r == spec_sin_poly(x as int),
        r <= x,
{
    proof {
        assert((x as int) * (x as int) <= (Q30 as int) * (Q30 as int)) by (nonlinear_arith)
            requires
                0 <= x as int <= Q30 as int,
        ;
        lemma_div_is_ordered((x as int) * (x as int), (Q30 as int) * (Q30 as int), Q30 as int);
    }
    let x2: u64 = (x * x) / Q30;
    let p3: u64 = Q30 - x2 / 72;
    proof {
        assert((x2 as int) * (p3 as int) <= (Q30 as int) * (Q30 as int)) by (nonlinear_arith)
            requires
                0 <= x2 as int <= Q30 as int,
                0 <= p3 as int <= Q30 as int,
        ;
        lemma_div_is_ordered((x2 as int) * (p3 as int), (Q30 as int) * (Q30 as int), Q30 as int);
    }
    let p2: u64 = Q30 - ((x2 * p3) / Q30) / 42;
    proof {
        assert((x2 as int) * (p2 as int) <= (Q30 as int) * (Q30 as int)) by (nonlinear_arith)
            requires
                0 <= x2 as int <= Q30 as int,
                0 <= p2 as int <= Q30 as int,
        ;
        lemma_div_is_ordered((x2 as int) * (p2 as int), (Q30 as int) * (Q30 as int), Q30 as int);
    }
    let p1: u64 = Q30 - ((x2 * p2) / Q30) / 20;
    proof {
        assert((x2 as int) * (p1 as int) <= (Q30 as int) * (Q30 as int)) by (nonlinear_arith)
            requires
                0 <= x2 as int <= Q30 as int,
                0 <= p1 as int <= Q30 as int,
        ;
        lemma_div_is_ordered((x2 as int) * (p1 as int), (Q30 as int) * (Q30 as int), Q30 as int);
    }
    let p0: u64 = Q30 - ((x2 * p1) / Q30) / 6;
    proof {
        assert((x as int) * (p0 as int) <= (x as int) * (Q30 as int)) by (nonlinear_arith)
            requires
                0 <= x as int,
                0 <= p0 as int <= Q30 as int,
        ;
        lemma_div_is_ordered((x as int) * (p0 as int), (x as int) * (Q30 as int), Q30 as int);
        lemma_div_multiples_vanish(x as int, Q30 as int);
    }
    (x * p0) / Q30
}

fn cos_poly(x: u64) -> (r: u64)
    requires
        x <= PI4_Q30,
    ensures
        r == spec_cos_poly(x as int),
        r <= Q30,
{
    proof {
        assert((x as int) * (x as int) <= (Q30 as int) * (Q30 as int)) by (nonlinear_arith)
            requires
                0 <= x as int <= Q30 as int,
        ;
        lemma_div_is_ordered((x as int) * (x as int), (Q30 as int) * (Q30 as int), Q30 as int);
    }
    let x2: u64 = (x * x) / Q30;
    let q3: u64 = Q30 - x2 / 56;
    proof {
        assert((x2 as int) * (q3 as int) <= (Q30 as int) * (Q30 as int)) by (nonlinear_arith)
            requires
                0 <= x2 as int <= Q30 as int,
                0 <= q3 as int <= Q30 as int,
        ;
        lemma_div_is_ordered((x2 as int) * (q3 as int), (Q30 as int) * (Q30 as int), Q30 as int);
    }
    let q2: u64 = Q30 - ((x2 * q3) / Q30) / 30;
    proof {
        assert((x2 as int) * (q2 as int) <= (Q30 as int) * (Q30 as int)) by (nonlinear_arith)
            requires
                0 <= x2 as int <= Q30 as int,
                0 <= q2 as int <= Q30 as int,
        ;
        lemma_div_is_ordered((x2 as int) * (q2 as int), (Q30 as int) * (Q30 as int), Q30 as int);
    }
    let q1: u64 = Q30 - ((x2 * q2) / Q30) / 12;
    proof {
        assert((x2 as int) * (q1 as int) <= (Q30 as int) * (Q30 as int)) by (nonlinear_arith)
            requires
                0 <= x2 as int <= Q30 as int,
                0 <= q1 as int <= Q30 as int,
        ;
        lemma_div_is_ordered((x2 as int) * (q1 as int), (Q30 as int) * (Q30 as int), Q30 as int);
    }
    Q30 - ((x2 * q1) / Q30) / 2
}

fn wave_octant(oct: u64, rem: u64, den: u64) -> (r: i32)
    requires
        oct < 8,
        rem < den,
        den <= 0x100000000u64,
    ensures
        r == spec_wave_octant(oct as int, rem as int, den as int),
        -32768 <= r <= 32768,
{
    let frac: u64 = if oct % 2 == 1 {
        den - rem
    } else {
        rem
    };
    proof {
        assert((PI4_Q30 as int) * (frac as int) <= (PI4_Q30 as int) * (den as int))
            by (nonlinear_arith)
            requires
                0 <= frac as int <= den as int,
        ;
        lemma_div_is_ordered(
            (PI4_Q30 as int) * (frac as int),
            (PI4_Q30 as int) * (den as int),
            den as int,
        );
        lemma_div_multiples_vanish(PI4_Q30 as int, den as int);
    }
    let x: u64 = (PI4_Q30 * frac) / den;
    let v: u64 = if oct == 1 || oct == 2 || oct == 5 || oct == 6 {
        cos_poly(x)
    } else {
        sin_poly(x)
    };
    proof {
        lemma_div_is_ordered(v as int, Q30 as int, 32768);
    }
    let v15: u64 = v / 32768;
    if oct >= 4 {
        -(v15 as i32)
    } else {
        v15 as i32
    }
}

/// The sine of `num / den` of a full turn, scaled to `[-32768, 32768]`.
pub fn sin_cycle(num: u64, den: u64) -> (r: i32)
    requires
        0 < den <= 0x100000000u64,
        num < den,
    ensures
        r == spec_sin_cycle(num as int, den as int),
        -32768 <= r <= 32768,
{
    let e: u64 = 8 * num;
    proof {
        lemma_multiply_divide_lt(e as int, den as int, 8);
    }
    wave_octant(e / den, e % den, den)
}

/// The cosine of `num / den` of a full turn, scaled to `[-32768, 32768]`.
pub fn cos_cycle(num: u64, den: u64) -> (r: i32)
    requires
        0 < den <= 0x100000000u64,
        num < den,
    ensures
        r == spec_cos_cycle(num as int, den as int),
        -32768 <= r <= 32768,
{
    let e: u64 = 8 * num;
    proof {
        lemma_multiply_divide_lt(e as int, den as int, 8);
    }
    wave_octant((e / den + 2) % 8, e % den, den)
}

} // verus!
