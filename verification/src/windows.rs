//! Windowing functions for spectral analysis: each scales a sample buffer
//! pointwise by a tapering curve, in the crate's Q15 fixed point.

use vstd::prelude::*;

verus! {

use vstd::arithmetic::div_mod::{lemma_div_is_ordered, lemma_div_pos_is_pos};
use crate::math::{div_trunc, div_i64_trunc, clamp_spec, clamp_i64, lemma_div_trunc_bound};
use crate::trig::{cos_cycle, spec_cos_cycle};

/// Which renderer a spectrum display drives.
#[derive(Debug, Clone, Copy, PartialEq, Eq, Structural)]
pub enum DisplayType {
    /// Draw into the terminal.
    Console,
    /// Draw into a native window.
    Window,
}

/// The rectangular window: the samples untouched.
pub struct SquareWindow;

/// The Hann window: a raised cosine that reaches zero at both edges.
pub struct HannWindow;

/// The Blackman-Nuttall window: a four-term cosine sum with very low
/// sidelobes.
pub struct BlackmanNuttallWindow;

/// The Hann weight at position `i` of an `n`-sample window, in units of
/// `1 / 32768`: `(1 - cos(2 pi i / n)) / 2`.
pub open spec fn spec_hann_weight(i: int, n: int) -> int {
    (32768 - spec_cos_cycle(i, n)) / 2
}

/// The Blackman-Nuttall weight at position `i` of an `n`-sample window in
/// units of `1 / 32768`, clamped into that range against rounding spill.
pub open spec fn spec_blackman_nuttall_weight(i: int, n: int) -> int {
    clamp_spec(
        11916 - div_trunc(16031 * spec_cos_cycle(i, n), 32768) + div_trunc(
            4477 * spec_cos_cycle((2 * i) % n, n),
            32768,
        ) - div_trunc(349 * spec_cos_cycle((3 * i) % n, n), 32768),
        0,
        32768,
    )
}

impl SquareWindow {
    /// The window's name.
    pub fn name(&self) -> (r: &'static str)
        ensures
            r@ == "square"@,
    {
        "square"
    }

    /// Apply the window: the identity.
    pub fn window(&self, samples: &Vec<i32>) -> (r: Vec<i32>)
        ensures
            r@ == samples@,
    {
        samples.clone()
    }
}

impl HannWindow {
    /// The window's name.
    pub fn name(&self) -> (r: &'static str)
        ensures
            r@ == "hann"@,
    {
        "hann"
    }

    /// Apply the window: each sample scaled by the raised-cosine weight at
    /// its position.
    pub fn window(&self, samples: &Vec<i32>) -> (r: Vec<i32>)
        requires
            samples@.len() <= 0x1000000,
        ensures
            r@.len() == samples@.len(),
            forall|i: int|
                0 <= i < r@.len() ==> r@[i] == div_trunc(
                    (samples@[i] as int) * spec_hann_weight(i, samples@.len() as int),
                    32768,
                ),
    {
        let n = samples.len();
        let mut out: Vec<i32> = Vec::new();
        let mut i: usize = 0;
        while i < n
            invariant
                n == samples@.len() <= 0x1000000,
                i <= n,
                out@.len() == i,
                forall|j: int|
                    0 <= j < i ==> out@[j] == div_trunc(
                        (samples@[j] as int) * spec_hann_weight(j, n as int),
                        32768,
                    ),
            decreases n - i,
        {
            let c = cos_cycle(i as u64, n as u64);
            let w: i64 = ((32768 - c) as i64) / 2;
            let sample: i64 = samples[i] as i64;
            proof {
                lemma_div_pos_is_pos(32768 - c, 2);
                lemma_div_is_ordered(32768 - c, 65536, 2);
                assert(-0x400000000000 <= (sample as int) * (w as int) <= 0x400000000000)
                    by (nonlinear_arith)
                    requires
                        0 <= w as int <= 32768,
                        -0x80000000 <= sample as int <= 0x80000000,
                ;
                crate::math::lemma_div_trunc_scale_le(sample as int, w as int, 32768);
                if sample < 0 {
                    assert((sample as int) * (w as int) <= 0) by (nonlinear_arith)
                        requires
                            sample < 0,
                            w >= 0,
                    ;
                    if (sample as int) * (w as int) < 0 {
                        lemma_div_pos_is_pos(-((sample as int) * (w as int)), 32768);
                    }
                }
            }
            let v: i64 = div_i64_trunc(sample * w, 32768);
            out.push(v as i32);
            i = i + 1;
        }
        out
    }
}

impl BlackmanNuttallWindow {
    /// The window's name.
    pub fn name(&self) -> (r: &'static str)
        ensures
            r@ == "blackman"@,
    {
        "blackman"
    }

    /// Apply the window: each sample scaled by the four-term cosine-sum
    /// weight at its position.
    pub fn window(&self, samples: &Vec<i32>) -> (r: Vec<i32>)
        requires
            samples@.len() <= 0x1000000,
        ensures
            r@.len() == samples@.len(),
            forall|i: int|
                0 <= i < r@.len() ==> r@[i] == div_trunc(
                    (samples@[i] as int) * spec_blackman_nuttall_weight(i, samples@.len() as int),
                    32768,
                ),
    {
        let n = samples.len();
        let mut out: Vec<i32> = Vec::new();
        let mut i: usize = 0;
        while i < n
            invariant
                n == samples@.len() <= 0x1000000,
                i <= n,
                out@.len() == i,
                forall|j: int|
                    0 <= j < i ==> out@[j] == div_trunc(
                        (samples@[j] as int) * spec_blackman_nuttall_weight(j, n as int),
                        32768,
                    ),
            decreases n - i,
        {
            let c1 = cos_cycle(i as u64, n as u64);
            let c2 = cos_cycle(((2 * i) as u64) % (n as u64), n as u64);
            let c3 = cos_cycle(((3 * i) as u64) % (n as u64), n as u64);
            let t1: i64 = div_i64_trunc(16031 * (c1 as i64), 32768);
            let t2: i64 = div_i64_trunc(4477 * (c2 as i64), 32768);
            let t3: i64 = div_i64_trunc(349 * (c3 as i64), 32768);
            proof {
                lemma_div_trunc_bound(16031 * (c1 as int), 32768, 16031);
                lemma_div_trunc_bound(4477 * (c2 as int), 32768, 4477);
                lemma_div_trunc_bound(349 * (c3 as int), 32768, 349);
            }
            let raw: i64 = 11916 - t1 + t2 - t3;
            let w: i64 = clamp_i64(raw, 0, 32768);
            let sample: i64 = samples[i] as i64;
            proof {
                assert(-0x400000000000 <= (sample as int) * (w as int) <= 0x400000000000)
                    by (nonlinear_arith)
                    requires
                        0 <= w as int <= 32768,
                        -0x80000000 <= sample as int <= 0x80000000,
                ;
                crate::math::lemma_div_trunc_scale_le(sample as int, w as int, 32768);
                if sample < 0 {
                    assert((sample as int) * (w as int) <= 0) by (nonlinear_arith)
                        requires
                            sample < 0,
                            w >= 0,
                    ;
                    if (sample as int) * (w as int) < 0 {
                        lemma_div_pos_is_pos(-((sample as int) * (w as int)), 32768);
                    }
                }
            }
            let v: i64 = div_i64_trunc(sample * w, 32768);
            out.push(v as i32);
            i = i + 1;
        }
        out
    }
}


/// An RGB colour, as the spectrum displays use it.
#[derive(Debug, Clone, Copy, PartialEq, Eq, Structural)]
pub struct Color {
    /// The red channel.
    pub r: u8,
    /// The green channel.
    pub g: u8,
    /// The blue channel.
    pub b: u8,
}

impl Color {
    /// A colour from its three channels.
    pub fn new(r: u8, g: u8, b: u8) -> (c: Self)
        ensures
            c == (Color { r, g, b }),
    {
        Self { r, g, b }
    }

    /// A colour from a packed `0xRRGGBB` value (no alpha).
    pub fn hex(hex: u32) -> (c: Self)
        ensures
            c.r == (hex / 0x10000) % 0x100,
            c.g == (hex / 0x100) % 0x100,
            c.b == hex % 0x100,
    {
        Self::new(((hex / 0x10000) % 0x100) as u8, ((hex / 0x100) % 0x100) as u8, (hex
            % 0x100) as u8)
    }

    /// The colour as an RGBA byte quadruple with full alpha.
    pub fn to_slice(self) -> (s: [u8; 4])
        ensures
            s@ == seq![self.r, self.g, self.b, 255u8],
    {
        let s = [self.r, self.g, self.b, 255];
        proof {
            assert(s@ =~= seq![self.r, self.g, self.b, 255u8]);
        }
        s
    }
}

} // verus!
