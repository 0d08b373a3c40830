//! The Goertzel algorithm: a second-order recursive filter that estimates
//! the magnitude of one target frequency over a fixed window of samples in
//! O(n), far cheaper than a full transform when only a few frequencies
//! matter.

use vstd::prelude::*;

verus! {

use crate::math::{
    div_trunc, div_i64_trunc, clamp_spec, clamp_i64, isqrt_u128, spec_isqrt, lemma_isqrt_unique,
    lemma_div_trunc_bound,
};
use crate::trig::{cos_cycle, sin_cycle, spec_cos_cycle, spec_sin_cycle};

/// Largest analysis window the detector accepts, in samples.
pub const MAX_WINDOW: usize = 0x10000;

/// The filter state is kept inside `[-STATE_CLAMP, STATE_CLAMP]`, which is
/// ample headroom for any clamped input and keeps every product in machine
/// range.
pub const STATE_CLAMP: i64 = 0x200000000;

/// Input samples are pulled into the nominal `[-32768, 32768]` range before
/// they enter the filter.
pub open spec fn spec_clamp_sample(x: int) -> int {
    clamp_spec(x, -32768, 32768)
}

/// One step of the recurrence `s = 2 * cos(w) * s1 - s2 + x`, with the
/// cosine carried in units of `1 / 32768` (so multiplying by `2 * cos(w)`
/// is a product with `coeff` and a truncating division by `16384`), and the
/// result clamped into the filter's state range.
pub open spec fn spec_goertzel_step(coeff: int, s1: int, s2: int, x: int) -> int {
    clamp_spec(
        div_trunc(coeff * s1, 16384) - s2 + spec_clamp_sample(x),
        -(STATE_CLAMP as int),
        STATE_CLAMP as int,
    )
}

/// The filter state `(s1, s2)` after consuming the first `n` samples.
pub open spec fn spec_goertzel_state(coeff: int, samples: Seq<i32>, n: int) -> (int, int)
    decreases n,
{
    if n <= 0 {
        (0int, 0int)
    } else {
        let prev = spec_goertzel_state(coeff, samples, n - 1);
        (spec_goertzel_step(coeff, prev.0, prev.1, samples[n - 1] as int), prev.0)
    }
}

/// The DFT bin nearest the target frequency: `floor(0.5 + len * freq /
/// sample_rate)`, computed in integers.
pub open spec fn spec_goertzel_bin(freq: int, len: int, sample_rate: int) -> int {
    (2 * len * freq + sample_rate) / (2 * sample_rate)
}

/// The magnitude the detector reports: the integer length of the final
/// `(re, im)` pair of the filter run at the nearest-bin frequency.
pub open spec fn spec_goertzel_mag(freq: int, samples: Seq<i32>, sample_rate: int) -> int {
    let len = samples.len() as int;
    let k = spec_goertzel_bin(freq, len, sample_rate);
    let cosw = spec_cos_cycle(k % len, len);
    let sinw = spec_sin_cycle(k % len, len);
    let st = spec_goertzel_state(cosw, samples, len);
    let re_part = st.0 - div_trunc(cosw * st.1, 32768);
    let im_part = div_trunc(sinw * st.1, 32768);
    spec_isqrt(re_part * re_part + im_part * im_part)
}

/// Silence leaves the filter at the origin: on an all-zero window the state
/// never moves.
pub proof fn lemma_goertzel_state_silence(coeff: int, samples: Seq<i32>, n: int)
    requires
        n <= samples.len(),
        forall|i: int| 0 <= i < samples.len() ==> samples[i] == 0,
    ensures
        spec_goertzel_state(coeff, samples, n) == (0int, 0int),
    decreases n,
{
    if n > 0 {
        lemma_goertzel_state_silence(coeff, samples, n - 1);
        assert(div_trunc(coeff * 0, 16384) == 0) by {
            assert(coeff * 0 == 0) by (nonlinear_arith);
        }
    }
}

/// The silence law: the detector reports magnitude zero for an all-zero
/// window, at any target frequency.
pub proof fn lemma_goertzel_silence_zero(freq: int, samples: Seq<i32>, sample_rate: int)
    requires
        samples.len() >= 1,
        sample_rate >= 1,
        forall|i: int| 0 <= i < samples.len() ==> samples[i] == 0,
    ensures
        spec_goertzel_mag(freq, samples, sample_rate) == 0,
{
    let len = samples.len() as int;
    let k = spec_goertzel_bin(freq, len, sample_rate);
    let cosw = spec_cos_cycle(k % len, len);
    let sinw = spec_sin_cycle(k % len, len);
    lemma_goertzel_state_silence(cosw, samples, len);
    assert(cosw * 0 == 0) by (nonlinear_arith);
    assert(sinw * 0 == 0) by (nonlinear_arith);
    lemma_isqrt_unique(0, 0);
}

/// Estimate the magnitude of `freq` (Hz) within `samples` recorded at
/// `sample_rate` (Hz).  Samples at nominal full scale (32768) over a
/// window of `n` samples yield magnitudes on the order of `32768 * n / 2`
/// when the tone sits on the probed bin.
pub fn goertzel_mag(freq: u32, samples: &Vec<i32>, sample_rate: u32) -> (mag: u64)
    requires
        1 <= samples@.len() <= MAX_WINDOW,
        sample_rate >= 1,
    ensures
        mag == spec_goertzel_mag(freq as int, samples@, sample_rate as int),
{
    let len: usize = samples.len();
    proof {
        assert((len as int) * (freq as int) <= 0x10000 * 0xFFFFFFFF) by (nonlinear_arith)
            requires
                0 <= len as int <= 0x10000,
                0 <= freq as int <= 0xFFFFFFFF,
        ;
    }
    let prod: u64 = (len as u64) * (freq as u64);
    let k: u64 = (2 * prod + sample_rate as u64) / (2 * sample_rate as u64);
    proof {
        assert(2 * ((len as int) * (freq as int)) == 2 * (len as int) * (freq as int))
            by (nonlinear_arith);
    }
    let cosw: i32 = cos_cycle(k % (len as u64), len as u64);
    let sinw: i32 = sin_cycle(k % (len as u64), len as u64);
    let mut s1: i64 = 0;
    let mut s2: i64 = 0;
    let mut idx: usize = 0;
    while idx < len
        invariant
            len == samples@.len(),
            idx <= len,
            cosw == spec_cos_cycle(
                spec_goertzel_bin(freq as int, len as int, sample_rate as int) % (len as int),
                len as int,
            ),
            -32768 <= cosw <= 32768,
            (s1 as int, s2 as int) == spec_goertzel_state(cosw as int, samples@, idx as int),
            -(STATE_CLAMP as int) <= s1 as int <= STATE_CLAMP as int,
            -(STATE_CLAMP as int) <= s2 as int <= STATE_CLAMP as int,
        decreases len - idx,
    {
        let x: i64 = clamp_i64(samples[idx] as i64, -32768, 32768);
        proof {
            assert(-0x1000000000000 <= (cosw as int) * (s1 as int) <= 0x1000000000000)
                by (nonlinear_arith)
                requires
                    -32768 <= cosw as int <= 32768,
                    -0x200000000 <= s1 as int <= 0x200000000,
            ;
            lemma_div_trunc_bound((cosw as int) * (s1 as int), 16384, 0x400000000);
        }
        let t: i64 = div_i64_trunc((cosw as i64) * s1, 16384) - s2 + x;
        let s: i64 = clamp_i64(t, -STATE_CLAMP, STATE_CLAMP);
        s2 = s1;
        s1 = s;
        idx = idx + 1;
    }
    proof {
        assert(-0x1000000000000 <= (cosw as int) * (s2 as int) <= 0x1000000000000)
            by (nonlinear_arith)
            requires
                -32768 <= cosw as int <= 32768,
                -0x200000000 <= s2 as int <= 0x200000000,
        ;
        assert(-0x1000000000000 <= (sinw as int) * (s2 as int) <= 0x1000000000000)
            by (nonlinear_arith)
            requires
                -32768 <= sinw as int <= 32768,
                -0x200000000 <= s2 as int <= 0x200000000,
        ;
        lemma_div_trunc_bound((cosw as int) * (s2 as int), 32768, 0x200000000);
        lemma_div_trunc_bound((sinw as int) * (s2 as int), 32768, 0x200000000);
    }
    let re_part: i64 = s1 - div_i64_trunc((cosw as i64) * s2, 32768);
    let im_part: i64 = div_i64_trunc((sinw as i64) * s2, 32768);
    proof {
        assert(0 <= (re_part as int) * (re_part as int) <= 0x100000000000000000
            && 0 <= (im_part as int) * (im_part as int) <= 0x100000000000000000) by (nonlinear_arith)
            requires
                -0x400000000 <= re_part as int <= 0x400000000,
                -0x400000000 <= im_part as int <= 0x400000000,
        ;
    }
    let rr: u128 = ((re_part as i128) * (re_part as i128)) as u128;
    let ii: u128 = ((im_part as i128) * (im_part as i128)) as u128;
    let mag: u64 = isqrt_u128(rr + ii);
    proof {
        lemma_isqrt_unique((rr + ii) as int, mag as int);
    }
    mag
}

} // verus!
