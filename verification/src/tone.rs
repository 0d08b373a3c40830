//! Tone oscillators: a raw phase-accumulating sine generator (`Tone`) and a
//! click-free variant (`SmoothTone`) that ramps the volume linearly at both
//! ends of the tone.

use vstd::prelude::*;

verus! {

use vstd::arithmetic::div_mod::{
    lemma_add_mod_noop, lemma_small_mod, lemma_mod_multiples_vanish, lemma_multiply_divide_lt,
    lemma_multiply_divide_le, lemma_div_pos_is_pos,
};
use crate::math::{
    abs_int, div_trunc, div_i64_trunc, lemma_div_trunc_mul_id, lemma_div_trunc_scale_lt,
    lemma_div_trunc_scale_le,
};
use crate::misc::SampleRate;
use crate::trig::{sin_cycle, spec_sin_cycle};

/// Longest span, in samples, accepted for durations and fade windows.
pub const MAX_SPAN: u64 = 0x10000000000;

/// The sample a tone at `tone` Hz emits at one-based sample index `i` under
/// sample rate `sample_rate`: the fixed-point sine of the accumulated
/// phase.
pub open spec fn spec_tone_sample(tone: int, sample_rate: int, i: int) -> int {
    spec_sin_cycle((i * tone) % sample_rate, sample_rate)
}

/// Whether the `j`-th call of `next` (counting from zero) yields a sample
/// when the oscillator's index stands at `i0` and its cutoff is `duration`.
pub open spec fn spec_tone_yields(i0: int, duration: Option<u64>, j: int) -> bool {
    match duration {
        Some(d) => i0 + j + 1 <= d,
        None => true,
    }
}

/// A tone cut off after `n` samples, fresh or freshly reset (index zero),
/// yields a sample on call `j` exactly when `j < n`: exactly `n` samples
/// come out and every later call yields nothing, until the next reset.
pub proof fn lemma_tone_duration_exact(n: u64, j: int)
    requires
        j >= 0,
    ensures
        spec_tone_yields(0, Some(n), j) <==> j < n,
{
}

/// A static-frequency sine generator.
#[derive(Clone, Copy, Debug)]
pub struct Tone {
    /// One-based index of the current sample.
    i: u64,
    /// Accumulated phase: `(i * tone) % sample_rate`.
    phase: u64,
    /// The frequency of the tone in Hz.
    tone: u32,
    /// The output sample rate in Hz.
    sample_rate: u32,
    /// An optional cutoff in samples: past it the tone yields nothing
    /// until `reset`.
    duration: Option<u64>,
}

impl Tone {
    /// How many samples have been emitted since the last reset.
    pub closed spec fn index(self) -> u64 {
        self.i
    }

    /// The frequency in Hz.
    pub closed spec fn freq(self) -> u32 {
        self.tone
    }

    /// The output sample rate in Hz.
    pub closed spec fn rate(self) -> u32 {
        self.sample_rate
    }

    /// The optional cutoff, in samples.
    pub closed spec fn dur(self) -> Option<u64> {
        self.duration
    }

    pub closed spec fn phase_val(self) -> u64 {
        self.phase
    }

    /// The frequency is nonzero and below the sample rate, and the stored
    /// phase is the sample index times the frequency, reduced mod the rate.
    pub open spec fn wf(self) -> bool {
        &&& 0 < self.freq() < self.rate()
        &&& self.phase_val() == ((self.index() as int) * (self.freq() as int)) % (
        self.rate() as int)
    }

    /// A fresh tone at `tone` Hz against the output side of `sample_rate`.
    pub fn new(tone: u32, sample_rate: SampleRate) -> (r: Self)
        requires
            0 < tone < sample_rate.output,
        ensures
            r.wf(),
            r.index() == 0,
            r.freq() == tone,
            r.rate() == sample_rate.output,
            r.dur() is None,
    {
        proof {
            lemma_small_mod(0, sample_rate.output as nat);
        }
        Self { i: 0, phase: 0, tone, sample_rate: sample_rate.output, duration: None }
    }

    /// Builder: cut the tone off after `duration` samples.
    pub fn duration(self, duration: u64) -> (r: Self)
        ensures
            r.index() == self.index(),
            r.phase_val() == self.phase_val(),
            r.freq() == self.freq(),
            r.rate() == self.rate(),
            r.dur() == Some(duration),
            self.wf() ==> r.wf(),
    {
        Self { duration: Some(duration), ..self }
    }

    /// Rewind to the beginning; the cutoff, if any, is kept, so a finished
    /// tone plays again in full.
    pub fn reset(&mut self)
        ensures
            final(self).index() == 0,
            final(self).phase_val() == 0,
            final(self).freq() == old(self).freq(),
            final(self).rate() == old(self).rate(),
            final(self).dur() == old(self).dur(),
            old(self).wf() ==> final(self).wf(),
    {
        self.i = 0;
        self.phase = 0;
        proof {
            if old(self).wf() {
                lemma_small_mod(0, old(self).rate() as nat);
                assert((0int * (old(self).freq() as int)) % (old(self).rate() as int) == 0);
            }
        }
    }

    /// Advance one sample.  Yields the sine sample at the new index, or
    /// nothing once the index has passed the cutoff.
    pub fn next(&mut self) -> (r: Option<i32>)
        requires
            old(self).wf(),
            old(self).index() < u64::MAX,
        ensures
            final(self).wf(),
            final(self).index() == old(self).index() + 1,
            final(self).freq() == old(self).freq(),
            final(self).rate() == old(self).rate(),
            final(self).dur() == old(self).dur(),
            r is Some <==> spec_tone_yields(old(self).index() as int, old(self).dur(), 0),
            r matches Some(v) ==> v == spec_tone_sample(
                old(self).freq() as int,
                old(self).rate() as int,
                old(self).index() + 1,
            ) && -32768 <= v <= 32768,
    {
        let ghost i0 = self.i as int;
        let ghost t = self.tone as int;
        let ghost sr = self.sample_rate as int;
        self.i = self.i + 1;
        let t64: u64 = self.tone as u64;
        let sr64: u64 = self.sample_rate as u64;
        let p: u64 = self.phase + t64;
        self.phase = if p >= sr64 {
            p - sr64
        } else {
            p
        };
        proof {
            assert((i0 + 1) * t == i0 * t + t) by (nonlinear_arith);
            lemma_add_mod_noop(i0 * t, t, sr);
            lemma_small_mod(t as nat, sr as nat);
            let v = (i0 * t) % sr + t;
            if v < sr {
                lemma_small_mod(v as nat, sr as nat);
            } else {
                lemma_mod_multiples_vanish(1, v - sr, sr);
                lemma_small_mod((v - sr) as nat, sr as nat);
            }
        }
        if let Some(d) = self.duration {
            if self.i > d {
                return None;
            }
        }
        Some(sin_cycle(self.phase, sr64))
    }
}

/// The linear fade-in factor (in units of `1 / 32768`) at one-based sample
/// index `i` for a ramp of `in_point` samples.
pub open spec fn spec_fade_in_factor(i: int, in_point: int) -> int {
    if i < in_point {
        (i * 32768) / in_point
    } else {
        32768
    }
}

/// The linear fade-out factor at index `i` for a tone of `duration` samples
/// whose last `out_point` samples ramp down to silence.
pub open spec fn spec_fade_out_factor(i: int, duration: int, out_point: int) -> int {
    if i + out_point > duration {
        if i >= duration {
            0
        } else {
            ((duration - i) * 32768) / out_point
        }
    } else {
        32768
    }
}

/// A raw sample pushed through both fade ramps.
pub open spec fn spec_envelope(raw: int, i: int, duration: int, in_point: int, out_point: int) -> int {
    div_trunc(
        div_trunc(raw * spec_fade_in_factor(i, in_point), 32768) * spec_fade_out_factor(
            i,
            duration,
            out_point,
        ),
        32768,
    )
}

/// The sample a `SmoothTone` emits at index `i`.
pub open spec fn spec_smooth_sample(
    tone: int,
    rate: int,
    i: int,
    duration: int,
    in_point: int,
    out_point: int,
) -> int {
    spec_envelope(spec_tone_sample(tone, rate, i), i, duration, in_point, out_point)
}

/// Scaling a nonzero sample by a fade factor strictly below one strictly
/// shrinks its absolute value; scaling by the full factor returns it
/// unchanged.
pub proof fn lemma_fade_strictly_attenuates(raw: int, f: int)
    requires
        raw != 0,
        0 <= f < 32768,
    ensures
        abs_int(div_trunc(raw * f, 32768)) < abs_int(raw),
        div_trunc(raw * 32768, 32768) == raw,
{
    lemma_div_trunc_scale_lt(raw, f, 32768);
    lemma_div_trunc_mul_id(raw, 32768);
}

/// The envelope law: with the same underlying oscillator sample `raw`, a
/// sample strictly inside the fade-in window (the first one) is strictly
/// quieter than an unfaded mid-stream sample, and so is the final sample of
/// the fade-out window; mid-stream the envelope is the identity.
pub proof fn lemma_envelope_fades(raw: int, duration: int, in_point: int, out_point: int, mid: int)
    requires
        -32768 <= raw <= 32768,
        raw != 0,
        1 < in_point,
        1 <= out_point,
        in_point <= mid <= duration - out_point,
    ensures
        spec_envelope(raw, mid, duration, in_point, out_point) == raw,
        abs_int(spec_envelope(raw, 1, duration, in_point, out_point)) < abs_int(raw),
        abs_int(spec_envelope(raw, duration, duration, in_point, out_point)) < abs_int(raw),
{
    // Mid-stream: both factors are full scale.
    lemma_div_trunc_mul_id(raw, 32768);
    lemma_div_trunc_mul_id(div_trunc(raw * 32768, 32768), 32768);
    // First sample: the fade-in factor is a proper fraction.
    let f1 = spec_fade_in_factor(1, in_point);
    assert(f1 == 32768int / in_point);
    lemma_multiply_divide_le(32768, in_point, 16384);
    lemma_div_pos_is_pos(32768, in_point);
    assert(0 <= f1 < 32768);
    lemma_div_trunc_scale_lt(raw, f1, 32768);
    assert(spec_fade_out_factor(1, duration, out_point) == 32768);
    lemma_div_trunc_mul_id(div_trunc(raw * f1, 32768), 32768);
    // Final sample: the fade-out factor has reached zero.
    assert(spec_fade_in_factor(duration, in_point) == 32768);
    assert(spec_fade_out_factor(duration, duration, out_point) == 0);
    assert(div_trunc(raw * 32768, 32768) * 0 == 0) by (nonlinear_arith);
}

/// A tone that ramps its volume up over the first `in_point` samples and
/// down over the last `out_point` of its `duration` samples, so starting
/// and stopping it does not pop.  By default both ramps last one period of
/// the carrier.
#[derive(Clone, Copy, Debug)]
pub struct SmoothTone {
    /// The raw oscillator; it carries no cutoff of its own.
    inner: Tone,
    /// The nominal duration of the tone in samples.
    duration: u64,
    /// How many samples the volume ramps up for.
    in_point: u64,
    /// How many samples the volume ramps down for.
    out_point: u64,
}

impl SmoothTone {
    /// The raw oscillator state.
    pub closed spec fn inner_tone(self) -> Tone {
        self.inner
    }

    /// The nominal duration in samples.
    pub closed spec fn total(self) -> u64 {
        self.duration
    }

    /// The fade-in length in samples.
    pub closed spec fn fade_in(self) -> u64 {
        self.in_point
    }

    /// The fade-out length in samples.
    pub closed spec fn fade_out(self) -> u64 {
        self.out_point
    }

    pub open spec fn wf(self) -> bool {
        &&& self.inner_tone().wf()
        &&& self.inner_tone().dur() is None
        &&& self.total() <= MAX_SPAN
        &&& self.fade_in() <= MAX_SPAN
        &&& self.fade_out() <= MAX_SPAN
    }

    /// A smooth tone of `duration` samples at `tone` Hz; both fade ramps
    /// default to one period of the carrier.
    pub fn new(tone: u32, sample_rate: SampleRate, duration: u64) -> (r: Self)
        requires
            0 < tone < sample_rate.output,
            duration <= MAX_SPAN,
        ensures
            r.wf(),
            r.inner_tone().index() == 0,
            r.inner_tone().freq() == tone,
            r.inner_tone().rate() == sample_rate.output,
            r.total() == duration,
            r.fade_in() == sample_rate.output / tone,
            r.fade_out() == sample_rate.output / tone,
    {
        let in_out: u64 = (sample_rate.output / tone) as u64;
        Self { inner: Tone::new(tone, sample_rate), duration, in_point: in_out, out_point: in_out }
    }

    /// Rewind the oscillator to the beginning.
    pub fn reset(&mut self)
        ensures
            final(self).inner_tone().index() == 0,
            final(self).inner_tone().freq() == old(self).inner_tone().freq(),
            final(self).inner_tone().rate() == old(self).inner_tone().rate(),
            final(self).inner_tone().dur() == old(self).inner_tone().dur(),
            final(self).total() == old(self).total(),
            final(self).fade_in() == old(self).fade_in(),
            final(self).fade_out() == old(self).fade_out(),
            old(self).wf() ==> final(self).wf(),
    {
        self.inner.reset();
    }

    /// Builder: set the nominal duration, in samples.
    pub fn duration(self, duration: u64) -> (r: Self)
        requires
            duration <= MAX_SPAN,
        ensures
            r.inner_tone() == self.inner_tone(),
            r.total() == duration,
            r.fade_in() == self.fade_in(),
            r.fade_out() == self.fade_out(),
            self.wf() ==> r.wf(),
    {
        Self { duration, ..self }
    }

    /// Builder: set where the ramp-up completes, in samples.
    pub fn in_point(self, in_point: u64) -> (r: Self)
        requires
            in_point <= MAX_SPAN,
        ensures
            r.inner_tone() == self.inner_tone(),
            r.total() == self.total(),
            r.fade_in() == in_point,
            r.fade_out() == self.fade_out(),
            self.wf() ==> r.wf(),
    {
        Self { in_point, ..self }
    }

    /// Builder: set how long the ramp-down lasts, in samples.
    pub fn out_point(self, out_point: u64) -> (r: Self)
        requires
            out_point <= MAX_SPAN,
        ensures
            r.inner_tone() == self.inner_tone(),
            r.total() == self.total(),
            r.fade_in() == self.fade_in(),
            r.fade_out() == out_point,
            self.wf() ==> r.wf(),
    {
        Self { out_point, ..self }
    }

    /// Advance one sample: the raw oscillator sample scaled by the fade
    /// envelope.
    pub fn next(&mut self) -> (r: Option<i32>)
        requires
            old(self).wf(),
            old(self).inner_tone().index() < 0x7FFFFFFFFFFFFFFFu64,
        ensures
            final(self).wf(),
            final(self).inner_tone().index() == old(self).inner_tone().index() + 1,
            final(self).inner_tone().freq() == old(self).inner_tone().freq(),
            final(self).inner_tone().rate() == old(self).inner_tone().rate(),
            final(self).total() == old(self).total(),
            final(self).fade_in() == old(self).fade_in(),
            final(self).fade_out() == old(self).fade_out(),
            r matches Some(v) && v == spec_smooth_sample(
                old(self).inner_tone().freq() as int,
                old(self).inner_tone().rate() as int,
                old(self).inner_tone().index() + 1,
                old(self).total() as int,
                old(self).fade_in() as int,
                old(self).fade_out() as int,
            ) && -32768 <= v <= 32768,
    {
        let raw: i32 = match self.inner.next() {
            Some(v) => v,
            None => 0,  // unreachable: the inner tone has no cutoff
        };
        assert(-32768 <= raw <= 32768);
        let i: u64 = self.inner.i;
        let f_in: u64 = if i < self.in_point {
            proof {
                lemma_multiply_divide_lt((i as int) * 32768, self.in_point as int, 32768);
            }
            (i * 32768) / self.in_point
        } else {
            32768
        };
        assert(f_in <= 32768);
        proof {
            assert(-0x40000000 <= (raw as int) * (f_in as int) <= 0x40000000) by (nonlinear_arith)
                requires
                    -32768 <= raw as int <= 32768,
                    0 <= f_in as int <= 32768,
            ;
        }
        let v1: i64 = div_i64_trunc((raw as i64) * (f_in as i64), 32768);
        proof {
            lemma_div_trunc_scale_le(raw as int, f_in as int, 32768);
        }
        let f_out: u64 = if i + self.out_point > self.duration {
            if i >= self.duration {
                0
            } else {
                proof {
                    lemma_multiply_divide_lt(
                        ((self.duration - i) as int) * 32768,
                        self.out_point as int,
                        32768,
                    );
                }
                ((self.duration - i) * 32768) / self.out_point
            }
        } else {
            32768
        };
        proof {
            assert(-0x40000000 <= (v1 as int) * (f_out as int) <= 0x40000000) by (nonlinear_arith)
                requires
                    -32768 <= v1 as int <= 32768,
                    0 <= f_out as int <= 32768,
            ;
        }
        let v2: i64 = div_i64_trunc(v1 * (f_out as i64), 32768);
        proof {
            lemma_div_trunc_scale_le(v1 as int, f_out as int, 32768);
        }
        Some(v2 as i32)
    }
}

} // verus!
