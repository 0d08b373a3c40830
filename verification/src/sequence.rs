//! A tone sequencer: a list of finite tones played back to back, moving to
//! the next tone as each one's duration runs out.

use vstd::prelude::*;

verus! {

use crate::misc::SampleRate;
use crate::tone::{Tone, spec_tone_sample, spec_tone_yields, MAX_SPAN};


/// One queued tone, abstracted for specification.
pub struct ToneModel {
    /// The frequency in Hz.
    pub freq: int,
    /// The sample rate in Hz.
    pub rate: int,
    /// The sample index.
    pub index: int,
    /// The cutoff in samples.
    pub dur: int,
}

/// The sequencer's state, abstracted for specification.
pub struct SequenceModel {
    /// The queued tones.
    pub tones: Seq<ToneModel>,
    /// The tone currently playing.
    pub idx: int,
}

/// One whole sequencer step as a function of the abstract state: spent
/// tones are passed over (their index still advancing once, as the
/// oscillator does), and the first live tone emits its next sample.
pub open spec fn spec_sequence_step(m: SequenceModel) -> (SequenceModel, Option<int>)
    decreases m.tones.len() - m.idx,
{
    if m.idx < 0 || m.idx >= m.tones.len() {
        (m, None)
    } else {
        let t = m.tones[m.idx];
        let bumped = m.tones.update(m.idx, ToneModel { index: t.index + 1, ..t });
        if t.index + 1 <= t.dur {
            (
                SequenceModel { tones: bumped, ..m },
                Some(spec_tone_sample(t.freq, t.rate, t.index + 1)),
            )
        } else {
            spec_sequence_step(SequenceModel { tones: bumped, idx: m.idx + 1 })
        }
    }
}

/// A sequence of finite tones; pulling samples plays them in order.
pub struct Sequence {
    tones: Vec<Tone>,
    index: usize,
}

impl Sequence {
    /// The queued tones.
    pub closed spec fn tone_seq(self) -> Seq<Tone> {
        self.tones@
    }

    /// The tone currently playing (every earlier one is spent).
    pub closed spec fn idx(self) -> int {
        self.index as int
    }

    /// The abstract state the streaming layer's contracts fold over.
    pub open spec fn model(self) -> SequenceModel {
        SequenceModel {
            tones: Seq::new(
                self.tone_seq().len(),
                |i: int|
                    ToneModel {
                        freq: self.tone_seq()[i].freq() as int,
                        rate: self.tone_seq()[i].rate() as int,
                        index: self.tone_seq()[i].index() as int,
                        dur: self.tone_seq()[i].dur()->0 as int,
                    },
            ),
            idx: self.idx(),
        }
    }

    pub open spec fn wf(self) -> bool {
        &&& self.idx() <= self.tone_seq().len()
        &&& forall|i: int|
            0 <= i < self.tone_seq().len() ==> (#[trigger] self.tone_seq()[i]).wf()
                && self.tone_seq()[i].dur() is Some && self.tone_seq()[i].dur()->0 <= MAX_SPAN
                && self.tone_seq()[i].index() <= self.tone_seq()[i].dur()->0 + 1 && (i
                >= self.idx() ==> self.tone_seq()[i].index() <= self.tone_seq()[i].dur()->0)
    }

    /// An empty sequence.
    pub fn new() -> (r: Self)
        ensures
            r.wf(),
            r.tone_seq() == Seq::<Tone>::empty(),
            r.idx() == 0,
    {
        Self { tones: Vec::new(), index: 0 }
    }

    /// Append a tone of `duration` samples at `freq` Hz.
    pub fn add(&mut self, freq: u32, sample_rate: SampleRate, duration: u64)
        requires
            old(self).wf(),
            0 < freq < sample_rate.output,
            duration <= MAX_SPAN,
            old(self).tone_seq().len() < 0x10000,
        ensures
            final(self).wf(),
            final(self).idx() == old(self).idx(),
            final(self).tone_seq().len() == old(self).tone_seq().len() + 1,
            ({
                let t = final(self).tone_seq().last();
                t.index() == 0 && t.freq() == freq && t.rate() == sample_rate.output && t.dur()
                    == Some(duration)
            }),
            forall|i: int|
                0 <= i < old(self).tone_seq().len() ==> final(self).tone_seq()[i] == old(
                    self,
                ).tone_seq()[i],
    {
        self.tones.push(Tone::new(freq, sample_rate).duration(duration));
    }

    /// Pull the next sample: the current tone's, or the next tone's once
    /// the current one runs out; nothing once all are spent.
    pub fn next(&mut self) -> (r: Option<i32>)
        requires
            old(self).wf(),
        ensures
            final(self).wf(),
            (final(self).model(), match r {
                Some(v) => Some(v as int),
                None => None,
            }) == spec_sequence_step(old(self).model()),
            old(self).idx() <= final(self).idx() <= final(self).tone_seq().len(),
            final(self).tone_seq().len() == old(self).tone_seq().len(),
            r is None ==> final(self).idx() == final(self).tone_seq().len(),
            r matches Some(v) ==> ({
                let k = final(self).idx();
                let t = old(self).tone_seq()[k];
                &&& k < final(self).tone_seq().len()
                &&& spec_tone_yields(t.index() as int, t.dur(), 0)
                &&& v == spec_tone_sample(t.freq() as int, t.rate() as int, t.index() + 1)
                &&& final(self).tone_seq()[k].index() == t.index() + 1
            }),
            // Tones skipped on the way were already spent; later tones are
            // untouched.
            forall|i: int|
                old(self).idx() <= i < final(self).idx() ==> !spec_tone_yields(
                    (#[trigger] old(self).tone_seq()[i]).index() as int,
                    old(self).tone_seq()[i].dur(),
                    0,
                ),
            forall|i: int|
                0 <= i < old(self).idx() || final(self).idx() < i < old(self).tone_seq().len()
                    ==> final(self).tone_seq()[i] == old(self).tone_seq()[i],
    {
        while self.index < self.tones.len()
            invariant
                self.wf(),
                spec_sequence_step(old(self).model()) == spec_sequence_step(self.model()),
                old(self).idx() <= self.idx() <= self.tone_seq().len(),
                self.tone_seq().len() == old(self).tone_seq().len(),
                forall|i: int|
                    old(self).idx() <= i < self.idx() ==> !spec_tone_yields(
                        (#[trigger] old(self).tone_seq()[i]).index() as int,
                        old(self).tone_seq()[i].dur(),
                        0,
                    ),
                forall|i: int|
                    (self.idx() <= i < self.tone_seq().len() || 0 <= i < old(self).idx()) ==> (
                    #[trigger] self.tone_seq()[i]) == old(self).tone_seq()[i],
            decreases self.tone_seq().len() - self.idx(),
        {
            let ghost m_pre = self.model();
            let mut t = self.tones[self.index];
            let out = t.next();
            vstd::pervasive::VecAdditionalExecFns::set(&mut self.tones, self.index, t);
            match out {
                Some(v) => {
                    proof {
                        let tm = m_pre.tones[m_pre.idx];
                        assert(self.model().tones =~= m_pre.tones.update(
                            m_pre.idx,
                            ToneModel { index: tm.index + 1, ..tm },
                        ));
                    }
                    return Some(v);
                },
                None => {
                    self.index = self.index + 1;
                    proof {
                        let tm = m_pre.tones[m_pre.idx];
                        assert(self.model().tones =~= m_pre.tones.update(
                            m_pre.idx,
                            ToneModel { index: tm.index + 1, ..tm },
                        ));
                    }
                },
            }
        }
        None
    }
}

} // verus!
