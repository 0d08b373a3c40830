//! The streaming glue between variable-size audio callbacks and the
//! codecs' fixed analysis windows: channel down-mixing, chunk buffering,
//! and the callback-facing receive/send units built from the codecs.

use vstd::prelude::*;

verus! {

use vstd::arithmetic::div_mod::{
    lemma_fundamental_div_mod, lemma_mod_multiples_vanish, lemma_small_mod,
    lemma_multiply_divide_le, lemma_div_pos_is_pos,
};
use crate::dtmf::{
    bin_to_dtmf, dtmf_to_bin, spec_bin_to_dtmf, spec_dtmf_to_bin, spec_is_symbol, DtmfDecoder,
    DtmfDecoderModel, DtmfEncoder, DtmfEncoderModel, spec_dtmf_step, spec_dtmf_enc_step,
    lemma_candidate_is_symbol,
};
use crate::tone::spec_tone_sample;
use crate::goertzel::MAX_WINDOW;
use crate::misc::SampleRate;
use crate::morse::{
    MorseDecoder, MorseDecoderModel, MorseEncoder, MorseEncoderModel, spec_morse_step,
    spec_morse_enc_step, spec_encode, spec_send_samples, EncodeState, SendState,
};
use crate::tone::Tone;
use crate::math::{div_trunc, div_i64_trunc};

/// The sum of `samples[lo..hi]`.
pub open spec fn spec_sum_range(samples: Seq<i32>, lo: int, hi: int) -> int
    decreases hi - lo,
{
    if hi <= lo {
        0
    } else {
        spec_sum_range(samples, lo, hi - 1) + samples[hi - 1]
    }
}

/// The down-mixed (channel-averaged) value of frame `f`.
pub open spec fn spec_frame_avg(samples: Seq<i32>, channels: int, f: int) -> int {
    div_trunc(spec_sum_range(samples, f * channels, f * channels + channels), channels)
}

/// The mono stream of an interleaved multi-channel buffer: one averaged
/// sample per complete frame.
pub open spec fn spec_to_mono(samples: Seq<i32>, channels: int) -> Seq<i32> {
    Seq::new((samples.len() as int / channels) as nat, |f: int| spec_frame_avg(samples, channels, f) as i32)
}

/// Average an interleaved multi-channel buffer down to one mono channel,
/// one sample per complete frame; a trailing partial frame is dropped.
pub fn to_mono(samples: &Vec<i32>, channels: usize) -> (r: Vec<i32>)
    requires
        1 <= channels <= 0x10000,
        samples@.len() <= 0x1000000,
    ensures
        r@ =~= spec_to_mono(samples@, channels as int),
        r@.len() == samples@.len() as int / (channels as int),
{
    let frames: usize = samples.len() / channels;
    let mut out: Vec<i32> = Vec::new();
    let mut f: usize = 0;
    while f < frames
        invariant
            1 <= channels <= 0x10000,
            samples@.len() <= 0x1000000,
            frames == samples@.len() as int / (channels as int),
            f <= frames,
            out@.len() == f,
            forall|j: int| 0 <= j < f ==> out@[j] == spec_to_mono(samples@, channels as int)[j],
        decreases frames - f,
    {
        proof {
            // The frame lies inside the buffer.
            lemma_fundamental_div_mod(samples@.len() as int, channels as int);
            assert((f + 1) * (channels as int) <= frames * (channels as int)) by (nonlinear_arith)
                requires
                    f + 1 <= frames,
                    channels >= 1,
            ;
            assert(frames * (channels as int) <= samples@.len()) by (nonlinear_arith)
                requires
                    frames == samples@.len() as int / (channels as int),
                    channels >= 1,
                    samples@.len() as int == (channels as int) * (samples@.len() as int / (
                    channels as int)) + (samples@.len() as int) % (channels as int),
                    (samples@.len() as int) % (channels as int) >= 0,
            ;
        }
        proof {
            assert((f as int) * (channels as int) <= (f + 1) * (channels as int)
                && (f + 1) * (channels as int) == (f as int) * (channels as int) + channels)
                by (nonlinear_arith)
                requires
                    channels >= 1,
                    f >= 0,
            ;
        }
        let base: usize = f * channels;
        let mut sum: i64 = 0;
        let mut j: usize = 0;
        while j < channels
            invariant
                1 <= channels <= 0x10000,
                base == f * channels,
                samples@.len() <= 0x1000000,
                base + channels <= samples@.len(),
                j <= channels,
                sum == spec_sum_range(samples@, base as int, base as int + j as int),
                -(j as int) * 0x80000000 <= sum as int <= (j as int) * 0x7FFFFFFF,
            decreases channels - j,
        {
            proof {
                assert(-(j + 1) * 0x80000000 <= sum as int + samples@[base + j as int] <= (j + 1)
                    * 0x7FFFFFFF) by (nonlinear_arith)
                    requires
                        -(j as int) * 0x80000000 <= sum as int <= (j as int) * 0x7FFFFFFF,
                        -0x80000000 <= samples@[base + j as int] <= 0x7FFFFFFF,
                ;
            }
            sum = sum + samples[base + j] as i64;
            j = j + 1;
        }
        proof {
            assert((channels as int) * 0x7FFFFFFF <= (channels as int) * 0x80000000
                && (channels as int) * 0x80000000 == 0x80000000 * (channels as int))
                by (nonlinear_arith)
                requires
                    channels >= 1,
            ;
            crate::math::lemma_div_trunc_bound(sum as int, channels as int, 0x80000000);
            if sum >= 0 {
                assert(sum as int <= (channels as int) * 0x7FFFFFFF);
                lemma_multiply_divide_le(sum as int, channels as int, 0x7FFFFFFF);
            } else {
                lemma_div_pos_is_pos(-(sum as int), channels as int);
            }
        }
        let avg: i64 = div_i64_trunc(sum, channels as i64);
        out.push(avg as i32);
        f = f + 1;
    }
    out
}

/// Accumulates incoming samples and hands them out again in fixed-size
/// analysis chunks, so decoders see exact windows no matter how the audio
/// runtime sizes its callbacks.
pub struct ChunkBuffer {
    buf: Vec<i32>,
    chunk_size: usize,
}

impl ChunkBuffer {
    /// The samples waiting to be chunked, oldest first.
    pub closed spec fn contents(self) -> Seq<i32> {
        self.buf@
    }

    /// The fixed chunk size.
    pub closed spec fn chunk(self) -> int {
        self.chunk_size as int
    }

    pub open spec fn wf(self) -> bool {
        1 <= self.chunk() <= MAX_WINDOW
    }

    /// An empty buffer that deals out chunks of `chunk_size` samples.
    pub fn new(chunk_size: usize) -> (r: Self)
        requires
            1 <= chunk_size <= MAX_WINDOW,
        ensures
            r.wf(),
            r.contents() == Seq::<i32>::empty(),
            r.chunk() == chunk_size,
    {
        Self { buf: Vec::new(), chunk_size }
    }

    /// How many samples are waiting.
    pub fn buffered(&self) -> (r: usize)
        ensures
            r == self.contents().len(),
    {
        self.buf.len()
    }

    /// The chunk size.
    pub fn chunk_size(&self) -> (r: usize)
        ensures
            r == self.chunk(),
    {
        self.chunk_size
    }

    /// Append incoming samples.
    pub fn push(&mut self, samples: &Vec<i32>)
        requires
            old(self).contents().len() + samples@.len() <= 0x10000000,
        ensures
            final(self).contents() == old(self).contents() + samples@,
            final(self).chunk() == old(self).chunk(),
            old(self).wf() ==> final(self).wf(),
    {
        let mut incoming = samples.clone();
        self.buf.append(&mut incoming);
        proof {
            assert(self.buf@ =~= old(self).contents() + samples@);
        }
    }

    /// Whether a full chunk is available.
    pub fn has_chunk(&self) -> (r: bool)
        ensures
            r <==> self.contents().len() >= self.chunk(),
    {
        self.buf.len() >= self.chunk_size
    }

    /// Remove and return the oldest chunk.
    pub fn take_chunk(&mut self) -> (r: Vec<i32>)
        requires
            old(self).wf(),
            old(self).contents().len() >= old(self).chunk(),
        ensures
            final(self).wf(),
            final(self).chunk() == old(self).chunk(),
            r@ == old(self).contents().take(old(self).chunk()),
            final(self).contents() == old(self).contents().skip(old(self).chunk()),
            r@.len() == old(self).chunk(),
    {
        let mut chunk: Vec<i32> = Vec::new();
        let mut i: usize = 0;
        while i < self.chunk_size
            invariant
                self == old(self),
                old(self).wf(),
                old(self).contents().len() >= old(self).chunk(),
                i <= self.chunk_size,
                chunk@ =~= old(self).contents().take(i as int),
            decreases self.chunk_size - i,
        {
            chunk.push(self.buf[i]);
            proof {
                assert(chunk@ =~= old(self).contents().take(i + 1));
            }
            i = i + 1;
        }
        let rest = self.buf.split_off(self.chunk_size);
        self.buf = rest;
        chunk
    }
}


/// The analysis window both receive units use, in samples.
pub const STREAM_CHUNK: usize = 512;

/// Wrap a payload's DTMF symbols with the session markers: `A#` opens a
/// transmission and `#D` closes it, so a receiver can delimit it.
pub fn frame_payload(data: &Vec<u8>) -> (r: Vec<u8>)
    requires
        data@.len() <= 0x100000,
    ensures
        r@ =~= seq![65u8, 35u8] + spec_bin_to_dtmf(data@) + seq![35u8, 68u8],
        forall|i: int| 0 <= i < r@.len() ==> spec_is_symbol(#[trigger] r@[i]),
        r@.len() == 2 * data@.len() + 4,
{
    let mut out: Vec<u8> = Vec::new();
    out.push(65);
    out.push(35);
    let mut body = bin_to_dtmf(data);
    out.append(&mut body);
    out.push(35);
    out.push(68);
    proof {
        assert(out@ =~= seq![65u8, 35u8] + spec_bin_to_dtmf(data@) + seq![35u8, 68u8]);
    }
    out
}

/// The position of the last start marker `A#` at or before `from`, or -1.
pub open spec fn spec_rfind_start(h: Seq<u8>, from: int) -> int
    decreases from + 1,
{
    if from < 0 {
        -1
    } else if h[from] == 65 && h[from + 1] == 35 {
        from
    } else {
        spec_rfind_start(h, from - 1)
    }
}

/// Scan backward from `from` for the start marker `A#`.
fn rfind_start(h: &Vec<u8>, from: usize) -> (r: Option<usize>)
    requires
        from + 2 <= h@.len() <= 0x10000,
    ensures
        r is None ==> spec_rfind_start(h@, from as int) == -1,
        r matches Some(p) ==> p == spec_rfind_start(h@, from as int) && p + 2 <= h@.len(),
{
    let mut i: usize = from + 1;
    while i > 0
        invariant
            i <= from + 1,
            from + 2 <= h@.len(),
            spec_rfind_start(h@, from as int) == spec_rfind_start(h@, i as int - 1),
        decreases i,
    {
        i = i - 1;
        if h[i] == 65 && h[i + 1] == 35 {
            return Some(i);
        }
    }
    None
}

/// What one confirmed symbol does to the session history: it is appended
/// (the oldest entry leaving if the history is at capacity), and if it
/// completes the end marker `#D`, the payload back to the last start
/// marker `A#` is decoded and the history cleared.
pub open spec fn spec_after_symbol(h0: Seq<u8>, sym: u8) -> Seq<u8> {
    let base = if h0.len() >= 0xFFFF {
        h0.skip(1)
    } else {
        h0
    };
    base.push(sym)
}

/// Push one confirmed symbol into the session history; a completed
/// transmission comes back as its decoded payload.
fn handle_symbol(history: &mut Vec<u8>, sym: u8) -> (r: Option<Vec<u8>>)
    requires
        forall|i: int| 0 <= i < old(history)@.len() ==> spec_is_symbol(#[trigger] old(history)@[i]),
        spec_is_symbol(sym),
        old(history)@.len() <= 0xFFFF,
    ensures
        forall|i: int| 0 <= i < final(history)@.len() ==> spec_is_symbol(#[trigger] final(history)@[i]),
        final(history)@.len() <= 0xFFFF,
        final(history)@ == spec_session_step(old(history)@, sym).0,
        r is Some <==> spec_session_step(old(history)@, sym).1 is Some,
        r matches Some(p) ==> Some(p@) == spec_session_step(old(history)@, sym).1,
{
    if history.len() >= 0xFFFF {
        history.remove(0);
    }
    history.push(sym);
    let len = history.len();
    if len > 2 && history[len - 2] == 35 && history[len - 1] == 68 {
        if let Some(start) = rfind_start(history, len - 2) {
            let mut payload_syms: Vec<u8> = Vec::new();
            let mut i: usize = if start + 2 <= len - 2 {
                start + 2
            } else {
                len - 2
            };
            let ghost lo = i as int;
            while i < len - 2
                invariant
                    0 <= lo <= i as int <= len - 2,
                    len == history@.len(),
                    2 < len <= 0x10000,
                    forall|j: int|
                        0 <= j < history@.len() ==> spec_is_symbol(#[trigger] history@[j]),
                    payload_syms@ =~= history@.subrange(lo, i as int),
                decreases len - i,
            {
                payload_syms.push(history[i]);
                proof {
                    assert(payload_syms@ =~= history@.subrange(lo, i + 1));
                }
                i = i + 1;
            }
            let payload = dtmf_to_bin(&payload_syms);
            history.clear();
            return Some(payload);
        }
    }
    None
}

/// Scatter a mono frame stream across an interleaved multi-channel
/// buffer: every sample of frame `f` carries `frames[f]`.
pub fn write_interleaved(output: &mut Vec<i32>, frames: &Vec<i32>, channels: usize)
    requires
        1 <= channels <= 0x10000,
        old(output)@.len() <= 0x1000000,
        frames@.len() == (old(output)@.len() + channels - 1) as int / (channels as int),
    ensures
        final(output)@.len() == old(output)@.len(),
        forall|i: int|
            0 <= i < final(output)@.len() ==> final(output)@[i] == frames@[i / (channels as int)],
{
    let len = output.len();
    let mut i: usize = 0;
    while i < len
        invariant
            1 <= channels <= 0x10000,
            len == output@.len() <= 0x1000000,
            frames@.len() == (len + channels - 1) as int / (channels as int),
            i <= len,
            forall|j: int| 0 <= j < i ==> output@[j] == frames@[j / (channels as int)],
        decreases len - i,
    {
        proof {
            vstd::arithmetic::div_mod::lemma_div_is_ordered(
                i as int,
                (len - 1) as int,
                channels as int,
            );
            vstd::arithmetic::div_mod::lemma_div_plus_one((len - 1) as int, channels as int);
            assert((len - 1) as int + (channels as int) >= (len + channels - 1) as int);
            vstd::arithmetic::div_mod::lemma_div_is_ordered(
                (len + channels - 1) as int,
                (len - 1) as int + (channels as int),
                channels as int,
            );
            vstd::arithmetic::div_mod::lemma_div_pos_is_pos(i as int, channels as int);
        }
        let v = frames[i / channels];
        vstd::pervasive::VecAdditionalExecFns::set(output, i, v);
        i = i + 1;
    }
}



/// What one confirmed symbol does to the session as a function: the new
/// history and, when the symbol completes the end marker, the decoded
/// payload.
pub open spec fn spec_session_step(h0: Seq<u8>, sym: u8) -> (Seq<u8>, Option<Seq<u8>>) {
    let h = spec_after_symbol(h0, sym);
    let ended = h.len() > 2 && h[h.len() - 2] == 35 && h[h.len() - 1] == 68;
    let start = spec_rfind_start(h, h.len() - 2);
    if ended && start >= 0 {
        (
            Seq::empty(),
            Some(
                spec_dtmf_to_bin(
                    if start + 2 <= h.len() - 2 {
                        h.subrange(start + 2, h.len() - 2)
                    } else {
                        Seq::empty()
                    },
                ),
            ),
        )
    } else {
        (h, None)
    }
}

/// The DTMF decoder and the session framing folded together over every
/// full `chunk`-sized window of `data`: the final decoder state, the
/// final session history, and the payloads of the transmissions completed
/// along the way.
pub open spec fn spec_dtmf_session_run(
    m: DtmfDecoderModel,
    h: Seq<u8>,
    data: Seq<i32>,
    chunk: int,
) -> (DtmfDecoderModel, Seq<u8>, Seq<Seq<u8>>)
    decreases data.len(),
{
    if chunk <= 0 || data.len() < chunk {
        (m, h, Seq::empty())
    } else {
        let step = spec_dtmf_step(m, data.take(chunk));
        let after = match step.1 {
            Some(sym) => spec_session_step(h, sym),
            None => (h, None),
        };
        let rest = spec_dtmf_session_run(step.0, after.0, data.skip(chunk), chunk);
        (rest.0, rest.1, spec_opt_seq(after.1) + rest.2)
    }
}

/// Receive DTMF audio: down-mix, chunk, decode, and collect completed
/// transmissions' payloads.
pub struct DtmfReceive {
    work: ChunkBuffer,
    decode: DtmfDecoder,
    history: Vec<u8>,
}

impl DtmfReceive {
    /// Samples waiting for a full analysis chunk.
    pub closed spec fn buffer(self) -> Seq<i32> {
        self.work.contents()
    }

    /// The decoder's abstract state.
    pub closed spec fn decoder_model(self) -> DtmfDecoderModel {
        self.decode.model()
    }

    /// The session history of confirmed symbols.
    pub closed spec fn session(self) -> Seq<u8> {
        self.history@
    }

    /// Samples the decoder has consumed.
    pub closed spec fn seen(self) -> int {
        self.decode.seen()
    }

    pub closed spec fn wf(self) -> bool {
        &&& self.work.wf()
        &&& self.work.chunk() == STREAM_CHUNK
        &&& self.work.contents().len() < STREAM_CHUNK
        &&& self.decode.wf()
        &&& self.history@.len() <= 0xFFFF
        &&& (forall|i: int| 0 <= i < self.history@.len() ==> crate::dtmf::spec_is_symbol(
            #[trigger] self.history@[i],
        ))
    }

    /// A fresh receiver against the input side of `sample_rate`.
    pub fn new(sample_rate: SampleRate) -> (r: Self)
        requires
            sample_rate.input >= 1,
        ensures
            r.wf(),
            r.buffer().len() == 0,
            r.session() == Seq::<u8>::empty(),
            r.seen() == 0,
            r.decoder_model() == (DtmfDecoderModel {
                history: Seq::<u8>::empty(),
                last: None,
                seen: 0,
                emit_at: 0,
                rate: sample_rate.input as int,
            }),
    {
        Self {
            work: ChunkBuffer::new(STREAM_CHUNK),
            decode: DtmfDecoder::new(sample_rate),
            history: Vec::new(),
        }
    }

    /// Feed interleaved input audio.  The mono mix is buffered; every full
    /// chunk is decoded in arrival order, confirmed symbols are folded
    /// into the session history, and every transmission completed by this
    /// call comes back as its decoded payload.
    #[verifier::rlimit(60)]
    pub fn input(&mut self, samples: &Vec<i32>, channels: usize) -> (r: Vec<Vec<u8>>)
        requires
            old(self).wf(),
            1 <= channels <= 0x10000,
            samples@.len() <= 0x1000000,
            old(self).seen() + samples@.len() <= 0x4000000000000,
        ensures
            final(self).wf(),
            // Chunk bookkeeping: exactly the whole chunks are drained, in
            // order, and the remainder stays buffered.
            ({
                let total = old(self).buffer() + spec_to_mono(samples@, channels as int);
                let run = spec_dtmf_session_run(
                    old(self).decoder_model(),
                    old(self).session(),
                    total,
                    STREAM_CHUNK as int,
                );
                &&& final(self).buffer() == total.skip(
                    total.len() - final(self).buffer().len(),
                )
                &&& final(self).buffer().len() == (total.len() as int) % (STREAM_CHUNK as int)
                // Exactly the full chunks run through the decoder, in
                // order, their confirmed symbols through the session
                // framing; the returned payloads are the completed
                // transmissions.
                &&& final(self).decoder_model() == run.0
                &&& final(self).session() == run.1
                &&& r@.map_values(|v: Vec<u8>| v@) == run.2
            }),
    {
        let mono = to_mono(samples, channels);
        self.work.push(&mono);
        let ghost total = old(self).buffer() + spec_to_mono(samples@, channels as int);
        let ghost m0 = old(self).decoder_model();
        let ghost h0 = old(self).session();
        let mut out: Vec<Vec<u8>> = Vec::new();
        let mut remaining: usize = self.work.buffered();
        proof {
            assert(total.skip(0) =~= total);
        }
        while remaining >= STREAM_CHUNK
            invariant
                self.work.wf(),
                self.work.chunk() == STREAM_CHUNK,
                self.decode.wf(),
                self.history@.len() <= 0xFFFF,
                forall|i: int| 0 <= i < self.history@.len() ==> crate::dtmf::spec_is_symbol(
                    #[trigger] self.history@[i],
                ),
                remaining == self.work.contents().len(),
                remaining <= total.len(),
                self.decode.seen() + remaining <= 0x4000000000000 + STREAM_CHUNK,
                self.decode.seen() >= 0,
                total.len() <= 0x2000000,
                self.work.contents() == total.skip(total.len() - remaining),
                (total.len() - remaining) % (STREAM_CHUNK as int) == 0,
                spec_dtmf_session_run(m0, h0, total, STREAM_CHUNK as int).0
                    == spec_dtmf_session_run(
                    self.decode.model(),
                    self.history@,
                    total.skip(total.len() - remaining),
                    STREAM_CHUNK as int,
                ).0,
                spec_dtmf_session_run(m0, h0, total, STREAM_CHUNK as int).1
                    == spec_dtmf_session_run(
                    self.decode.model(),
                    self.history@,
                    total.skip(total.len() - remaining),
                    STREAM_CHUNK as int,
                ).1,
                spec_dtmf_session_run(m0, h0, total, STREAM_CHUNK as int).2 == out@.map_values(
                    |v: Vec<u8>| v@,
                ) + spec_dtmf_session_run(
                    self.decode.model(),
                    self.history@,
                    total.skip(total.len() - remaining),
                    STREAM_CHUNK as int,
                ).2,
            decreases remaining,
        {
            let ghost suffix = total.skip(total.len() - remaining);
            let ghost m_pre = self.decode.model();
            let ghost h_pre = self.history@;
            let ghost out_pre = out@;
            let chunk = self.work.take_chunk();
            proof {
                vstd::seq_lib::lemma_seq_skip_of_skip(
                    total,
                    total.len() - remaining,
                    STREAM_CHUNK as int,
                );
                assert(self.work.contents() =~= total.skip(total.len() - (remaining
                    - STREAM_CHUNK)));
                assert(chunk@ =~= suffix.take(STREAM_CHUNK as int));
                assert(self.work.contents() =~= suffix.skip(STREAM_CHUNK as int));
            }
            remaining = remaining - STREAM_CHUNK;
            let sym_opt = self.decode.process(&chunk);
            if let Some(sym) = sym_opt {
                proof {
                    lemma_candidate_is_symbol(chunk@, self.decode.rate() as int);
                }
                if let Some(payload) = handle_symbol(&mut self.history, sym) {
                    out.push(payload);
                }
            }
            proof {
                let step = spec_dtmf_step(m_pre, suffix.take(STREAM_CHUNK as int));
                let after = match step.1 {
                    Some(sym) => spec_session_step(h_pre, sym),
                    None => (h_pre, None),
                };
                let rest = spec_dtmf_session_run(
                    step.0,
                    after.0,
                    suffix.skip(STREAM_CHUNK as int),
                    STREAM_CHUNK as int,
                );
                assert(spec_dtmf_session_run(m_pre, h_pre, suffix, STREAM_CHUNK as int) == (
                    rest.0,
                    rest.1,
                    spec_opt_seq(after.1) + rest.2,
                ));
                assert(out@.map_values(|v: Vec<u8>| v@) =~= out_pre.map_values(|v: Vec<u8>| v@)
                    + spec_opt_seq(after.1));
                assert((out_pre.map_values(|v: Vec<u8>| v@) + spec_opt_seq(after.1)) + rest.2
                    =~= out_pre.map_values(|v: Vec<u8>| v@) + (spec_opt_seq(after.1) + rest.2));
            }
        }
        proof {
            let k = (total.len() - remaining) / (STREAM_CHUNK as int);
            lemma_fundamental_div_mod(total.len() - remaining, STREAM_CHUNK as int);
            lemma_mod_multiples_vanish(k, remaining as int, STREAM_CHUNK as int);
            lemma_small_mod(remaining as nat, STREAM_CHUNK as nat);
        }
        out
    }
}


/// An optional emission, as the zero- or one-element sequence it adds to
/// a transcript.
pub open spec fn spec_opt_seq<T>(o: Option<T>) -> Seq<T> {
    match o {
        Some(v) => seq![v],
        None => Seq::empty(),
    }
}

/// The Morse decoder folded over every full `chunk`-sized window of
/// `data`, in order: the final state and the collected emissions.
pub open spec fn spec_morse_run(m: MorseDecoderModel, data: Seq<i32>, chunk: int) -> (
    MorseDecoderModel,
    Seq<char>,
)
    decreases data.len(),
{
    if chunk <= 0 || data.len() < chunk {
        (m, Seq::empty())
    } else {
        let step = spec_morse_step(m, data.take(chunk));
        let rest = spec_morse_run(step.0, data.skip(chunk), chunk);
        (rest.0, spec_opt_seq(step.1) + rest.1)
    }
}

/// Receive Morse audio: down-mix, chunk, decode, and collect the decoded
/// characters.
pub struct MorseReceive {
    work: ChunkBuffer,
    decode: MorseDecoder,
}

impl MorseReceive {
    /// Samples waiting for a full analysis chunk.
    pub closed spec fn buffer(self) -> Seq<i32> {
        self.work.contents()
    }

    /// The decoder's abstract state.
    pub closed spec fn decoder_model(self) -> MorseDecoderModel {
        self.decode.model()
    }

    /// Samples the decoder has consumed.
    pub closed spec fn seen(self) -> int {
        self.decode.seen()
    }

    pub closed spec fn wf(self) -> bool {
        &&& self.work.wf()
        &&& self.work.chunk() == STREAM_CHUNK
        &&& self.work.contents().len() < STREAM_CHUNK
        &&& self.decode.wf()
    }

    /// A fresh receiver listening for `frequency` with the given dit
    /// length.
    pub fn new(sample_rate: SampleRate, frequency: u32, dit_length: u64) -> (r: Self)
        requires
            sample_rate.input >= 1,
            1 <= dit_length <= 60000,
        ensures
            r.wf(),
            r.buffer().len() == 0,
            r.seen() == 0,
            r.decoder_model() == (MorseDecoderModel {
                glyph: Seq::<crate::morse::Morse>::empty(),
                tone_on: false,
                seen: 0,
                edge_at: 0,
                rate: sample_rate.input as int,
                dit: dit_length as int,
                freq: frequency as int,
            }),
    {
        Self {
            work: ChunkBuffer::new(STREAM_CHUNK),
            decode: MorseDecoder::new(sample_rate, frequency, dit_length),
        }
    }

    /// Whether the transmission is over: no tone and no edge for a while.
    pub fn is_idle(&self) -> (r: bool)
        requires
            self.wf(),
        ensures
            r <==> !self.decoder_model().tone_on && crate::morse::spec_elapsed_ms(
                self.decoder_model().seen,
                self.decoder_model().edge_at,
                self.decoder_model().rate,
            ) >= crate::morse::IDLE_DITS * self.decoder_model().dit,
    {
        self.decode.is_idle()
    }

    /// Feed interleaved input audio; every character decoded from the
    /// full chunks of this call comes back, in order.
    pub fn input(&mut self, samples: &Vec<i32>, channels: usize) -> (r: Vec<char>)
        requires
            old(self).wf(),
            1 <= channels <= 0x10000,
            samples@.len() <= 0x1000000,
            old(self).seen() + samples@.len() <= 0x2000000000000,
        ensures
            final(self).wf(),
            ({
                let total = old(self).buffer() + spec_to_mono(samples@, channels as int);
                let run = spec_morse_run(old(self).decoder_model(), total, STREAM_CHUNK as int);
                &&& final(self).buffer() == total.skip(
                    total.len() - final(self).buffer().len(),
                )
                &&& final(self).buffer().len() == (total.len() as int) % (STREAM_CHUNK as int)
                // Exactly the full chunks run through the decoder, in
                // order; the returned characters are its emissions.
                &&& final(self).decoder_model() == run.0
                &&& r@ == run.1
            }),
    {
        let mono = to_mono(samples, channels);
        self.work.push(&mono);
        let ghost total = old(self).buffer() + spec_to_mono(samples@, channels as int);
        let ghost m0 = old(self).decoder_model();
        let mut out: Vec<char> = Vec::new();
        let mut remaining: usize = self.work.buffered();
        proof {
            assert(total.skip(0) =~= total);
        }
        while remaining >= STREAM_CHUNK
            invariant
                self.work.wf(),
                self.work.chunk() == STREAM_CHUNK,
                self.decode.wf(),
                remaining == self.work.contents().len(),
                remaining <= total.len(),
                self.decode.seen() + remaining <= 0x2000000000000 + STREAM_CHUNK,
                self.decode.seen() >= 0,
                total.len() <= 0x2000000,
                self.work.contents() == total.skip(total.len() - remaining),
                (total.len() - remaining) % (STREAM_CHUNK as int) == 0,
                spec_morse_run(m0, total, STREAM_CHUNK as int).0 == spec_morse_run(
                    self.decode.model(),
                    total.skip(total.len() - remaining),
                    STREAM_CHUNK as int,
                ).0,
                spec_morse_run(m0, total, STREAM_CHUNK as int).1 == out@ + spec_morse_run(
                    self.decode.model(),
                    total.skip(total.len() - remaining),
                    STREAM_CHUNK as int,
                ).1,
            decreases remaining,
        {
            let ghost suffix = total.skip(total.len() - remaining);
            let ghost m_pre = self.decode.model();
            let ghost out_pre = out@;
            let chunk = self.work.take_chunk();
            proof {
                vstd::seq_lib::lemma_seq_skip_of_skip(
                    total,
                    total.len() - remaining,
                    STREAM_CHUNK as int,
                );
                assert(self.work.contents() =~= total.skip(total.len() - (remaining
                    - STREAM_CHUNK)));
                assert(chunk@ =~= suffix.take(STREAM_CHUNK as int));
                assert(self.work.contents() =~= suffix.skip(STREAM_CHUNK as int));
            }
            remaining = remaining - STREAM_CHUNK;
            let emitted = self.decode.process(&chunk);
            if let Some(c) = emitted {
                out.push(c);
            }
            proof {
                let step = spec_morse_step(m_pre, suffix.take(STREAM_CHUNK as int));
                let rest = spec_morse_run(
                    step.0,
                    suffix.skip(STREAM_CHUNK as int),
                    STREAM_CHUNK as int,
                );
                assert(spec_morse_run(m_pre, suffix, STREAM_CHUNK as int) == (
                    rest.0,
                    spec_opt_seq(step.1) + rest.1,
                ));
                assert(out@ =~= out_pre + spec_opt_seq(step.1));
                assert((out_pre + spec_opt_seq(step.1)) + rest.1 =~= out_pre + (spec_opt_seq(
                    step.1,
                ) + rest.1));
            }
        }
        proof {
            let k = (total.len() - remaining) / (STREAM_CHUNK as int);
            lemma_fundamental_div_mod(total.len() - remaining, STREAM_CHUNK as int);
            lemma_mod_multiples_vanish(k, remaining as int, STREAM_CHUNK as int);
            lemma_small_mod(remaining as nat, STREAM_CHUNK as nat);
        }
        out
    }
}


/// The DTMF sender's state, abstracted for specification: the leader tone
/// and the encoder behind it.
pub struct DtmfSendModel {
    /// The leader oscillator's sample index.
    pub head_index: int,
    /// Leader samples still to play.
    pub head_left: int,
    /// The leader frequency in Hz.
    pub head_freq: int,
    /// The output sample rate.
    pub rate: int,
    /// The symbol encoder.
    pub enc: DtmfEncoderModel,
}

/// One sender step: the leader tone while it lasts, then the encoder
/// (silence once its queue is spent).
pub open spec fn spec_dtmf_send_step(m: DtmfSendModel) -> (DtmfSendModel, int) {
    if m.head_left > 0 {
        (
            DtmfSendModel { head_index: m.head_index + 1, head_left: m.head_left - 1, ..m },
            spec_tone_sample(m.head_freq, m.rate, m.head_index + 1),
        )
    } else {
        let step = spec_dtmf_enc_step(m.enc);
        (
            DtmfSendModel { enc: step.0, ..m },
            match step.1 {
                Some(v) => v,
                None => 0,
            },
        )
    }
}

/// The sender pulled `n` times: the final state and the emitted samples.
pub open spec fn spec_dtmf_send_run(m: DtmfSendModel, n: nat) -> (DtmfSendModel, Seq<int>)
    decreases n,
{
    if n == 0 {
        (m, Seq::empty())
    } else {
        let step = spec_dtmf_send_step(m);
        let rest = spec_dtmf_send_run(step.0, (n - 1) as nat);
        (rest.0, seq![step.1] + rest.1)
    }
}

/// Pulling `n` times emits `n` samples.
pub proof fn lemma_dtmf_send_run_len(m: DtmfSendModel, n: nat)
    ensures
        spec_dtmf_send_run(m, n).1.len() == n,
    decreases n,
{
    if n > 0 {
        lemma_dtmf_send_run_len(spec_dtmf_send_step(m).0, (n - 1) as nat);
    }
}

/// Send a payload as DTMF audio: a one-second leader tone (so squelch and
/// VOX systems open before data starts), then the framed symbol stream.
pub struct DtmfSend {
    head: Tone,
    head_left: u32,
    encode: DtmfEncoder,
}

impl DtmfSend {
    /// The symbol queue still to be played.
    pub closed spec fn queue(self) -> Seq<u8> {
        self.encode.queue()
    }

    /// The sender's abstract state.
    pub closed spec fn model(self) -> DtmfSendModel {
        DtmfSendModel {
            head_index: self.head.index() as int,
            head_left: self.head_left as int,
            head_freq: self.head.freq() as int,
            rate: self.head.rate() as int,
            enc: self.encode.model(),
        }
    }

    /// Leader-tone samples still to be played.
    pub closed spec fn head_remaining(self) -> int {
        self.head_left as int
    }

    pub closed spec fn wf(self) -> bool {
        &&& self.encode.wf()
        &&& self.head.wf()
        &&& self.head.dur() is None
        &&& self.head.index() + self.head_left <= 0x100000000u64
    }

    /// A sender for `data`, framed with the session markers, against the
    /// output side of `sample_rate`.
    pub fn new(data: &Vec<u8>, sample_rate: SampleRate) -> (r: Self)
        requires
            sample_rate.output >= 8000,
            data@.len() <= 0x70000,
        ensures
            r.wf(),
            r.queue() =~= seq![65u8, 35u8] + spec_bin_to_dtmf(data@) + seq![35u8, 68u8],
            r.head_remaining() == sample_rate.output,
            // The full start state: a fresh 440 Hz leader for one second,
            // then a fresh encoder over the framed payload.
            r.model() == (DtmfSendModel {
                head_index: 0,
                head_left: sample_rate.output as int,
                head_freq: 440,
                rate: sample_rate.output as int,
                enc: DtmfEncoderModel {
                    queue: seq![65u8, 35u8] + spec_bin_to_dtmf(data@) + seq![35u8, 68u8],
                    pos: 0,
                    remaining: 0,
                    cooldown: 0,
                    low_freq: 1209,
                    high_freq: 697,
                    tone_index: 0,
                    rate: sample_rate.output as int,
                    time: sample_rate.output as int / 2,
                },
            }),
    {
        let framed = frame_payload(data);
        proof {
            assert(framed@ =~= seq![65u8, 35u8] + spec_bin_to_dtmf(data@) + seq![35u8, 68u8]);
        }
        Self {
            head: Tone::new(440, sample_rate),
            head_left: sample_rate.output,
            encode: DtmfEncoder::new(&framed, sample_rate),
        }
    }

    /// Fill an interleaved output buffer: one new mono sample per frame,
    /// copied across the channels.  The leader tone plays first, then the
    /// encoder; silence follows once the queue is spent.
    pub fn output(&mut self, output: &mut Vec<i32>, channels: usize)
        requires
            old(self).wf(),
            1 <= channels <= 0x10000,
            old(output)@.len() <= 0x1000000,
        ensures
            final(self).wf(),
            final(output)@.len() == old(output)@.len(),
            // The sender is pulled once per frame; every sample of frame
            // `f` carries its `f`-th emission.
            ({
                let nframes = (old(output)@.len() + channels - 1) as int / (channels as int);
                let run = spec_dtmf_send_run(old(self).model(), nframes as nat);
                &&& final(self).model() == run.0
                &&& forall|i: int|
                    0 <= i < final(output)@.len() ==> final(output)@[i] as int == run.1[i / (
                    channels as int)]
            }),
    {
        let len = output.len();
        let nframes = (len + channels - 1) / channels;
        let ghost m0 = self.model();
        let mut frames: Vec<i32> = Vec::new();
        let mut f: usize = 0;
        while f < nframes
            invariant
                self.wf(),
                f <= nframes,
                frames@.len() == f,
                spec_dtmf_send_run(m0, nframes as nat).0 == spec_dtmf_send_run(
                    self.model(),
                    (nframes - f) as nat,
                ).0,
                spec_dtmf_send_run(m0, nframes as nat).1 == frames@.map_values(|v: i32| v as int)
                    + spec_dtmf_send_run(self.model(), (nframes - f) as nat).1,
            decreases nframes - f,
        {
            let ghost m_pre = self.model();
            let ghost frames_pre = frames@;
            let v: i32 = if self.head_left > 0 {
                self.head_left = self.head_left - 1;
                match self.head.next() {
                    Some(t) => t,
                    None => 0,  // unreachable: no cutoff is set
                }
            } else {
                match self.encode.next() {
                    Some(t) => t,
                    None => 0,
                }
            };
            frames.push(v);
            f = f + 1;
            proof {
                let step = spec_dtmf_send_step(m_pre);
                let rest = spec_dtmf_send_run(self.model(), (nframes - f) as nat);
                assert(frames@.map_values(|v2: i32| v2 as int) =~= frames_pre.map_values(
                    |v2: i32| v2 as int,
                ) + seq![step.1]);
                assert((frames_pre.map_values(|v2: i32| v2 as int) + seq![step.1]) + rest.1
                    =~= frames_pre.map_values(|v2: i32| v2 as int) + (seq![step.1] + rest.1));
            }
        }
        proof {
            lemma_dtmf_send_run_len(m0, nframes as nat);
            assert(spec_dtmf_send_run(m0, nframes as nat).1 =~= frames@.map_values(
                |v2: i32| v2 as int,
            ));
        }
        write_interleaved(output, &frames, channels);
        proof {
            let ghost run1 = spec_dtmf_send_run(m0, nframes as nat).1;
            assert forall|i: int| 0 <= i < output@.len() implies output@[i] as int == run1[i / (
            channels as int)] by {
                vstd::arithmetic::div_mod::lemma_div_pos_is_pos(i, channels as int);
                vstd::arithmetic::div_mod::lemma_div_is_ordered(
                    i,
                    (len - 1) as int,
                    channels as int,
                );
                vstd::arithmetic::div_mod::lemma_div_plus_one((len - 1) as int, channels as int);
                vstd::arithmetic::div_mod::lemma_div_is_ordered(
                    (len + channels - 1) as int,
                    (len - 1) as int + (channels as int),
                    channels as int,
                );
            }
        }
    }
}


/// The Morse encoder pulled `n` times: the final state and the samples it
/// emitted, in order.
pub open spec fn spec_morse_enc_run(m: MorseEncoderModel, n: nat) -> (MorseEncoderModel, Seq<int>)
    decreases n,
{
    if n == 0 {
        (m, Seq::empty())
    } else {
        let step = spec_morse_enc_step(m);
        let rest = spec_morse_enc_run(step.0, (n - 1) as nat);
        (rest.0, seq![step.1] + rest.1)
    }
}

/// Pulling `n` times emits `n` samples.
pub proof fn lemma_morse_enc_run_len(m: MorseEncoderModel, n: nat)
    ensures
        spec_morse_enc_run(m, n).1.len() == n,
    decreases n,
{
    if n > 0 {
        lemma_morse_enc_run_len(spec_morse_enc_step(m).0, (n - 1) as nat);
    }
}

/// Send Morse audio: the encoder's sample stream copied across an
/// interleaved output buffer.
pub struct MorseSend {
    encoder: MorseEncoder,
}

impl MorseSend {
    /// The encoder driving the output.
    pub closed spec fn enc(self) -> MorseEncoder {
        self.encoder
    }

    /// The encoder's abstract state.
    pub closed spec fn encoder_model(self) -> MorseEncoderModel {
        self.encoder.model()
    }

    pub closed spec fn wf(self) -> bool {
        self.encoder.wf()
    }

    /// A sender carrying `text`; fails, naming the character, if any of
    /// it has no glyph.
    pub fn new(sample_rate: SampleRate, frequency: u32, dit_length: u64, text: &str) -> (r:
        Result<Self, crate::morse::InvalidCharacter>)
        requires
            0 < frequency < sample_rate.output,
            1000 <= sample_rate.output <= 1000000,
            1 <= dit_length <= 60000,
            text@.len() <= 0x10000,
        ensures
            r is Ok <==> crate::morse::spec_first_bad_from(text@, 0) == -1,
            r matches Err(e) ==> e.character == text@[crate::morse::spec_first_bad_from(
                text@,
                0,
            )],
            // The built sender carries the encoded text: idle if it is
            // empty, otherwise already sending its first symbol with the
            // rest queued.
            r matches Ok(v) ==> v.wf() && ({
                let q = spec_encode(text@);
                let fresh = MorseEncoderModel {
                    queue: q,
                    state: EncodeState::Idle,
                    tone_index: 0,
                    tone_total: 0,
                    fade_in: sample_rate.output as int / (frequency as int),
                    fade_out: sample_rate.output as int / (frequency as int),
                    rate: sample_rate.output as int,
                    dit: dit_length as int,
                    freq: frequency as int,
                };
                &&& q.len() == 0 ==> v.encoder_model() == fresh
                &&& q.len() > 0 ==> v.encoder_model() == (MorseEncoderModel {
                    queue: q.skip(1),
                    state: EncodeState::Sending(
                        SendState {
                            data: q[0],
                            time: spec_send_samples(
                                q[0],
                                dit_length as int,
                                sample_rate.output as int,
                            ) as u64,
                        },
                    ),
                    tone_index: 0,
                    tone_total: spec_send_samples(
                        q[0],
                        dit_length as int,
                        sample_rate.output as int,
                    ),
                    ..fresh
                })
            }),
    {
        let mut encoder = MorseEncoder::new(sample_rate, frequency, dit_length);
        match encoder.add_data(text) {
            Ok(_) => {
                proof {
                    assert(Seq::<crate::morse::Morse>::empty() + spec_encode(text@)
                        =~= spec_encode(text@));
                }
                Ok(Self { encoder })
            },
            Err(e) => Err(e),
        }
    }

    /// Whether everything queued has been sent.
    pub fn is_idle(&self) -> (r: bool)
        ensures
            r <==> self.enc().enc_state() is Idle,
    {
        self.encoder.is_idle()
    }

    /// Fill an interleaved output buffer from the encoder, one new mono
    /// sample per frame, copied across the channels.
    pub fn output(&mut self, output: &mut Vec<i32>, channels: usize)
        requires
            old(self).wf(),
            1 <= channels <= 0x10000,
            old(output)@.len() <= 0x1000000,
        ensures
            final(self).wf(),
            final(output)@.len() == old(output)@.len(),
            // The encoder is pulled once per frame; every sample of frame
            // `f` carries its `f`-th emission.
            ({
                let nframes = (old(output)@.len() + channels - 1) as int / (channels as int);
                let run = spec_morse_enc_run(old(self).encoder_model(), nframes as nat);
                &&& final(self).encoder_model() == run.0
                &&& forall|i: int|
                    0 <= i < final(output)@.len() ==> final(output)@[i] as int == run.1[i / (
                    channels as int)]
            }),
    {
        let len = output.len();
        let nframes = (len + channels - 1) / channels;
        let ghost m0 = self.encoder.model();
        let mut frames: Vec<i32> = Vec::new();
        let mut f: usize = 0;
        while f < nframes
            invariant
                self.wf(),
                f <= nframes,
                frames@.len() == f,
                spec_morse_enc_run(m0, nframes as nat).0 == spec_morse_enc_run(
                    self.encoder.model(),
                    (nframes - f) as nat,
                ).0,
                spec_morse_enc_run(m0, nframes as nat).1 == frames@.map_values(|v: i32| v as int)
                    + spec_morse_enc_run(self.encoder.model(), (nframes - f) as nat).1,
            decreases nframes - f,
        {
            let ghost m_pre = self.encoder.model();
            let ghost frames_pre = frames@;
            let v: i32 = match self.encoder.next() {
                Some(t) => t,
                None => 0,  // unreachable: the encoder always yields
            };
            frames.push(v);
            f = f + 1;
            proof {
                let step = spec_morse_enc_step(m_pre);
                let rest = spec_morse_enc_run(self.encoder.model(), (nframes - f) as nat);
                assert(frames@.map_values(|v2: i32| v2 as int) =~= frames_pre.map_values(
                    |v2: i32| v2 as int,
                ) + seq![step.1]);
                assert((frames_pre.map_values(|v2: i32| v2 as int) + seq![step.1]) + rest.1
                    =~= frames_pre.map_values(|v2: i32| v2 as int) + (seq![step.1] + rest.1));
            }
        }
        proof {
            lemma_morse_enc_run_len(m0, nframes as nat);
            assert(spec_morse_enc_run(m0, nframes as nat).1 =~= frames@.map_values(
                |v2: i32| v2 as int,
            ));
        }
        write_interleaved(output, &frames, channels);
        proof {
            let ghost run1 = spec_morse_enc_run(m0, nframes as nat).1;
            assert forall|i: int| 0 <= i < output@.len() implies output@[i] as int == run1[i / (
            channels as int)] by {
                vstd::arithmetic::div_mod::lemma_div_pos_is_pos(i, channels as int);
                vstd::arithmetic::div_mod::lemma_div_is_ordered(
                    i,
                    (len - 1) as int,
                    channels as int,
                );
                vstd::arithmetic::div_mod::lemma_div_plus_one((len - 1) as int, channels as int);
                vstd::arithmetic::div_mod::lemma_div_is_ordered(
                    (len + channels - 1) as int,
                    (len - 1) as int + (channels as int),
                    channels as int,
                );
            }
        }
    }
}



/// The sequencer pulled `n` times (silence once it is spent): the final
/// state and the emitted samples.
pub open spec fn spec_sequence_run(m: crate::sequence::SequenceModel, n: nat) -> (
    crate::sequence::SequenceModel,
    Seq<int>,
)
    decreases n,
{
    if n == 0 {
        (m, Seq::empty())
    } else {
        let step = crate::sequence::spec_sequence_step(m);
        let v = match step.1 {
            Some(x) => x,
            None => 0,
        };
        let rest = spec_sequence_run(step.0, (n - 1) as nat);
        (rest.0, seq![v] + rest.1)
    }
}

/// Pulling `n` times emits `n` samples.
pub proof fn lemma_sequence_run_len(m: crate::sequence::SequenceModel, n: nat)
    ensures
        spec_sequence_run(m, n).1.len() == n,
    decreases n,
{
    if n > 0 {
        lemma_sequence_run_len(crate::sequence::spec_sequence_step(m).0, (n - 1) as nat);
    }
}

/// The trigger code a range test listens for.
pub open spec fn spec_range_code() -> Seq<u8> {
    seq![65u8, 66u8, 67u8, 68u8]
}


/// What one confirmed symbol does to the range-test watch: the new recent
/// history, and whether it completed the trigger code.
pub open spec fn spec_range_watch_step(h0: Seq<u8>, sym: u8) -> (Seq<u8>, bool) {
    let h = spec_after_symbol(h0, sym);
    let hit = h.len() >= 4 && h.skip(h.len() - 4) == spec_range_code();
    if hit {
        (Seq::empty(), true)
    } else {
        (h, false)
    }
}

/// The DTMF decoder and the code watch folded over every full
/// `chunk`-sized window of `data`: the final decoder state, the final
/// history, and whether the code was completed anywhere along the way.
pub open spec fn spec_range_run(
    m: DtmfDecoderModel,
    h: Seq<u8>,
    data: Seq<i32>,
    chunk: int,
) -> (DtmfDecoderModel, Seq<u8>, bool)
    decreases data.len(),
{
    if chunk <= 0 || data.len() < chunk {
        (m, h, false)
    } else {
        let step = spec_dtmf_step(m, data.take(chunk));
        let after = match step.1 {
            Some(sym) => spec_range_watch_step(h, sym),
            None => (h, false),
        };
        let rest = spec_range_run(step.0, after.0, data.skip(chunk), chunk);
        (rest.0, rest.1, after.1 || rest.2)
    }
}

/// A link check: when the DTMF symbols `ABCD` arrive in order, a
/// five-second reply tone is queued on the output, so an operator can
/// hear whether the far side can reach this one.
pub struct RangeTest {
    sample_rate: SampleRate,
    work: ChunkBuffer,
    decode: DtmfDecoder,
    history: Vec<u8>,
    tone: crate::sequence::Sequence,
}

impl RangeTest {
    /// Samples waiting for a full analysis chunk.
    pub closed spec fn buffer(self) -> Seq<i32> {
        self.work.contents()
    }

    /// The recently confirmed symbols.
    pub closed spec fn session(self) -> Seq<u8> {
        self.history@
    }

    /// Samples the decoder has consumed.
    pub closed spec fn seen(self) -> int {
        self.decode.seen()
    }

    /// The decoder's abstract state.
    pub closed spec fn decoder_model(self) -> DtmfDecoderModel {
        self.decode.model()
    }

    /// The reply tone queue.
    pub closed spec fn reply(self) -> crate::sequence::Sequence {
        self.tone
    }

    pub closed spec fn wf(self) -> bool {
        &&& self.work.wf()
        &&& self.work.chunk() == STREAM_CHUNK
        &&& self.work.contents().len() < STREAM_CHUNK
        &&& self.decode.wf()
        &&& self.history@.len() <= 0xFFFF
        &&& self.tone.wf()
        &&& self.tone.tone_seq().len() < 0x10000
        &&& 1000 <= self.sample_rate.output
    }

    /// A fresh range test unit.
    pub fn new(sample_rate: SampleRate) -> (r: Self)
        requires
            sample_rate.input >= 1,
            1000 <= sample_rate.output,
        ensures
            r.wf(),
            r.buffer().len() == 0,
            r.session() == Seq::<u8>::empty(),
            r.seen() == 0,
            // Nothing is queued on the output until the code is heard.
            r.reply().tone_seq() == Seq::<Tone>::empty(),
            r.reply().idx() == 0,
            r.decoder_model() == (DtmfDecoderModel {
                history: Seq::<u8>::empty(),
                last: None,
                seen: 0,
                emit_at: 0,
                rate: sample_rate.input as int,
            }),
    {
        Self {
            sample_rate,
            work: ChunkBuffer::new(STREAM_CHUNK),
            decode: DtmfDecoder::new(sample_rate),
            history: Vec::new(),
            tone: crate::sequence::Sequence::new(),
        }
    }

    /// Whether the recent symbols end with the trigger code.
    fn code_heard(history: &Vec<u8>) -> (r: bool)
        ensures
            r <==> history@.len() >= 4 && history@.skip(history@.len() - 4) =~= spec_range_code(),
    {
        let len = history.len();
        if len < 4 {
            return false;
        }
        let hit = history[len - 4] == 65 && history[len - 3] == 66 && history[len - 2] == 67
            && history[len - 1] == 68;
        proof {
            if hit {
                assert(history@.skip(len - 4) =~= spec_range_code());
            } else {
                assert(!(history@.skip(len - 4) =~= spec_range_code()));
            }
        }
        hit
    }

    /// Feed interleaved input audio; returns whether the trigger code was
    /// completed by this call (in which case the reply tone is queued and
    /// the history cleared).
    #[verifier::rlimit(60)]
    pub fn input(&mut self, samples: &Vec<i32>, channels: usize) -> (r: bool)
        requires
            old(self).wf(),
            1 <= channels <= 0x10000,
            samples@.len() <= 0x1000000,
            old(self).seen() + samples@.len() <= 0x4000000000000,
        ensures
            final(self).wf(),
            ({
                let total = old(self).buffer() + spec_to_mono(samples@, channels as int);
                let run = spec_range_run(
                    old(self).decoder_model(),
                    old(self).session(),
                    total,
                    STREAM_CHUNK as int,
                );
                &&& final(self).buffer() == total.skip(
                    total.len() - final(self).buffer().len(),
                )
                &&& final(self).buffer().len() == (total.len() as int) % (STREAM_CHUNK as int)
                // Exactly the full chunks run through the decoder and the
                // code watch; the result says whether the code completed.
                &&& final(self).decoder_model() == run.0
                &&& final(self).session() == run.1
                &&& r == run.2
                // Hearing the code queues a fresh five-second 440 Hz
                // reply; otherwise the reply queue is untouched.
                &&& (r ==> final(self).reply().tone_seq().len() == 1 && final(self).reply().idx() == 0 && final(self).reply().tone_seq()[0].freq() == 440 && final(self).reply().tone_seq()[0].index() == 0)
                &&& (!r ==> final(self).reply() == old(self).reply())
            }),
    {
        let mono = to_mono(samples, channels);
        self.work.push(&mono);
        let ghost total = old(self).buffer() + spec_to_mono(samples@, channels as int);
        let ghost m0 = old(self).decoder_model();
        let ghost h0 = old(self).session();
        let mut heard = false;
        let mut remaining: usize = self.work.buffered();
        proof {
            assert(total.skip(0) =~= total);
        }
        while remaining >= STREAM_CHUNK
            invariant
                self.work.wf(),
                self.work.chunk() == STREAM_CHUNK,
                self.decode.wf(),
                self.history@.len() <= 0xFFFF,
                self.tone.wf(),
                self.tone.tone_seq().len() < 0x10000,
                1000 <= self.sample_rate.output,
                remaining == self.work.contents().len(),
                remaining <= total.len(),
                self.decode.seen() + remaining <= 0x4000000000000 + STREAM_CHUNK,
                self.decode.seen() >= 0,
                total.len() <= 0x2000000,
                self.work.contents() == total.skip(total.len() - remaining),
                (total.len() - remaining) % (STREAM_CHUNK as int) == 0,
                spec_range_run(m0, h0, total, STREAM_CHUNK as int).0 == spec_range_run(
                    self.decode.model(),
                    self.history@,
                    total.skip(total.len() - remaining),
                    STREAM_CHUNK as int,
                ).0,
                spec_range_run(m0, h0, total, STREAM_CHUNK as int).1 == spec_range_run(
                    self.decode.model(),
                    self.history@,
                    total.skip(total.len() - remaining),
                    STREAM_CHUNK as int,
                ).1,
                spec_range_run(m0, h0, total, STREAM_CHUNK as int).2 == (heard || spec_range_run(
                    self.decode.model(),
                    self.history@,
                    total.skip(total.len() - remaining),
                    STREAM_CHUNK as int,
                ).2),
                heard ==> self.tone.tone_seq().len() == 1 && self.tone.idx() == 0
                    && self.tone.tone_seq()[0].freq() == 440 && self.tone.tone_seq()[0].index()
                    == 0,
                !heard ==> self.tone == old(self).reply(),
            decreases remaining,
        {
            let ghost suffix = total.skip(total.len() - remaining);
            let ghost m_pre = self.decode.model();
            let ghost h_pre = self.history@;
            let ghost heard_pre = heard;
            let chunk = self.work.take_chunk();
            proof {
                vstd::seq_lib::lemma_seq_skip_of_skip(
                    total,
                    total.len() - remaining,
                    STREAM_CHUNK as int,
                );
                assert(self.work.contents() =~= total.skip(total.len() - (remaining
                    - STREAM_CHUNK)));
                assert(chunk@ =~= suffix.take(STREAM_CHUNK as int));
                assert(self.work.contents() =~= suffix.skip(STREAM_CHUNK as int));
            }
            remaining = remaining - STREAM_CHUNK;
            if let Some(sym) = self.decode.process(&chunk) {
                if self.history.len() >= 0xFFFF {
                    self.history.remove(0);
                }
                self.history.push(sym);
                proof {
                    assert(self.history@ =~= spec_after_symbol(h_pre, sym));
                }
                if Self::code_heard(&self.history) {
                    // Queue the reply: 440 Hz for five seconds.
                    let mut reply = crate::sequence::Sequence::new();
                    reply.add(440, self.sample_rate, 5 * self.sample_rate.output as u64);
                    self.tone = reply;
                    self.history.clear();
                    heard = true;
                }
            }
            proof {
                let step = spec_dtmf_step(m_pre, suffix.take(STREAM_CHUNK as int));
                let after = match step.1 {
                    Some(sym) => spec_range_watch_step(h_pre, sym),
                    None => (h_pre, false),
                };
                let rest = spec_range_run(
                    step.0,
                    after.0,
                    suffix.skip(STREAM_CHUNK as int),
                    STREAM_CHUNK as int,
                );
                assert(spec_range_run(m_pre, h_pre, suffix, STREAM_CHUNK as int) == (
                    rest.0,
                    rest.1,
                    after.1 || rest.2,
                ));
                assert(self.history@ =~= after.0);
            }
        }
        proof {
            let k = (total.len() - remaining) / (STREAM_CHUNK as int);
            lemma_fundamental_div_mod(total.len() - remaining, STREAM_CHUNK as int);
            lemma_mod_multiples_vanish(k, remaining as int, STREAM_CHUNK as int);
            lemma_small_mod(remaining as nat, STREAM_CHUNK as nat);
        }
        heard
    }

    /// Fill an interleaved output buffer with the reply tone (silence if
    /// none is playing), one new mono sample per frame copied across the
    /// channels.
    pub fn output(&mut self, output: &mut Vec<i32>, channels: usize)
        requires
            old(self).wf(),
            1 <= channels <= 0x10000,
            old(output)@.len() <= 0x1000000,
        ensures
            final(self).wf(),
            final(output)@.len() == old(output)@.len(),
            // The reply sequencer is pulled once per frame; every sample
            // of frame `f` carries its `f`-th emission.
            ({
                let nframes = (old(output)@.len() + channels - 1) as int / (channels as int);
                let run = spec_sequence_run(old(self).reply().model(), nframes as nat);
                &&& final(self).reply().model() == run.0
                &&& forall|i: int|
                    0 <= i < final(output)@.len() ==> final(output)@[i] as int == run.1[i / (
                    channels as int)]
            }),
    {
        let len = output.len();
        let nframes = (len + channels - 1) / channels;
        let ghost m0 = self.tone.model();
        let mut frames: Vec<i32> = Vec::new();
        let mut f: usize = 0;
        while f < nframes
            invariant
                self.wf(),
                f <= nframes,
                frames@.len() == f,
                spec_sequence_run(m0, nframes as nat).0 == spec_sequence_run(
                    self.tone.model(),
                    (nframes - f) as nat,
                ).0,
                spec_sequence_run(m0, nframes as nat).1 == frames@.map_values(|v: i32| v as int)
                    + spec_sequence_run(self.tone.model(), (nframes - f) as nat).1,
            decreases nframes - f,
        {
            let ghost m_pre = self.tone.model();
            let ghost frames_pre = frames@;
            let v: i32 = match self.tone.next() {
                Some(t) => t,
                None => 0,
            };
            frames.push(v);
            f = f + 1;
            proof {
                let step = crate::sequence::spec_sequence_step(m_pre);
                let sv = match step.1 {
                    Some(x) => x,
                    None => 0,
                };
                let rest = spec_sequence_run(self.tone.model(), (nframes - f) as nat);
                assert(frames@.map_values(|v2: i32| v2 as int) =~= frames_pre.map_values(
                    |v2: i32| v2 as int,
                ) + seq![sv]);
                assert((frames_pre.map_values(|v2: i32| v2 as int) + seq![sv]) + rest.1
                    =~= frames_pre.map_values(|v2: i32| v2 as int) + (seq![sv] + rest.1));
            }
        }
        proof {
            lemma_sequence_run_len(m0, nframes as nat);
            assert(spec_sequence_run(m0, nframes as nat).1 =~= frames@.map_values(
                |v2: i32| v2 as int,
            ));
        }
        write_interleaved(output, &frames, channels);
        proof {
            let ghost run1 = spec_sequence_run(m0, nframes as nat).1;
            assert forall|i: int| 0 <= i < output@.len() implies output@[i] as int == run1[i / (
            channels as int)] by {
                vstd::arithmetic::div_mod::lemma_div_pos_is_pos(i, channels as int);
                vstd::arithmetic::div_mod::lemma_div_is_ordered(
                    i,
                    (len - 1) as int,
                    channels as int,
                );
                vstd::arithmetic::div_mod::lemma_div_plus_one((len - 1) as int, channels as int);
                vstd::arithmetic::div_mod::lemma_div_is_ordered(
                    (len + channels - 1) as int,
                    (len - 1) as int + (channels as int),
                    channels as int,
                );
            }
        }
    }
}

} // verus!
