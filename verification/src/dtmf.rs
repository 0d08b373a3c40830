//! The DTMF codec: sixteen symbols addressed as a 4x4 grid of row and
//! column tones, a binary framing that splits bytes into 4-bit nibbles, an
//! encoder that renders symbols as dual-tone audio, and a Goertzel-based
//! decoder with a unanimity window and a debounce.

use vstd::prelude::*;

verus! {

use vstd::arithmetic::div_mod::lemma_fundamental_div_mod;
use crate::goertzel::{goertzel_mag, spec_goertzel_mag, MAX_WINDOW};
use crate::math::{div_trunc, div_i64_trunc};
use crate::misc::SampleRate;
use crate::tone::{Tone, spec_tone_sample};

/// Magnitudes below this (in the crate's fixed-point magnitude units) are
/// treated as absence of a tone.
pub const MAGNITUDE_EPSILON: u64 = 50000;

/// How many raw per-chunk guesses the decoder keeps for its unanimity
/// window.
pub const DATA_LENGTH: usize = 10;

/// How long a sustained tone is read as a single symbol before it may be
/// reported again, in milliseconds.
pub const VALUE_INVALIDATE_MS: u64 = 1000;

/// The row tone (Hz) of grid row `i`.
pub open spec fn spec_row_freq(i: int) -> u32 {
    if i == 0 {
        697
    } else if i == 1 {
        770
    } else if i == 2 {
        852
    } else {
        941
    }
}

/// The column tone (Hz) of grid column `i`.
pub open spec fn spec_col_freq(i: int) -> u32 {
    if i == 0 {
        1209
    } else if i == 1 {
        1336
    } else if i == 2 {
        1477
    } else {
        1633
    }
}

/// The symbol at grid index `i`, reading the 4x4 grid row by row:
/// `1 2 3 A / 4 5 6 B / 7 8 9 C / * 0 # D`.
pub open spec fn spec_symbol(i: int) -> u8 {
    if i == 0 {
        49u8
    } else if i == 1 {
        50u8
    } else if i == 2 {
        51u8
    } else if i == 3 {
        65u8
    } else if i == 4 {
        52u8
    } else if i == 5 {
        53u8
    } else if i == 6 {
        54u8
    } else if i == 7 {
        66u8
    } else if i == 8 {
        55u8
    } else if i == 9 {
        56u8
    } else if i == 10 {
        57u8
    } else if i == 11 {
        67u8
    } else if i == 12 {
        42u8
    } else if i == 13 {
        48u8
    } else if i == 14 {
        35u8
    } else {
        68u8
    }
}

/// The grid index of a symbol, or -1 if the byte is no DTMF symbol.
pub open spec fn spec_symbol_index(b: u8) -> int {
    if b == 49u8 {
        0
    } else if b == 50u8 {
        1
    } else if b == 51u8 {
        2
    } else if b == 65u8 {
        3
    } else if b == 52u8 {
        4
    } else if b == 53u8 {
        5
    } else if b == 54u8 {
        6
    } else if b == 66u8 {
        7
    } else if b == 55u8 {
        8
    } else if b == 56u8 {
        9
    } else if b == 57u8 {
        10
    } else if b == 67u8 {
        11
    } else if b == 42u8 {
        12
    } else if b == 48u8 {
        13
    } else if b == 35u8 {
        14
    } else if b == 68u8 {
        15
    } else {
        -1
    }
}

/// Whether a byte is one of the sixteen DTMF symbols.
pub open spec fn spec_is_symbol(b: u8) -> bool {
    spec_symbol_index(b) >= 0
}

/// The 4-bit value `n` with its bits reversed; the wire format sends each
/// nibble most-significant-bit-last.
pub open spec fn spec_rev4(n: int) -> int {
    (n % 2) * 8 + ((n / 2) % 2) * 4 + ((n / 4) % 2) * 2 + (n / 8) % 2
}

/// Symbol and index are inverse on the sixteen grid positions.
pub proof fn lemma_symbol_index_inverse(n: int)
    requires
        0 <= n < 16,
    ensures
        spec_symbol_index(spec_symbol(n)) == n,
        spec_is_symbol(spec_symbol(n)),
{
}

/// Reversing a nibble's bits twice gives the nibble back.
pub proof fn lemma_rev4_involution(n: int)
    requires
        0 <= n < 16,
    ensures
        0 <= spec_rev4(n) < 16,
        spec_rev4(spec_rev4(n)) == n,
{
}

/// The nibble round-trip law: every 4-bit value, mapped to its DTMF symbol
/// and back, returns to itself.
pub proof fn lemma_nibble_symbol_roundtrip(n: int)
    requires
        0 <= n < 16,
    ensures
        spec_symbol_index(spec_symbol(spec_rev4(n))) == spec_rev4(n),
        spec_rev4(spec_symbol_index(spec_symbol(spec_rev4(n)))) == n,
{
    lemma_rev4_involution(n);
    lemma_symbol_index_inverse(spec_rev4(n));
}

/// The DTMF symbol stream for a byte sequence: two symbols per byte, low
/// nibble first, each nibble bit-reversed.
pub open spec fn spec_bin_to_dtmf(data: Seq<u8>) -> Seq<u8> {
    Seq::new(
        data.len() * 2,
        |i: int|
            if i % 2 == 0 {
                spec_symbol(spec_rev4((data[i / 2] as int) % 16))
            } else {
                spec_symbol(spec_rev4((data[i / 2] as int) / 16))
            },
    )
}

/// The byte sequence recovered from a DTMF symbol stream: symbols pair up
/// into bytes, an odd trailing symbol fills only the low nibble.
pub open spec fn spec_dtmf_to_bin(s: Seq<u8>) -> Seq<u8> {
    Seq::new(
        (s.len() + 1) / 2,
        |i: int|
            (spec_rev4(spec_symbol_index(s[2 * i])) + if 2 * i + 1 < s.len() {
                16 * spec_rev4(spec_symbol_index(s[2 * i + 1]))
            } else {
                0
            }) as u8,
    )
}

/// The byte round-trip law: decoding the symbol stream of any byte
/// sequence returns exactly that sequence.
pub proof fn lemma_dtmf_roundtrip(data: Seq<u8>)
    ensures
        spec_dtmf_to_bin(spec_bin_to_dtmf(data)) =~= data,
{
    let enc = spec_bin_to_dtmf(data);
    let dec = spec_dtmf_to_bin(enc);
    assert(dec.len() == data.len());
    assert forall|i: int| 0 <= i < data.len() implies dec[i] == data[i] by {
        let b = data[i] as int;
        lemma_nibble_symbol_roundtrip(b % 16);
        lemma_nibble_symbol_roundtrip(b / 16);
        assert(enc[2 * i] == spec_symbol(spec_rev4(b % 16)));
        assert(enc[2 * i + 1] == spec_symbol(spec_rev4(b / 16)));
        assert(dec[i] == (b % 16 + 16 * (b / 16)) as u8);
        lemma_fundamental_div_mod(b, 16);
    }
}

/// The row tone (Hz) of grid row `i`.
pub fn row_freq(i: usize) -> (r: u32)
    requires
        i < 4,
    ensures
        r == spec_row_freq(i as int),
        0 < r < 4000,
{
    match i {
        0 => 697,
        1 => 770,
        2 => 852,
        _ => 941,
    }
}

/// The column tone (Hz) of grid column `i`.
pub fn col_freq(i: usize) -> (r: u32)
    requires
        i < 4,
    ensures
        r == spec_col_freq(i as int),
        0 < r < 4000,
{
    match i {
        0 => 1209,
        1 => 1336,
        2 => 1477,
        _ => 1633,
    }
}

/// The symbol at grid index `i`.
pub fn symbol_for_index(i: usize) -> (r: u8)
    requires
        i < 16,
    ensures
        r == spec_symbol(i as int),
        spec_is_symbol(r),
{
    proof {
        lemma_symbol_index_inverse(i as int);
    }
    match i {
        0 => 49u8,
        1 => 50u8,
        2 => 51u8,
        3 => 65u8,
        4 => 52u8,
        5 => 53u8,
        6 => 54u8,
        7 => 66u8,
        8 => 55u8,
        9 => 56u8,
        10 => 57u8,
        11 => 67u8,
        12 => 42u8,
        13 => 48u8,
        14 => 35u8,
        _ => 68u8,
    }
}

/// The grid index of a DTMF symbol byte, if it is one.
pub fn symbol_index(b: u8) -> (r: Option<usize>)
    ensures
        r is Some <==> spec_is_symbol(b),
        r matches Some(i) ==> i < 16 && i == spec_symbol_index(b),
{
    match b {
        49u8 => Some(0),
        50u8 => Some(1),
        51u8 => Some(2),
        65u8 => Some(3),
        52u8 => Some(4),
        53u8 => Some(5),
        54u8 => Some(6),
        66u8 => Some(7),
        55u8 => Some(8),
        56u8 => Some(9),
        57u8 => Some(10),
        67u8 => Some(11),
        42u8 => Some(12),
        48u8 => Some(13),
        35u8 => Some(14),
        68u8 => Some(15),
        _ => None,
    }
}

/// Reverse the bits of a 4-bit value.
fn rev4(n: u8) -> (r: u8)
    requires
        n < 16,
    ensures
        r == spec_rev4(n as int),
        r < 16,
    {
    proof {
        lemma_rev4_involution(n as int);
    }
    (n % 2) * 8 + ((n / 2) % 2) * 4 + ((n / 4) % 2) * 2 + (n / 8) % 2
}

/// Convert binary data to the DTMF symbol stream that transmits it.
#[verifier::rlimit(50)]
pub fn bin_to_dtmf(data: &Vec<u8>) -> (r: Vec<u8>)
    requires
        data@.len() <= 0x1000000,
    ensures
        r@ =~= spec_bin_to_dtmf(data@),
        forall|i: int| 0 <= i < r@.len() ==> spec_is_symbol(#[trigger] r@[i]),
{
    let mut out: Vec<u8> = Vec::new();
    let mut idx: usize = 0;
    while idx < data.len()
        invariant
            data@.len() <= 0x1000000,
            idx <= data@.len(),
            out@.len() == 2 * idx,
            forall|j: int| 0 <= j < out@.len() ==> out@[j] == spec_bin_to_dtmf(data@)[j],
            forall|j: int| 0 <= j < out@.len() ==> spec_is_symbol(#[trigger] out@[j]),
        decreases data@.len() - idx,
    {
        let b = data[idx];
        proof {
            lemma_rev4_involution((b as int) % 16);
            lemma_rev4_involution((b as int) / 16);
            lemma_symbol_index_inverse(spec_rev4((b as int) % 16));
            lemma_symbol_index_inverse(spec_rev4((b as int) / 16));
        }
        out.push(symbol_for_index((rev4(b % 16)) as usize));
        out.push(symbol_for_index((rev4(b / 16)) as usize));
        idx = idx + 1;
    }
    out
}

/// Decode a stream of DTMF symbols back into bytes.
pub fn dtmf_to_bin(dtmf: &Vec<u8>) -> (r: Vec<u8>)
    requires
        dtmf@.len() <= 0x1000000,
        forall|i: int| 0 <= i < dtmf@.len() ==> spec_is_symbol(#[trigger] dtmf@[i]),
    ensures
        r@ =~= spec_dtmf_to_bin(dtmf@),
{
    let mut out: Vec<u8> = Vec::new();
    let mut idx: usize = 0;
    while idx < dtmf.len()
        invariant
            dtmf@.len() <= 0x1000000,
            idx % 2 == 0,
            idx <= dtmf@.len() + 1,
            out@.len() == idx / 2,
            idx / 2 <= (dtmf@.len() + 1) / 2,
            forall|i: int| 0 <= i < dtmf@.len() ==> spec_is_symbol(#[trigger] dtmf@[i]),
            forall|j: int| 0 <= j < out@.len() ==> out@[j] == spec_dtmf_to_bin(dtmf@)[j],
        decreases dtmf@.len() - idx + 1,
    {
        let lo_sym = dtmf[idx];
        let lo = match symbol_index(lo_sym) {
            Some(v) => v,
            None => 0,  // unreachable: every entry is a symbol
        };
        proof {
            lemma_rev4_involution(lo as int);
        }
        let mut byte: u8 = rev4(lo as u8);
        if idx + 1 < dtmf.len() {
            let hi_sym = dtmf[idx + 1];
            let hi = match symbol_index(hi_sym) {
                Some(v) => v,
                None => 0,
            };
            proof {
                lemma_rev4_involution(hi as int);
            }
            byte = byte + 16 * rev4(hi as u8);
        }
        out.push(byte);
        idx = idx + 2;
    }
    out
}



/// The encoder's state, abstracted for specification: what the contracts
/// of the streaming layer fold over.
pub struct DtmfEncoderModel {
    /// The outgoing symbol queue.
    pub queue: Seq<u8>,
    /// Index of the next symbol to play.
    pub pos: int,
    /// Tone samples left in the current symbol.
    pub remaining: int,
    /// Silence samples left before the tone resumes.
    pub cooldown: int,
    /// The column oscillator's frequency in Hz.
    pub low_freq: int,
    /// The row oscillator's frequency in Hz.
    pub high_freq: int,
    /// The oscillators' shared sample index.
    pub tone_index: int,
    /// The output sample rate.
    pub rate: int,
    /// Samples of tone per symbol.
    pub time: int,
}

/// The mixed dual-tone sample at oscillator index `li`.
pub open spec fn spec_dtmf_mix(low_freq: int, high_freq: int, rate: int, li: int) -> int {
    div_trunc(spec_tone_sample(low_freq, rate, li), 2) + div_trunc(
        spec_tone_sample(high_freq, rate, li),
        2,
    )
}

/// One whole encoder step as a function of the abstract state: the
/// successor state and the emitted sample, if any.
pub open spec fn spec_dtmf_enc_step(m: DtmfEncoderModel) -> (DtmfEncoderModel, Option<int>) {
    if m.cooldown > 0 {
        (DtmfEncoderModel { cooldown: m.cooldown - 1, ..m }, Some(0))
    } else if m.remaining == 0 && m.pos >= m.queue.len() {
        (m, None)
    } else if m.remaining == 0 {
        let idx = spec_symbol_index(m.queue[m.pos]);
        let lowf = spec_col_freq(idx % 4) as int;
        let highf = spec_row_freq(idx / 4) as int;
        (
            DtmfEncoderModel {
                pos: m.pos + 1,
                remaining: m.time - 1,
                cooldown: m.rate / 4,
                low_freq: lowf,
                high_freq: highf,
                tone_index: 1,
                ..m
            },
            Some(spec_dtmf_mix(lowf, highf, m.rate, 1)),
        )
    } else {
        (
            DtmfEncoderModel { remaining: m.remaining - 1, tone_index: m.tone_index + 1, ..m },
            Some(spec_dtmf_mix(m.low_freq, m.high_freq, m.rate, m.tone_index + 1)),
        )
    }
}

/// Encode a stream of DTMF symbols as dual-tone audio.  Each symbol plays
/// for half a second of output with a quarter second of silence folded in
/// right after it starts, the classic cadence of a keypad.
pub struct DtmfEncoder {
    sample_rate: SampleRate,
    /// Samples of tone per symbol.
    time: u32,
    /// Samples of silence inserted per symbol.
    sleep: u32,
    /// The row-frequency oscillator.
    high: Tone,
    /// The column-frequency oscillator.
    low: Tone,
    /// The outgoing symbol queue.
    data: Vec<u8>,
    /// Next symbol to play.
    position: usize,
    /// Tone samples left in the current symbol.
    remaining: u32,
    /// Silence samples left before the tone resumes.
    cooldown: u32,
}

impl DtmfEncoder {
    /// The outgoing symbol queue.
    pub closed spec fn queue(self) -> Seq<u8> {
        self.data@
    }

    /// Index of the next symbol to play.
    pub closed spec fn pos(self) -> int {
        self.position as int
    }

    /// Tone samples left in the current symbol.
    pub closed spec fn remaining_val(self) -> int {
        self.remaining as int
    }

    /// Silence samples left in the current cooldown.
    pub closed spec fn cooldown_val(self) -> int {
        self.cooldown as int
    }

    /// The output sample rate.
    pub closed spec fn rate(self) -> u32 {
        self.sample_rate.output
    }

    /// Samples of tone per symbol: half a second.
    pub closed spec fn time_val(self) -> int {
        self.time as int
    }

    /// The column oscillator's frequency.
    pub closed spec fn low_freq(self) -> u32 {
        self.low.freq()
    }

    /// The row oscillator's frequency.
    pub closed spec fn high_freq(self) -> u32 {
        self.high.freq()
    }

    /// The oscillators' shared sample index.
    pub closed spec fn tone_index(self) -> u64 {
        self.low.index()
    }

    /// The abstract state the streaming layer's contracts fold over.
    pub open spec fn model(self) -> DtmfEncoderModel {
        DtmfEncoderModel {
            queue: self.queue(),
            pos: self.pos(),
            remaining: self.remaining_val(),
            cooldown: self.cooldown_val(),
            low_freq: self.low_freq() as int,
            high_freq: self.high_freq() as int,
            tone_index: self.tone_index() as int,
            rate: self.rate() as int,
            time: self.time_val(),
        }
    }

    pub open spec fn wf(self) -> bool {
        &&& self.rate() >= 8000
        &&& self.time_val() == self.rate() / 2
        &&& self.queue().len() <= 0x100000
        &&& (forall|i: int|
            0 <= i < self.queue().len() ==> spec_is_symbol(#[trigger] self.queue()[i]))
        &&& self.pos() <= self.queue().len()
        &&& self.remaining_val() <= self.time_val()
        &&& self.wf_tones()
    }

    /// Internal invariants of the oscillator pair.
    pub closed spec fn wf_tones(self) -> bool {
        &&& self.low.wf()
        &&& self.high.wf()
        &&& self.low.rate() == self.sample_rate.output
        &&& self.high.rate() == self.sample_rate.output
        &&& self.low.dur() is None
        &&& self.high.dur() is None
        &&& self.high.index() == self.low.index()
        &&& self.low.index() <= self.time as u64
        &&& self.sleep == self.sample_rate.output / 4
        &&& (self.remaining > 0 ==> self.low.index() == self.time as u64 - self.remaining as u64)
    }

    /// A fresh encoder over `data`, a sequence of DTMF symbol bytes.
    pub fn new(data: &Vec<u8>, sample_rate: SampleRate) -> (r: Self)
        requires
            sample_rate.output >= 8000,
            data@.len() <= 0x100000,
            forall|i: int| 0 <= i < data@.len() ==> spec_is_symbol(#[trigger] data@[i]),
        ensures
            r.wf(),
            r.queue() == data@,
            r.pos() == 0,
            r.remaining_val() == 0,
            r.cooldown_val() == 0,
            r.rate() == sample_rate.output,
            r.model() == (DtmfEncoderModel {
                queue: data@,
                pos: 0,
                remaining: 0,
                cooldown: 0,
                low_freq: 1209,
                high_freq: 697,
                tone_index: 0,
                rate: sample_rate.output as int,
                time: sample_rate.output as int / 2,
            }),
    {
        Self {
            time: sample_rate.output / 2,
            sleep: sample_rate.output / 4,
            sample_rate,
            low: Tone::new(1209, sample_rate),
            high: Tone::new(697, sample_rate),
            data: data.clone(),
            position: 0,
            remaining: 0,
            cooldown: 0,
        }
    }

    /// Pull one output sample.  Yields silence through cooldowns, the
    /// dual-tone mix while a symbol plays, and nothing once the queue is
    /// exhausted.
    pub fn next(&mut self) -> (r: Option<i32>)
        requires
            old(self).wf(),
        ensures
            final(self).wf(),
            final(self).queue() == old(self).queue(),
            final(self).rate() == old(self).rate(),
            final(self).model() == spec_dtmf_enc_step(old(self).model()).0,
            r is None <==> spec_dtmf_enc_step(old(self).model()).1 is None,
            r matches Some(x) ==> Some(x as int) == spec_dtmf_enc_step(old(self).model()).1,
            // Cooldown: one silent sample, nothing else moves.
            old(self).cooldown_val() > 0 ==> r == Some(0i32) && final(self).cooldown_val()
                == old(self).cooldown_val() - 1 && final(self).pos() == old(self).pos()
                && final(self).remaining_val() == old(self).remaining_val(),
            // Queue exhausted at a symbol boundary: the encoder is done.
            old(self).cooldown_val() == 0 && old(self).remaining_val() == 0 && old(self).pos()
                >= old(self).queue().len() ==> r is None && final(self).pos() == old(self).pos()
                && final(self).remaining_val() == 0,
            // Start of a new symbol: it is dequeued, the oscillators are
            // re-seeded to its row and column tones, a cooldown is armed,
            // and the first mixed sample comes out.
            old(self).cooldown_val() == 0 && old(self).remaining_val() == 0 && old(self).pos()
                < old(self).queue().len() ==> ({
                let sym = old(self).queue()[old(self).pos()];
                let idx = spec_symbol_index(sym);
                &&& final(self).pos() == old(self).pos() + 1
                &&& final(self).remaining_val() == old(self).time_val() - 1
                &&& final(self).cooldown_val() == old(self).rate() / 4
                &&& final(self).low_freq() == spec_col_freq(idx % 4)
                &&& final(self).high_freq() == spec_row_freq(idx / 4)
                &&& r == Some(
                    (div_trunc(
                        spec_tone_sample(spec_col_freq(idx % 4) as int, old(self).rate() as int, 1),
                        2,
                    ) + div_trunc(
                        spec_tone_sample(spec_row_freq(idx / 4) as int, old(self).rate() as int, 1),
                        2,
                    )) as i32,
                )
            }),
            // Mid-symbol: the oscillators advance one sample.
            old(self).cooldown_val() == 0 && old(self).remaining_val() > 0 ==> ({
                let li = old(self).tone_index() + 1;
                &&& final(self).pos() == old(self).pos()
                &&& final(self).remaining_val() == old(self).remaining_val() - 1
                &&& final(self).cooldown_val() == 0
                &&& final(self).low_freq() == old(self).low_freq()
                &&& final(self).high_freq() == old(self).high_freq()
                &&& r == Some(
                    (div_trunc(
                        spec_tone_sample(old(self).low_freq() as int, old(self).rate() as int, li as int),
                        2,
                    ) + div_trunc(
                        spec_tone_sample(old(self).high_freq() as int, old(self).rate() as int, li as int),
                        2,
                    )) as i32,
                )
            }),
    {
        if self.cooldown > 0 {
            self.cooldown = self.cooldown - 1;
            return Some(0);
        }
        if self.remaining == 0 {
            if self.position >= self.data.len() {
                return None;
            }
            let sym = self.data[self.position];
            let idx: usize = match symbol_index(sym) {
                Some(v) => v,
                None => 0,  // unreachable: the queue holds only symbols
            };
            self.low = Tone::new(col_freq(idx % 4), self.sample_rate);
            self.high = Tone::new(row_freq(idx / 4), self.sample_rate);
            self.position = self.position + 1;
            self.remaining = self.time;
            self.cooldown = self.sleep;
        }
        self.remaining = self.remaining - 1;
        let a: i32 = match self.low.next() {
            Some(v) => v,
            None => 0,  // unreachable: no cutoff is set
        };
        let b: i32 = match self.high.next() {
            Some(v) => v,
            None => 0,
        };
        let mixed: i64 = div_i64_trunc(a as i64, 2) + div_i64_trunc(b as i64, 2);
        Some(mixed as i32)
    }
}


/// The index of the largest value in `f[lo..hi]`; on ties the later index
/// wins, matching a stable ascending sort read from the back.
pub open spec fn spec_argmax_last(f: Seq<int>, lo: int, hi: int) -> int
    recommends
        0 <= lo < hi <= f.len(),
    decreases hi - lo,
{
    if hi - lo <= 1 {
        lo
    } else {
        let p = spec_argmax_last(f, lo, hi - 1);
        if f[hi - 1] >= f[p] {
            hi - 1
        } else {
            p
        }
    }
}

/// The argmax lies in its range.
pub proof fn lemma_argmax_last_in_range(f: Seq<int>, lo: int, hi: int)
    requires
        0 <= lo < hi <= f.len(),
    ensures
        lo <= spec_argmax_last(f, lo, hi) < hi,
    decreases hi - lo,
{
    if hi - lo > 1 {
        lemma_argmax_last_in_range(f, lo, hi - 1);
    }
}

/// The symbol a window of eight magnitudes (four row, four column) names:
/// the strongest row and column tones picked independently, unless either
/// maximum falls below the magnitude threshold, in which case the decoder
/// abstains.
pub open spec fn spec_frequencies_to_dtmf(f: Seq<int>) -> Option<u8>
    recommends
        f.len() == 8,
{
    let row = spec_argmax_last(f, 0, 4);
    let col = spec_argmax_last(f, 4, 8) - 4;
    if f[row] < MAGNITUDE_EPSILON as int || f[col + 4] < MAGNITUDE_EPSILON as int {
        None
    } else {
        Some(spec_symbol(row * 4 + col))
    }
}

/// The eight Goertzel magnitudes of a chunk: the four row tones, then the
/// four column tones.
pub open spec fn spec_dtmf_mags(chunk: Seq<i32>, sample_rate: int) -> Seq<int> {
    Seq::new(
        8,
        |i: int|
            if i < 4 {
                spec_goertzel_mag(spec_row_freq(i) as int, chunk, sample_rate)
            } else {
                spec_goertzel_mag(spec_col_freq(i - 4) as int, chunk, sample_rate)
            },
    )
}

/// The raw symbol guess for one chunk.
pub open spec fn spec_dtmf_candidate(chunk: Seq<i32>, sample_rate: int) -> Option<u8> {
    spec_frequencies_to_dtmf(spec_dtmf_mags(chunk, sample_rate))
}

/// A guess pushed into the confirmation window, dropping the oldest entry
/// once the window is full.
pub open spec fn spec_push_trim(h: Seq<u8>, x: u8) -> Seq<u8> {
    let p = h.push(x);
    if p.len() <= DATA_LENGTH {
        p
    } else {
        p.subrange(p.len() - DATA_LENGTH, p.len() as int)
    }
}

/// Whether the whole confirmation window agrees on one symbol.
pub open spec fn spec_unanimous(h: Seq<u8>) -> bool {
    forall|j: int| 0 <= j < h.len() ==> #[trigger] h[j] == h[0]
}

/// How many samples a sustained symbol is held back for before it may be
/// reported again.
pub open spec fn spec_invalidate_samples(sample_rate: int) -> int {
    sample_rate * VALUE_INVALIDATE_MS / 1000
}

/// The noise-rejection law: a confirmation window holding two different
/// symbols is not unanimous, so (by the decoder's contract) nothing is
/// emitted from it.
pub proof fn lemma_disagreement_blocks_emission(h: Seq<u8>, a: int, b: int)
    requires
        0 <= a < h.len(),
        0 <= b < h.len(),
        h[a] != h[b],
    ensures
        !spec_unanimous(h),
{
    assert(!(h[a] == h[0] && h[b] == h[0]));
}

/// Pick the symbol named by eight magnitudes (rows then columns), or
/// nothing if either band's maximum is below the threshold.
pub fn frequencies_to_dtmf(freqs: &Vec<u64>) -> (r: Option<u8>)
    requires
        freqs@.len() == 8,
    ensures
        r == spec_frequencies_to_dtmf(freqs@.map_values(|v: u64| v as int)),
        r matches Some(x) ==> spec_is_symbol(x),
{
    let ghost f = freqs@.map_values(|v: u64| v as int);
    let row = argmax_last(freqs, 0, 4);
    let colx = argmax_last(freqs, 4, 8);
    let col = colx - 4;
    proof {
        lemma_argmax_last_in_range(f, 0, 4);
        lemma_argmax_last_in_range(f, 4, 8);
    }
    if freqs[row] < MAGNITUDE_EPSILON || freqs[colx] < MAGNITUDE_EPSILON {
        return None;
    }
    proof {
        lemma_symbol_index_inverse(row * 4 + col);
    }
    Some(symbol_for_index(row * 4 + col))
}

/// The index of the largest value in `f[lo..hi]`, later index winning ties.
fn argmax_last(f: &Vec<u64>, lo: usize, hi: usize) -> (m: usize)
    requires
        lo < hi <= f@.len(),
    ensures
        lo <= m < hi,
        m == spec_argmax_last(f@.map_values(|v: u64| v as int), lo as int, hi as int),
{
    let ghost fs = f@.map_values(|v: u64| v as int);
    let mut m: usize = lo;
    let mut j: usize = lo + 1;
    while j < hi
        invariant
            lo <= m < j <= hi,
            hi <= f@.len(),
            fs == f@.map_values(|v: u64| v as int),
            m == spec_argmax_last(fs, lo as int, j as int),
        decreases hi - j,
    {
        if f[j] >= f[m] {
            m = j;
        }
        j = j + 1;
    }
    m
}


/// The decoder's state, abstracted for specification: what the contracts
/// of the streaming layer fold over.
pub struct DtmfDecoderModel {
    /// The confirmation window.
    pub history: Seq<u8>,
    /// The last reported symbol.
    pub last: Option<u8>,
    /// Samples processed so far.
    pub seen: int,
    /// The clock value at the last report.
    pub emit_at: int,
    /// The input sample rate.
    pub rate: int,
}

/// One whole decoder step as a function of the abstract state and one
/// chunk: the successor state and the reported symbol.
pub open spec fn spec_dtmf_step(m: DtmfDecoderModel, chunk: Seq<i32>) -> (
    DtmfDecoderModel,
    Option<u8>,
) {
    let now = m.seen + chunk.len();
    match spec_dtmf_candidate(chunk, m.rate) {
        None => (DtmfDecoderModel { seen: now, ..m }, None),
        Some(x) => {
            let h = spec_push_trim(m.history, x);
            let suppressed = m.last == Some(h[0]) && now - m.emit_at <= spec_invalidate_samples(
                m.rate,
            );
            if spec_unanimous(h) && !suppressed {
                (
                    DtmfDecoderModel { history: h, last: Some(x), seen: now, emit_at: now, ..m },
                    Some(x),
                )
            } else {
                (DtmfDecoderModel { history: h, seen: now, ..m }, None)
            }
        },
    }
}

/// Decode DTMF audio chunk by chunk.  Each chunk yields at most one raw
/// guess; a symbol is reported only when the whole confirmation window
/// agrees on it and it is not a debounced repeat of the last report.
pub struct DtmfDecoder {
    sample_rate: SampleRate,
    /// The confirmation window of recent raw guesses.
    data: Vec<u8>,
    /// The last symbol reported.
    last: Option<u8>,
    /// Total samples processed so far; the decoder's clock.
    samples_seen: u64,
    /// The value of the clock at the last report.
    last_emit_at: u64,
}

impl DtmfDecoder {
    /// The confirmation window.
    pub closed spec fn history(self) -> Seq<u8> {
        self.data@
    }

    /// The last reported symbol.
    pub closed spec fn last_sym(self) -> Option<u8> {
        self.last
    }

    /// Samples processed so far.
    pub closed spec fn seen(self) -> int {
        self.samples_seen as int
    }

    /// The clock value at the last report.
    pub closed spec fn emit_at(self) -> int {
        self.last_emit_at as int
    }

    /// The input sample rate.
    pub closed spec fn rate(self) -> u32 {
        self.sample_rate.input
    }

    pub open spec fn wf(self) -> bool {
        &&& self.rate() >= 1
        &&& self.history().len() <= DATA_LENGTH
        &&& 0 <= self.emit_at() <= self.seen()
    }

    /// The abstract state the streaming layer's contracts fold over.
    pub open spec fn model(self) -> DtmfDecoderModel {
        DtmfDecoderModel {
            history: self.history(),
            last: self.last_sym(),
            seen: self.seen(),
            emit_at: self.emit_at(),
            rate: self.rate() as int,
        }
    }

    /// A fresh decoder against the input side of `sample_rate`.
    pub fn new(sample_rate: SampleRate) -> (r: Self)
        requires
            sample_rate.input >= 1,
        ensures
            r.wf(),
            r.history() == Seq::<u8>::empty(),
            r.last_sym() is None,
            r.seen() == 0,
            r.emit_at() == 0,
            r.rate() == sample_rate.input,
            r.model() == (DtmfDecoderModel {
                history: Seq::<u8>::empty(),
                last: None,
                seen: 0,
                emit_at: 0,
                rate: sample_rate.input as int,
            }),
    {
        Self {
            sample_rate,
            data: Vec::new(),
            last: None,
            samples_seen: 0,
            last_emit_at: 0,
        }
    }

    /// Feed one analysis chunk.  Abstains (returns nothing) on a weak or
    /// ambiguous chunk; otherwise pushes the guess into the confirmation
    /// window and reports it only on unanimity, debouncing repeats of the
    /// last report for a second of audio time.
    pub fn process(&mut self, chunk: &Vec<i32>) -> (r: Option<u8>)
        requires
            old(self).wf(),
            1 <= chunk@.len() <= MAX_WINDOW,
            old(self).seen() + chunk@.len() < 0x8000000000000000,
        ensures
            final(self).wf(),
            final(self).rate() == old(self).rate(),
            final(self).seen() == old(self).seen() + chunk@.len(),
            (final(self).model(), r) == spec_dtmf_step(old(self).model(), chunk@),
            // A weak or ambiguous chunk changes nothing but the clock.
            spec_dtmf_candidate(chunk@, old(self).rate() as int) is None ==> r is None
                && final(self).history() == old(self).history() && final(self).last_sym()
                == old(self).last_sym() && final(self).emit_at() == old(self).emit_at(),
            // A guessed chunk rotates the window; the guess is reported
            // exactly when the window is unanimous and not a debounced
            // repeat.
            spec_dtmf_candidate(chunk@, old(self).rate() as int) matches Some(x) ==> ({
                let h = spec_push_trim(old(self).history(), x);
                let now = old(self).seen() + chunk@.len();
                let suppressed = old(self).last_sym() == Some(h[0]) && now - old(self).emit_at()
                    <= spec_invalidate_samples(old(self).rate() as int);
                &&& final(self).history() == h
                &&& r == (if spec_unanimous(h) && !suppressed {
                    Some(x)
                } else {
                    None::<u8>
                })
                &&& (r is Some ==> final(self).last_sym() == Some(x) && final(self).emit_at()
                    == now)
                &&& (r is None ==> final(self).last_sym() == old(self).last_sym()
                    && final(self).emit_at() == old(self).emit_at())
            }),
    {
        let ghost srate = self.sample_rate.input as int;
        let mut mags: Vec<u64> = Vec::new();
        let mut fi: usize = 0;
        while fi < 4
            invariant
                old(self).wf(),
                self == old(self),
                1 <= chunk@.len() <= MAX_WINDOW,
                srate == self.sample_rate.input as int,
                fi <= 4,
                mags@.len() == fi,
                forall|j: int|
                    0 <= j < fi ==> mags@.map_values(|v: u64| v as int)[j] == spec_dtmf_mags(
                        chunk@,
                        srate,
                    )[j],
            decreases 4 - fi,
        {
            mags.push(goertzel_mag(row_freq(fi), chunk, self.sample_rate.input));
            fi = fi + 1;
        }
        fi = 0;
        while fi < 4
            invariant
                old(self).wf(),
                self == old(self),
                1 <= chunk@.len() <= MAX_WINDOW,
                srate == self.sample_rate.input as int,
                fi <= 4,
                mags@.len() == 4 + fi,
                forall|j: int|
                    0 <= j < 4 + fi ==> mags@.map_values(|v: u64| v as int)[j] == spec_dtmf_mags(
                        chunk@,
                        srate,
                    )[j],
            decreases 4 - fi,
        {
            mags.push(goertzel_mag(col_freq(fi), chunk, self.sample_rate.input));
            fi = fi + 1;
        }
        proof {
            assert(mags@.map_values(|v: u64| v as int) =~= spec_dtmf_mags(chunk@, srate));
        }
        self.samples_seen = self.samples_seen + chunk.len() as u64;
        let cand = frequencies_to_dtmf(&mags);
        let x = match cand {
            Some(x) => x,
            None => {
                return None;
            },
        };
        self.data.push(x);
        if self.data.len() > DATA_LENGTH {
            self.data.remove(0);
        }
        proof {
            assert(self.data@ =~= spec_push_trim(old(self).history(), x));
        }
        let first = self.data[0];
        let mut unanimous = true;
        let mut j: usize = 0;
        while j < self.data.len()
            invariant
                0 < self.data@.len(),
                j <= self.data@.len(),
                first == self.data@[0],
                unanimous == (forall|t: int| 0 <= t < j ==> #[trigger] self.data@[t] == self.data@[0]),
            decreases self.data@.len() - j,
        {
            if self.data[j] != first {
                unanimous = false;
            }
            j = j + 1;
        }
        let repeat = match self.last {
            Some(l) => l == first,
            None => false,
        };
        let invalidate: u64 = (self.sample_rate.input as u64) * VALUE_INVALIDATE_MS / 1000;
        if !unanimous || (repeat && self.samples_seen - self.last_emit_at <= invalidate) {
            return None;
        }
        self.last_emit_at = self.samples_seen;
        self.last = Some(x);
        Some(x)
    }
}


/// Whatever symbol a chunk's magnitudes name is one of the sixteen.
pub proof fn lemma_candidate_is_symbol(chunk: Seq<i32>, sample_rate: int)
    ensures
        spec_dtmf_candidate(chunk, sample_rate) matches Some(x) ==> spec_is_symbol(x),
{
    let f = spec_dtmf_mags(chunk, sample_rate);
    if spec_dtmf_candidate(chunk, sample_rate) is Some {
        lemma_argmax_last_in_range(f, 0, 4);
        lemma_argmax_last_in_range(f, 4, 8);
        let row = spec_argmax_last(f, 0, 4);
        let col = spec_argmax_last(f, 4, 8) - 4;
        lemma_symbol_index_inverse(row * 4 + col);
    }
}

} // verus!
