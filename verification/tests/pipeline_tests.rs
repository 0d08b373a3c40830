use radio_data::dtmf::{bin_to_dtmf, DtmfDecoder, DtmfEncoder};
use radio_data::misc::SampleRate;
use radio_data::morse::{MorseDecoder, MorseEncoder};
use radio_data::stream::{DtmfReceive, DtmfSend, MorseReceive};
use radio_data::tone::Tone;

const RATE: u32 = 48000;
const CHUNK: usize = 512;

/// Encode byte 0xAB as DTMF audio and decode it chunk by chunk: both
/// nibble symbols come back in order, each exactly once, despite the
/// cooldown silence folded into every symbol.
#[test]
fn dtmf_byte_survives_the_air() {
    let sr = SampleRate::from_hz(RATE);
    let symbols = bin_to_dtmf(&vec![0xABu8]);
    assert_eq!(symbols, vec![b'0', b'5']);

    let mut enc = DtmfEncoder::new(&symbols, sr);
    let mut samples: Vec<i32> = Vec::new();
    while let Some(s) = enc.next() {
        samples.push(s);
    }

    let mut dec = DtmfDecoder::new(sr);
    let mut heard: Vec<u8> = Vec::new();
    for chunk in samples.chunks(CHUNK) {
        if chunk.len() < CHUNK {
            break;
        }
        if let Some(sym) = dec.process(&chunk.to_vec()) {
            heard.push(sym);
        }
    }
    assert_eq!(heard, vec![b'0', b'5']);
}

/// A decoder fed chunks that keep toggling between two candidate symbols
/// never reaches unanimity again, so after the window first mixes it
/// emits nothing.
#[test]
fn dtmf_alternating_candidates_stay_silent() {
    let sr = SampleRate::from_hz(RATE);

    let dual_tone = |row: u32, col: u32| -> Vec<i32> {
        let mut a = Tone::new(row, sr);
        let mut b = Tone::new(col, sr);
        let mut out = Vec::new();
        for _ in 0..CHUNK {
            out.push(a.next().unwrap() / 2 + b.next().unwrap() / 2);
        }
        out
    };
    let one = dual_tone(697, 1209); // symbol '1'
    let four = dual_tone(770, 1209); // symbol '4'

    let mut dec = DtmfDecoder::new(sr);
    // The very first confirmed chunk forms a window of one, which is
    // unanimous by definition and reports once.
    assert_eq!(dec.process(&one), Some(b'1'));
    // From the moment the window holds both symbols, nothing comes out.
    for _ in 0..20 {
        assert_eq!(dec.process(&four), None);
        assert_eq!(dec.process(&one), None);
    }
}

/// Encode "SOS" as Morse audio and decode the same sample stream with the
/// same dit length and carrier: the text comes back.
#[test]
fn morse_sos_roundtrip() {
    let sr = SampleRate::from_hz(RATE);
    let dit_ms = 100u64;
    let carrier = 1500u32;

    let mut enc = MorseEncoder::new(sr, carrier, dit_ms);
    enc.add_data("SOS").unwrap();

    let mut samples: Vec<i32> = Vec::new();
    while !enc.is_idle() {
        samples.push(enc.next().unwrap());
    }
    // A second of trailing silence lets the decoder flush the last glyph.
    samples.extend(std::iter::repeat(0).take(RATE as usize));

    let mut dec = MorseDecoder::new(sr, carrier, dit_ms);
    let mut heard = String::new();
    for chunk in samples.chunks(CHUNK) {
        if chunk.len() < CHUNK {
            break;
        }
        if let Some(c) = dec.process(&chunk.to_vec()) {
            heard.push(c);
        }
    }
    assert_eq!(heard, "SOS");
}

/// The same round trip through the callback-facing stream units, with a
/// stereo stream: MorseReceive down-mixes, chunks, and decodes.
#[test]
fn morse_roundtrip_through_stream_units() {
    let sr = SampleRate::from_hz(RATE);
    let dit_ms = 100u64;
    let carrier = 1500u32;

    let mut enc = MorseEncoder::new(sr, carrier, dit_ms);
    enc.add_data("OK").unwrap();

    let mut stereo: Vec<i32> = Vec::new();
    while !enc.is_idle() {
        let s = enc.next().unwrap();
        stereo.push(s);
        stereo.push(s);
    }
    stereo.extend(std::iter::repeat(0).take(2 * RATE as usize));

    let mut rx = MorseReceive::new(sr, carrier, dit_ms);
    let mut heard = String::new();
    // Deliver in odd-sized slabs to exercise the chunking glue.
    for slab in stereo.chunks(777) {
        for c in rx.input(&slab.to_vec(), 2) {
            heard.push(c);
        }
    }
    assert_eq!(heard, "OK");
}

/// A whole DTMF session: the sender frames a payload with the session
/// markers and a leader tone, the receiver finds the markers in the
/// decoded symbol stream and recovers the payload.
#[test]
fn dtmf_session_roundtrip() {
    let sr = SampleRate::from_hz(RATE);
    let payload = vec![0xABu8, 0x42];

    let mut tx = DtmfSend::new(&payload, sr);
    let mut rx = DtmfReceive::new(sr);

    let mut recovered: Vec<Vec<u8>> = Vec::new();
    // 14 seconds of mono audio covers the leader and all eight symbols.
    let total_frames = 14 * RATE as usize;
    let mut produced = 0usize;
    while produced < total_frames {
        let mut buffer = vec![0i32; 1024];
        tx.output(&mut buffer, 1);
        produced += buffer.len();
        for p in rx.input(&buffer, 1) {
            recovered.push(p);
        }
    }
    assert_eq!(recovered, vec![payload]);
}
