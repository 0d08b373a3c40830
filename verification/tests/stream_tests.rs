use radio_data::dtmf::bin_to_dtmf;
use radio_data::misc::SampleRate;
use radio_data::sequence::Sequence;
use radio_data::stream::{frame_payload, to_mono, ChunkBuffer, RangeTest};
use radio_data::tone::Tone;
use radio_data::windows::Color;

const RATE: u32 = 48000;
const CHUNK: usize = 512;

#[test]
fn to_mono_averages_frames() {
    // Two channels: each frame averages; the trailing partial frame is
    // dropped.
    let samples = vec![10, 20, -10, 30, 7, 9, 5];
    assert_eq!(to_mono(&samples, 2), vec![15, 10, 8]);
    // One channel: identity.
    assert_eq!(to_mono(&samples, 1), samples);
}

#[test]
fn chunk_buffer_deals_exact_windows() {
    let mut buf = ChunkBuffer::new(4);
    buf.push(&vec![1, 2, 3]);
    assert!(!buf.has_chunk());
    buf.push(&vec![4, 5]);
    assert!(buf.has_chunk());
    assert_eq!(buf.take_chunk(), vec![1, 2, 3, 4]);
    assert!(!buf.has_chunk());
    assert_eq!(buf.buffered(), 1);
}

#[test]
fn frame_payload_wraps_with_markers() {
    let payload = vec![0xABu8];
    let framed = frame_payload(&payload);
    let mut expected = vec![b'A', b'#'];
    expected.extend(bin_to_dtmf(&payload));
    expected.push(b'#');
    expected.push(b'D');
    assert_eq!(framed, expected);
}

#[test]
fn sequence_plays_tones_back_to_back() {
    let sr = SampleRate::from_hz(RATE);
    let mut seq = Sequence::new();
    seq.add(440, sr, 3);
    seq.add(880, sr, 2);

    let mut count = 0;
    while seq.next().is_some() {
        count += 1;
    }
    assert_eq!(count, 5);
    assert!(seq.next().is_none());
}

#[test]
fn range_test_replies_to_the_code() {
    let sr = SampleRate::from_hz(RATE);
    let mut unit = RangeTest::new(sr);

    // Before anything is heard the output is silence.
    let mut buffer = vec![99i32; 256];
    unit.output(&mut buffer, 1);
    assert!(buffer.iter().all(|&s| s == 0));

    // Play the four code symbols as dual tones, with silence in between
    // so the confirmation window resolves each one.  The code "ABCD" sits
    // in grid column 3 (1633 Hz), one symbol per row.
    let rows = [697u32, 770, 852, 941];
    let mut fired = false;
    for &row in rows.iter() {
        // 15 confirmed chunks of the dual tone.
        let mut a = Tone::new(row, sr);
        let mut b = Tone::new(1633, sr);
        let mut tone_samples = Vec::new();
        for _ in 0..15 * CHUNK {
            tone_samples.push(a.next().unwrap() / 2 + b.next().unwrap() / 2);
        }
        fired = unit.input(&tone_samples, 1) || fired;
        // A gap of silence between symbols.
        let silence = vec![0i32; 4 * CHUNK];
        fired = unit.input(&silence, 1) || fired;
    }
    assert!(fired, "the code should trigger the reply tone");

    // Now the output carries the reply tone.
    let mut buffer = vec![0i32; 256];
    unit.output(&mut buffer, 1);
    assert!(buffer.iter().any(|&s| s != 0));
}

#[test]
fn color_from_hex() {
    let c = Color::hex(0xDD562E);
    assert_eq!(c, Color::new(0xDD, 0x56, 0x2E));
    assert_eq!(c.to_slice(), [0xDD, 0x56, 0x2E, 0xFF]);
}
