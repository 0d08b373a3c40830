use radio_data::goertzel::goertzel_mag;
use radio_data::math::isqrt_u128;
use radio_data::misc::SampleRate;
use radio_data::tone::{SmoothTone, Tone};
use radio_data::trig::{cos_cycle, sin_cycle};
use radio_data::windows::{BlackmanNuttallWindow, HannWindow, SquareWindow};

/// The DTMF/Morse detection threshold used across the signal tests.
const EPSILON: u64 = 50000;

fn pure_tone(freq: u32, rate: u32, n: usize) -> Vec<i32> {
    let mut tone = Tone::new(freq, SampleRate::from_hz(rate));
    let mut out = Vec::new();
    for _ in 0..n {
        out.push(tone.next().unwrap());
    }
    out
}

#[test]
fn isqrt_exact() {
    assert_eq!(isqrt_u128(0), 0);
    assert_eq!(isqrt_u128(1), 1);
    assert_eq!(isqrt_u128(3), 1);
    assert_eq!(isqrt_u128(4), 2);
    assert_eq!(isqrt_u128(144), 12);
    assert_eq!(isqrt_u128(145), 12);
    assert_eq!(isqrt_u128((1u128 << 80) - 1), (1u64 << 40) - 1);
}

#[test]
fn trig_hits_the_cardinal_points() {
    // sin on quarter turns: 0, 1, 0, -1 (in units of 1/32768).
    assert_eq!(sin_cycle(0, 4), 0);
    assert_eq!(sin_cycle(1, 4), 32768);
    assert_eq!(sin_cycle(2, 4), 0);
    assert_eq!(sin_cycle(3, 4), -32768);
    assert_eq!(cos_cycle(0, 4), 32768);
    assert_eq!(cos_cycle(1, 4), 0);
    assert_eq!(cos_cycle(2, 4), -32768);
    // sin of an eighth of a turn: 32768 / sqrt(2), within a count or two.
    let s = sin_cycle(1, 8);
    assert!((s - 23170).abs() <= 2, "sin(45deg) = {s}");
}

#[test]
fn oscillator_duration_counts_exactly() {
    // With duration(n), exactly n samples come out, then nothing; reset
    // restores another full n.
    let mut tone = Tone::new(1000, SampleRate::from_hz(48000)).duration(5);
    for _ in 0..5 {
        assert!(tone.next().is_some());
    }
    assert!(tone.next().is_none());
    assert!(tone.next().is_none());
    tone.reset();
    for _ in 0..5 {
        assert!(tone.next().is_some());
    }
    assert!(tone.next().is_none());
}

#[test]
fn smooth_tone_fades_in_and_out() {
    // 1500 Hz at 48 kHz has a 32-sample period, so samples one period
    // apart share the same underlying phase.
    let rate = SampleRate::from_hz(48000);
    let mut tone = SmoothTone::new(1500, rate, 4800);
    let mut samples = Vec::new();
    for _ in 0..4800 {
        samples.push(tone.next().unwrap());
    }
    // Fade-in: the first sample is strictly quieter than the unfaded
    // mid-stream sample at the same phase.
    let first = samples[0]; // index 1 in the oscillator's one-based count
    let mid = samples[128]; // index 129 = 1 + 4 * 32
    assert!(mid != 0);
    assert!(first.abs() < mid.abs(), "fade-in: {first} vs {mid}");
    // Fade-out: the last sample is strictly quieter than the sample one
    // hundred periods earlier at the same phase.
    let last = samples[4798]; // index 4799
    let earlier = samples[4798 - 3200]; // index 1599
    assert!(earlier != 0);
    assert!(last.abs() < earlier.abs(), "fade-out: {last} vs {earlier}");
}

#[test]
fn goertzel_detects_and_rejects() {
    // A full-scale pure sine at exactly the probed frequency is loud;
    // probing two bin-widths away (one bin is 93.75 Hz here), or probing
    // silence, stays below the detection threshold.
    let samples = pure_tone(1500, 48000, 512);
    let on = goertzel_mag(1500, &samples, 48000);
    assert!(on > EPSILON, "on-frequency magnitude {on}");

    let off = goertzel_mag(2250, &samples, 48000);
    assert!(off < EPSILON, "off-frequency magnitude {off}");

    let silence = vec![0i32; 512];
    assert_eq!(goertzel_mag(1500, &silence, 48000), 0);
}

#[test]
fn goertzel_grows_with_amplitude() {
    // Magnitude increases monotonically with the amplitude of the probed
    // tone: full scale beats half scale beats quarter scale.
    let full = pure_tone(1500, 48000, 512);
    let half: Vec<i32> = full.iter().map(|x| x / 2).collect();
    let quarter: Vec<i32> = full.iter().map(|x| x / 4).collect();
    let m_full = goertzel_mag(1500, &full, 48000);
    let m_half = goertzel_mag(1500, &half, 48000);
    let m_quarter = goertzel_mag(1500, &quarter, 48000);
    assert!(m_full > m_half && m_half > m_quarter);
    assert!(m_quarter > EPSILON);
}

#[test]
fn windows_shape_the_buffer() {
    let samples = vec![10000i32; 64];
    assert_eq!(SquareWindow.window(&samples), samples);

    let hann = HannWindow.window(&samples);
    assert_eq!(hann.len(), 64);
    // The Hann window is zero at the left edge and full near the middle.
    assert_eq!(hann[0], 0);
    assert_eq!(hann[32], 10000);
    assert!(hann[1] < hann[16] && hann[16] < hann[32]);

    let bn = BlackmanNuttallWindow.window(&samples);
    assert_eq!(bn.len(), 64);
    // Blackman-Nuttall is tiny at the edges and full in the middle.
    assert!(bn[0].abs() <= 10);
    assert!((bn[32] - 10000).abs() <= 100);
    assert_eq!(SquareWindow.name(), "square");
    assert_eq!(HannWindow.name(), "hann");
    assert_eq!(BlackmanNuttallWindow.name(), "blackman");
}
