use radio_data::dtmf::{bin_to_dtmf, dtmf_to_bin, symbol_for_index, symbol_index};
use radio_data::morse::{glyph_to_char, morse_str, Morse};

#[test]
fn dtmf_nibble_symbol_roundtrip_all() {
    // Every 4-bit value maps to a distinct symbol and back to itself.
    for n in 0..16usize {
        let sym = symbol_for_index(n);
        assert_eq!(symbol_index(sym), Some(n));
    }
}

#[test]
fn dtmf_alphabet_is_the_keypad() {
    let expected = b"123A456B789C*0#D";
    for (i, &sym) in expected.iter().enumerate() {
        assert_eq!(symbol_for_index(i), sym);
    }
    assert_eq!(symbol_index(b'E'), None);
    assert_eq!(symbol_index(b' '), None);
}

#[test]
fn dtmf_byte_roundtrip() {
    let data = vec![0xABu8, 0x00, 0xFF, 0x5C];
    let symbols = bin_to_dtmf(&data);
    assert_eq!(symbols.len(), 8);
    assert_eq!(dtmf_to_bin(&symbols), data);
}

#[test]
fn dtmf_known_encoding_of_ab() {
    // 0xAB splits into nibbles 0xB then 0xA (low first); each nibble is
    // bit-reversed onto the keypad grid, giving indices 13 and 5.
    let symbols = bin_to_dtmf(&vec![0xABu8]);
    assert_eq!(symbols, vec![b'0', b'5']);
}

#[test]
fn dtmf_odd_symbol_count_pads_high_nibble() {
    let symbols = vec![b'0'];
    assert_eq!(dtmf_to_bin(&symbols), vec![0x0B]);
}

#[test]
fn morse_encodes_sos() {
    let encoded = Morse::from_str("SOS").unwrap();
    let gap = Morse::Gap;
    let dit = Morse::Dit;
    let dah = Morse::Dah;
    assert_eq!(
        encoded,
        vec![dit, dit, dit, gap, dah, dah, dah, gap, dit, dit, dit, gap]
    );
    assert_eq!(morse_str(&encoded), "...---...");
}

#[test]
fn morse_folds_case() {
    assert_eq!(Morse::from_str("sos").unwrap(), Morse::from_str("SOS").unwrap());
}

#[test]
fn morse_rejects_unsupported_character() {
    let err = Morse::from_str("SO%S").unwrap_err();
    assert_eq!(err.character, '%');
    // Nothing of the valid prefix survives: encoding is all or nothing.
    let err = Morse::from_str("%").unwrap_err();
    assert_eq!(err.character, '%');
}

#[test]
fn morse_durations_are_dit_multiples() {
    assert_eq!(Morse::Dit.duration(100), 100);
    assert_eq!(Morse::Dah.duration(100), 300);
    assert_eq!(Morse::Gap.duration(100), 300);
    assert_eq!(Morse::Space.duration(100), 700);
}

#[test]
fn morse_from_duration_classifies() {
    let options = vec![Morse::Dah, Morse::Dit];
    // Within half a dit of the nominal lengths.
    assert_eq!(Morse::from_duration(&options, 100, 100), Some(Morse::Dit));
    assert_eq!(Morse::from_duration(&options, 130, 100), Some(Morse::Dit));
    assert_eq!(Morse::from_duration(&options, 300, 100), Some(Morse::Dah));
    assert_eq!(Morse::from_duration(&options, 280, 100), Some(Morse::Dah));
    // Jitter matches nothing.
    assert_eq!(Morse::from_duration(&options, 200, 100), None);
    assert_eq!(Morse::from_duration(&options, 1000, 100), None);
}

#[test]
fn morse_glyph_reverse_lookup() {
    let glyph = vec![Morse::Dit, Morse::Dit, Morse::Dit];
    assert_eq!(glyph_to_char(&glyph), 'S');
    let glyph = vec![Morse::Dah, Morse::Dah, Morse::Dah];
    assert_eq!(glyph_to_char(&glyph), 'O');
    // An impossible glyph falls back to the null placeholder.
    let glyph = vec![Morse::Dit; 12];
    assert_eq!(glyph_to_char(&glyph), '\u{0}');
}
