//! Morse code: a 57-character bidirectional glyph table, a timed
//! tone/silence encoder driven by a three-state machine, and a decoder that
//! classifies tone and silence durations back into symbols and characters.
//!
//! All timing is a fixed multiple of the configurable dit length: a dah and
//! the intra-word gap last three dits, a word space seven.  The encoder
//! additionally brackets every symbol with a one-dit pause, so on the wire
//! a letter boundary is heard as five dits of silence and a word boundary
//! as seventeen; the decoder classifies what the encoder emits.

use vstd::prelude::*;

verus! {

use crate::goertzel::{goertzel_mag, spec_goertzel_mag, MAX_WINDOW};
use crate::math::abs_int;
use crate::misc::SampleRate;
use crate::tone::{SmoothTone, spec_smooth_sample, MAX_SPAN};

/// Magnitudes below this count as silence for the carrier detector.
pub const MAGNITUDE_EPSILON: u64 = 50000;

/// The timing units of Morse code.  A dah is three dits long; a gap
/// (between characters) also lasts three dits, and a word space seven.
#[derive(Debug, Clone, Copy, PartialEq, Eq, Structural)]
pub enum Morse {
    /// The smallest unit of time: one dit of tone.
    Dit,
    /// Three dits of tone.
    Dah,
    /// The silence between characters.
    Gap,
    /// The silence between words.
    Space,
}

/// The error `add_data` reports for text outside the supported alphabet,
/// naming the offending character.
#[derive(Debug, Clone, Copy, PartialEq, Eq, Structural)]
pub struct InvalidCharacter {
    /// The character that has no Morse glyph.
    pub character: char,
}

/// The table index of a character, or -1 if it has no glyph.  Letters fold
/// to their uppercase glyph.
pub open spec fn spec_char_index(c: char) -> int {
    let u = c as u32;
    if 65 <= u <= 90 {
        u - 65
    } else if 97 <= u <= 122 {
        u - 97
    } else if 48 <= u <= 57 {
        u - 48 + 26
    } else if c == '.' {
        36
    } else if c == ',' {
        37
    } else if c == '?' {
        38
    } else if c == '\'' {
        39
    } else if c == '!' {
        40
    } else if c == '/' {
        41
    } else if c == '(' {
        42
    } else if c == ')' {
        43
    } else if c == '&' {
        44
    } else if c == ':' {
        45
    } else if c == ';' {
        46
    } else if c == '=' {
        47
    } else if c == '+' {
        48
    } else if c == '-' {
        49
    } else if c == '_' {
        50
    } else if c == '"' {
        51
    } else if c == '$' {
        52
    } else if c == '@' {
        53
    } else if c == '\u{BF}' {
        54
    } else if c == '\u{A1}' {
        55
    } else if c == ' ' {
        56
    } else {
        -1
    }
}

/// Whether a character has a Morse glyph.
pub open spec fn spec_is_morse_char(c: char) -> bool {
    spec_char_index(c) >= 0
}

/// The glyph (sequence of timing symbols) at table index `i`.
pub open spec fn spec_glyph(i: int) -> Seq<Morse> {
    if i == 0 {
        seq![Morse::Dit, Morse::Dah]
    } else if i == 1 {
        seq![Morse::Dah, Morse::Dit, Morse::Dit, Morse::Dit]
    } else if i == 2 {
        seq![Morse::Dah, Morse::Dit, Morse::Dah, Morse::Dit]
    } else if i == 3 {
        seq![Morse::Dah, Morse::Dit, Morse::Dit]
    } else if i == 4 {
        seq![Morse::Dit]
    } else if i == 5 {
        seq![Morse::Dit, Morse::Dit, Morse::Dah]
    } else if i == 6 {
        seq![Morse::Dah, Morse::Dah, Morse::Dit]
    } else if i == 7 {
        seq![Morse::Dit, Morse::Dit, Morse::Dit, Morse::Dit]
    } else if i == 8 {
        seq![Morse::Dit, Morse::Dit]
    } else if i == 9 {
        seq![Morse::Dit, Morse::Dah, Morse::Dah, Morse::Dah]
    } else if i == 10 {
        seq![Morse::Dah, Morse::Dit, Morse::Dah]
    } else if i == 11 {
        seq![Morse::Dit, Morse::Dah, Morse::Dit]
    } else if i == 12 {
        seq![Morse::Dah, Morse::Dah]
    } else if i == 13 {
        seq![Morse::Dah, Morse::Dit]
    } else if i == 14 {
        seq![Morse::Dah, Morse::Dah, Morse::Dah]
    } else if i == 15 {
        seq![Morse::Dit, Morse::Dah, Morse::Dah, Morse::Dit]
    } else if i == 16 {
        seq![Morse::Dah, Morse::Dah, Morse::Dit, Morse::Dah]
    } else if i == 17 {
        seq![Morse::Dit, Morse::Dah, Morse::Dit]
    } else if i == 18 {
        seq![Morse::Dit, Morse::Dit, Morse::Dit]
    } else if i == 19 {
        seq![Morse::Dah]
    } else if i == 20 {
        seq![Morse::Dit, Morse::Dit, Morse::Dah]
    } else if i == 21 {
        seq![Morse::Dit, Morse::Dit, Morse::Dit, Morse::Dah]
    } else if i == 22 {
        seq![Morse::Dit, Morse::Dah, Morse::Dah]
    } else if i == 23 {
        seq![Morse::Dah, Morse::Dit, Morse::Dit]
    } else if i == 24 {
        seq![Morse::Dah, Morse::Dit, Morse::Dah, Morse::Dah]
    } else if i == 25 {
        seq![Morse::Dah, Morse::Dah, Morse::Dit]
    } else if i == 26 {
        seq![Morse::Dah, Morse::Dah, Morse::Dah, Morse::Dah, Morse::Dah]
    } else if i == 27 {
        seq![Morse::Dit, Morse::Dah, Morse::Dah, Morse::Dah, Morse::Dah]
    } else if i == 28 {
        seq![Morse::Dit, Morse::Dit, Morse::Dah, Morse::Dah, Morse::Dah]
    } else if i == 29 {
        seq![Morse::Dit, Morse::Dit, Morse::Dit, Morse::Dah, Morse::Dah]
    } else if i == 30 {
        seq![Morse::Dit, Morse::Dit, Morse::Dit, Morse::Dit, Morse::Dah]
    } else if i == 31 {
        seq![Morse::Dit, Morse::Dit, Morse::Dit, Morse::Dit]
    } else if i == 32 {
        seq![Morse::Dah, Morse::Dit, Morse::Dit, Morse::Dit, Morse::Dit]
    } else if i == 33 {
        seq![Morse::Dah, Morse::Dah, Morse::Dit, Morse::Dit, Morse::Dit]
    } else if i == 34 {
        seq![Morse::Dah, Morse::Dah, Morse::Dah, Morse::Dit, Morse::Dit]
    } else if i == 35 {
        seq![Morse::Dah, Morse::Dah, Morse::Dah, Morse::Dah]
    } else if i == 36 {
        seq![Morse::Dit, Morse::Dah, Morse::Dit, Morse::Dah, Morse::Dit, Morse::Dah]
    } else if i == 37 {
        seq![Morse::Dah, Morse::Dah, Morse::Dit, Morse::Dit, Morse::Dah, Morse::Dah]
    } else if i == 38 {
        seq![Morse::Dit, Morse::Dit, Morse::Dah, Morse::Dah, Morse::Dit, Morse::Dit]
    } else if i == 39 {
        seq![Morse::Dit, Morse::Dah, Morse::Dah, Morse::Dah, Morse::Dah, Morse::Dit]
    } else if i == 40 {
        seq![Morse::Dah, Morse::Dit, Morse::Dah, Morse::Dit, Morse::Dah, Morse::Dah]
    } else if i == 41 {
        seq![Morse::Dah, Morse::Dit, Morse::Dit, Morse::Dah]
    } else if i == 42 {
        seq![Morse::Dah, Morse::Dit, Morse::Dah, Morse::Dah, Morse::Dit]
    } else if i == 43 {
        seq![Morse::Dah, Morse::Dit, Morse::Dah, Morse::Dah, Morse::Dit, Morse::Dah]
    } else if i == 44 {
        seq![Morse::Dit, Morse::Dah, Morse::Dit, Morse::Dit, Morse::Dit]
    } else if i == 45 {
        seq![Morse::Dah, Morse::Dah, Morse::Dah, Morse::Dit, Morse::Dit, Morse::Dit]
    } else if i == 46 {
        seq![Morse::Dah, Morse::Dit, Morse::Dah, Morse::Dit, Morse::Dah, Morse::Dit]
    } else if i == 47 {
        seq![Morse::Dah, Morse::Dit, Morse::Dit, Morse::Dit]
    } else if i == 48 {
        seq![Morse::Dit, Morse::Dah, Morse::Dit, Morse::Dah, Morse::Dit]
    } else if i == 49 {
        seq![Morse::Dah, Morse::Dit, Morse::Dit, Morse::Dit, Morse::Dit, Morse::Dah]
    } else if i == 50 {
        seq![Morse::Dit, Morse::Dit, Morse::Dah, Morse::Dah, Morse::Dit, Morse::Dah]
    } else if i == 51 {
        seq![Morse::Dit, Morse::Dah, Morse::Dit, Morse::Dit, Morse::Dah, Morse::Dit]
    } else if i == 52 {
        seq![Morse::Dit, Morse::Dit, Morse::Dit, Morse::Dah, Morse::Dit, Morse::Dit, Morse::Dah]
    } else if i == 53 {
        seq![Morse::Dit, Morse::Dah, Morse::Dah, Morse::Dit, Morse::Dah]
    } else if i == 54 {
        seq![Morse::Dit, Morse::Dit, Morse::Dah, Morse::Dit, Morse::Dah]
    } else if i == 55 {
        seq![Morse::Dah, Morse::Dah, Morse::Dit, Morse::Dit, Morse::Dit]
    } else {
        seq![Morse::Space]
    }
}

/// The character at table index `i`.
pub open spec fn spec_char_at(i: int) -> char {

    if i == 0 {
        'A'
    } else if i == 1 {
        'B'
    } else if i == 2 {
        'C'
    } else if i == 3 {
        'D'
    } else if i == 4 {
        'E'
    } else if i == 5 {
        'F'
    } else if i == 6 {
        'G'
    } else if i == 7 {
        'H'
    } else if i == 8 {
        'I'
    } else if i == 9 {
        'J'
    } else if i == 10 {
        'K'
    } else if i == 11 {
        'L'
    } else if i == 12 {
        'M'
    } else if i == 13 {
        'N'
    } else if i == 14 {
        'O'
    } else if i == 15 {
        'P'
    } else if i == 16 {
        'Q'
    } else if i == 17 {
        'R'
    } else if i == 18 {
        'S'
    } else if i == 19 {
        'T'
    } else if i == 20 {
        'U'
    } else if i == 21 {
        'V'
    } else if i == 22 {
        'W'
    } else if i == 23 {
        'X'
    } else if i == 24 {
        'Y'
    } else if i == 25 {
        'Z'
    } else if i == 26 {
        '0'
    } else if i == 27 {
        '1'
    } else if i == 28 {
        '2'
    } else if i == 29 {
        '3'
    } else if i == 30 {
        '4'
    } else if i == 31 {
        '5'
    } else if i == 32 {
        '6'
    } else if i == 33 {
        '7'
    } else if i == 34 {
        '8'
    } else if i == 35 {
        '9'
    } else if i == 36 {
        '.'
    } else if i == 37 {
        ','
    } else if i == 38 {
        '?'
    } else if i == 39 {
        '\''
    } else if i == 40 {
        '!'
    } else if i == 41 {
        '/'
    } else if i == 42 {
        '('
    } else if i == 43 {
        ')'
    } else if i == 44 {
        '&'
    } else if i == 45 {
        ':'
    } else if i == 46 {
        ';'
    } else if i == 47 {
        '='
    } else if i == 48 {
        '+'
    } else if i == 49 {
        '-'
    } else if i == 50 {
        '_'
    } else if i == 51 {
        '"'
    } else if i == 52 {
        '$'
    } else if i == 53 {
        '@'
    } else if i == 54 {
        '\u{BF}'
    } else if i == 55 {
        '\u{A1}'
    } else {
        ' '
    }
}

/// Every glyph holds at most seven symbols.
pub proof fn lemma_glyph_len(i: int)
    ensures
        1 <= spec_glyph(i).len() <= 7,
{
}

/// The table index of a character.
pub fn char_index(c: char) -> (r: Option<usize>)
    ensures
        r is Some <==> spec_is_morse_char(c),
        r matches Some(i) ==> i < 57 && i == spec_char_index(c),
{
    let u = c as u32;
    if 65 <= u && u <= 90 {
        Some((u - 65) as usize)
    } else if 97 <= u && u <= 122 {
        Some((u - 97) as usize)
    } else if 48 <= u && u <= 57 {
        Some((u - 48 + 26) as usize)
    } else {
        match c {
            '.' => Some(36),
            ',' => Some(37),
            '?' => Some(38),
            '\'' => Some(39),
            '!' => Some(40),
            '/' => Some(41),
            '(' => Some(42),
            ')' => Some(43),
            '&' => Some(44),
            ':' => Some(45),
            ';' => Some(46),
            '=' => Some(47),
            '+' => Some(48),
            '-' => Some(49),
            '_' => Some(50),
            '"' => Some(51),
            '$' => Some(52),
            '@' => Some(53),
            '\u{BF}' => Some(54),
            '\u{A1}' => Some(55),
            ' ' => Some(56),
            _ => None,
        }
    }
}

/// The glyph at table index `i`.
pub fn glyph_for_index(i: usize) -> (r: Vec<Morse>)
    requires
        i < 57,
    ensures
        r@ == spec_glyph(i as int),
{
match i {
        0 => vec![Morse::Dit, Morse::Dah],
        1 => vec![Morse::Dah, Morse::Dit, Morse::Dit, Morse::Dit],
        2 => vec![Morse::Dah, Morse::Dit, Morse::Dah, Morse::Dit],
        3 => vec![Morse::Dah, Morse::Dit, Morse::Dit],
        4 => vec![Morse::Dit],
        5 => vec![Morse::Dit, Morse::Dit, Morse::Dah],
        6 => vec![Morse::Dah, Morse::Dah, Morse::Dit],
        7 => vec![Morse::Dit, Morse::Dit, Morse::Dit, Morse::Dit],
        8 => vec![Morse::Dit, Morse::Dit],
        9 => vec![Morse::Dit, Morse::Dah, Morse::Dah, Morse::Dah],
        10 => vec![Morse::Dah, Morse::Dit, Morse::Dah],
        11 => vec![Morse::Dit, Morse::Dah, Morse::Dit],
        12 => vec![Morse::Dah, Morse::Dah],
        13 => vec![Morse::Dah, Morse::Dit],
        14 => vec![Morse::Dah, Morse::Dah, Morse::Dah],
        15 => vec![Morse::Dit, Morse::Dah, Morse::Dah, Morse::Dit],
        16 => vec![Morse::Dah, Morse::Dah, Morse::Dit, Morse::Dah],
        17 => vec![Morse::Dit, Morse::Dah, Morse::Dit],
        18 => vec![Morse::Dit, Morse::Dit, Morse::Dit],
        19 => vec![Morse::Dah],
        20 => vec![Morse::Dit, Morse::Dit, Morse::Dah],
        21 => vec![Morse::Dit, Morse::Dit, Morse::Dit, Morse::Dah],
        22 => vec![Morse::Dit, Morse::Dah, Morse::Dah],
        23 => vec![Morse::Dah, Morse::Dit, Morse::Dit],
        24 => vec![Morse::Dah, Morse::Dit, Morse::Dah, Morse::Dah],
        25 => vec![Morse::Dah, Morse::Dah, Morse::Dit],
        26 => vec![Morse::Dah, Morse::Dah, Morse::Dah, Morse::Dah, Morse::Dah],
        27 => vec![Morse::Dit, Morse::Dah, Morse::Dah, Morse::Dah, Morse::Dah],
        28 => vec![Morse::Dit, Morse::Dit, Morse::Dah, Morse::Dah, Morse::Dah],
        29 => vec![Morse::Dit, Morse::Dit, Morse::Dit, Morse::Dah, Morse::Dah],
        30 => vec![Morse::Dit, Morse::Dit, Morse::Dit, Morse::Dit, Morse::Dah],
        31 => vec![Morse::Dit, Morse::Dit, Morse::Dit, Morse::Dit],
        32 => vec![Morse::Dah, Morse::Dit, Morse::Dit, Morse::Dit, Morse::Dit],
        33 => vec![Morse::Dah, Morse::Dah, Morse::Dit, Morse::Dit, Morse::Dit],
        34 => vec![Morse::Dah, Morse::Dah, Morse::Dah, Morse::Dit, Morse::Dit],
        35 => vec![Morse::Dah, Morse::Dah, Morse::Dah, Morse::Dah],
        36 => vec![Morse::Dit, Morse::Dah, Morse::Dit, Morse::Dah, Morse::Dit, Morse::Dah],
        37 => vec![Morse::Dah, Morse::Dah, Morse::Dit, Morse::Dit, Morse::Dah, Morse::Dah],
        38 => vec![Morse::Dit, Morse::Dit, Morse::Dah, Morse::Dah, Morse::Dit, Morse::Dit],
        39 => vec![Morse::Dit, Morse::Dah, Morse::Dah, Morse::Dah, Morse::Dah, Morse::Dit],
        40 => vec![Morse::Dah, Morse::Dit, Morse::Dah, Morse::Dit, Morse::Dah, Morse::Dah],
        41 => vec![Morse::Dah, Morse::Dit, Morse::Dit, Morse::Dah],
        42 => vec![Morse::Dah, Morse::Dit, Morse::Dah, Morse::Dah, Morse::Dit],
        43 => vec![Morse::Dah, Morse::Dit, Morse::Dah, Morse::Dah, Morse::Dit, Morse::Dah],
        44 => vec![Morse::Dit, Morse::Dah, Morse::Dit, Morse::Dit, Morse::Dit],
        45 => vec![Morse::Dah, Morse::Dah, Morse::Dah, Morse::Dit, Morse::Dit, Morse::Dit],
        46 => vec![Morse::Dah, Morse::Dit, Morse::Dah, Morse::Dit, Morse::Dah, Morse::Dit],
        47 => vec![Morse::Dah, Morse::Dit, Morse::Dit, Morse::Dit],
        48 => vec![Morse::Dit, Morse::Dah, Morse::Dit, Morse::Dah, Morse::Dit],
        49 => vec![Morse::Dah, Morse::Dit, Morse::Dit, Morse::Dit, Morse::Dit, Morse::Dah],
        50 => vec![Morse::Dit, Morse::Dit, Morse::Dah, Morse::Dah, Morse::Dit, Morse::Dah],
        51 => vec![Morse::Dit, Morse::Dah, Morse::Dit, Morse::Dit, Morse::Dah, Morse::Dit],
        52 => vec![Morse::Dit, Morse::Dit, Morse::Dit, Morse::Dah, Morse::Dit, Morse::Dit, Morse::Dah],
        53 => vec![Morse::Dit, Morse::Dah, Morse::Dah, Morse::Dit, Morse::Dah],
        54 => vec![Morse::Dit, Morse::Dit, Morse::Dah, Morse::Dit, Morse::Dah],
        55 => vec![Morse::Dah, Morse::Dah, Morse::Dit, Morse::Dit, Morse::Dit],
        _ => vec![Morse::Space],
    }
}

/// The character at table index `i`.
pub fn char_for_index(i: usize) -> (r: char)
    requires
        i < 57,
    ensures
        r == spec_char_at(i as int),
{
match i {
        0 => 'A',
        1 => 'B',
        2 => 'C',
        3 => 'D',
        4 => 'E',
        5 => 'F',
        6 => 'G',
        7 => 'H',
        8 => 'I',
        9 => 'J',
        10 => 'K',
        11 => 'L',
        12 => 'M',
        13 => 'N',
        14 => 'O',
        15 => 'P',
        16 => 'Q',
        17 => 'R',
        18 => 'S',
        19 => 'T',
        20 => 'U',
        21 => 'V',
        22 => 'W',
        23 => 'X',
        24 => 'Y',
        25 => 'Z',
        26 => '0',
        27 => '1',
        28 => '2',
        29 => '3',
        30 => '4',
        31 => '5',
        32 => '6',
        33 => '7',
        34 => '8',
        35 => '9',
        36 => '.',
        37 => ',',
        38 => '?',
        39 => '\'',
        40 => '!',
        41 => '/',
        42 => '(',
        43 => ')',
        44 => '&',
        45 => ':',
        46 => ';',
        47 => '=',
        48 => '+',
        49 => '-',
        50 => '_',
        51 => '"',
        52 => '$',
        53 => '@',
        54 => '\u{BF}',
        55 => '\u{A1}',
        _ => ' ',
    }
}

/// The index of the first character of `cs` (from position `i` on) that
/// has no glyph, or -1 if all are encodable.
pub open spec fn spec_first_bad_from(cs: Seq<char>, i: int) -> int
    decreases cs.len() - i,
{
    if i < 0 || i >= cs.len() {
        -1
    } else if spec_char_index(cs[i]) < 0 {
        i
    } else {
        spec_first_bad_from(cs, i + 1)
    }
}

/// The Morse encoding of a character sequence: each character's glyph
/// followed by a gap.
pub open spec fn spec_encode(cs: Seq<char>) -> Seq<Morse>
    decreases cs.len(),
{
    if cs.len() == 0 {
        Seq::empty()
    } else {
        spec_encode(cs.drop_last()) + spec_glyph(spec_char_index(cs.last())) + seq![Morse::Gap]
    }
}


/// The printed form of one timing symbol.
pub open spec fn spec_char_repr(m: Morse) -> Seq<char> {
    match m {
        Morse::Dit => seq!['.'],
        Morse::Dah => seq!['-'],
        Morse::Gap => Seq::empty(),
        Morse::Space => seq![' '],
    }
}

/// The printed form of a symbol sequence.
pub open spec fn spec_morse_str(bits: Seq<Morse>) -> Seq<char>
    decreases bits.len(),
{
    if bits.len() == 0 {
        Seq::empty()
    } else {
        spec_morse_str(bits.drop_last()) + spec_char_repr(bits.last())
    }
}

/// The duration of one symbol in milliseconds, given the dit length.
pub open spec fn spec_duration(m: Morse, dit_length: int) -> int {
    match m {
        Morse::Dit => dit_length,
        Morse::Dah => dit_length * 3,
        Morse::Gap => dit_length * 3,
        Morse::Space => dit_length * 7,
    }
}

/// The first of `options` (from position `j` on) whose duration lies
/// within half a dit of the measured one.
pub open spec fn spec_from_duration_from(
    options: Seq<Morse>,
    j: int,
    duration: int,
    dit_length: int,
) -> Option<Morse>
    decreases options.len() - j,
{
    if j < 0 || j >= options.len() {
        None
    } else if abs_int(spec_duration(options[j], dit_length) - duration) < dit_length / 2 {
        Some(options[j])
    } else {
        spec_from_duration_from(options, j + 1, duration, dit_length)
    }
}

/// The first table index (from `i` on) whose glyph is `g`, or -1.
pub open spec fn spec_glyph_lookup_from(g: Seq<Morse>, i: int) -> int
    decreases 57 - i,
{
    if i < 0 || i >= 57 {
        -1
    } else if spec_glyph(i) == g {
        i
    } else {
        spec_glyph_lookup_from(g, i + 1)
    }
}

/// The character a received glyph decodes to: the table entry if one
/// matches, otherwise the null placeholder.
pub open spec fn spec_decoded_char(g: Seq<Morse>) -> char {
    let i = spec_glyph_lookup_from(g, 0);
    if i >= 0 {
        spec_char_at(i)
    } else {
        '\u{0}'
    }
}

impl Morse {
    /// Convert text into a symbol sequence: each character's glyph with a
    /// gap appended.  Rejects the whole input on the first character
    /// without a glyph, naming it; nothing is encoded partially.
    pub fn from_str(s: &str) -> (r: Result<Vec<Morse>, InvalidCharacter>)
        requires
            s@.len() <= 0x10000,
        ensures
            r is Ok <==> spec_first_bad_from(s@, 0) == -1,
            r matches Ok(v) ==> v@ == spec_encode(s@),
            r matches Err(e) ==> e.character == s@[spec_first_bad_from(s@, 0)],
    {
        let n = s.unicode_len();
        let mut out: Vec<Morse> = Vec::new();
        let mut i: usize = 0;
        while i < n
            invariant
                n == s@.len(),
                s@.len() <= 0x10000,
                i <= n,
                spec_first_bad_from(s@, 0) == spec_first_bad_from(s@, i as int),
                out@ == spec_encode(s@.subrange(0, i as int)),
                out@.len() <= 8 * i,
            decreases n - i,
        {
            let c = s.get_char(i);
            let idx: usize = match char_index(c) {
                Some(v) => v,
                None => {
                    return Err(InvalidCharacter { character: c });
                },
            };
            let mut g = glyph_for_index(idx);
            out.append(&mut g);
            out.push(Morse::Gap);
            proof {
                lemma_glyph_len(idx as int);
                let p1 = s@.subrange(0, i + 1);
                assert(p1.drop_last() =~= s@.subrange(0, i as int));
                assert(p1.last() == s@[i as int]);
                assert(out@ =~= spec_encode(p1));
            }
            i = i + 1;
        }
        proof {
            assert(s@.subrange(0, n as int) =~= s@);
        }
        Ok(out)
    }

    /// The printed form of this symbol: a dot, a dash, nothing, or a
    /// space.
    pub fn char_repr(&self) -> (r: &'static str)
        ensures
            r@ == spec_char_repr(*self),
    {
        proof {
            reveal_strlit(".");
            reveal_strlit("-");
            reveal_strlit("");
            reveal_strlit(" ");
        }
        let r = match self {
            Morse::Dit => ".",
            Morse::Dah => "-",
            Morse::Gap => "",
            Morse::Space => " ",
        };
        proof {
            assert(r@ =~= spec_char_repr(*self));
        }
        r
    }

    /// The duration of this symbol in milliseconds.
    pub fn duration(&self, dit_length: u64) -> (r: u64)
        requires
            dit_length <= 0x1000000000000000u64,
        ensures
            r == spec_duration(*self, dit_length as int),
    {
        match self {
            Morse::Dit => dit_length,
            Morse::Dah => dit_length * 3,
            Morse::Gap => dit_length * 3,
            Morse::Space => dit_length * 7,
        }
    }

    /// The first of `options` whose duration lies within half a dit of the
    /// measured `duration`; durations farther out are jitter and match
    /// nothing.
    pub fn from_duration(options: &Vec<Morse>, duration: u64, dit_length: u64) -> (r: Option<
        Morse,
    >)
        requires
            dit_length <= 0x1000000000000000u64,
        ensures
            r == spec_from_duration_from(options@, 0, duration as int, dit_length as int),
    {
        let eps = dit_length / 2;
        let mut j: usize = 0;
        while j < options.len()
            invariant
                j <= options@.len(),
                eps == dit_length as int / 2,
                dit_length <= 0x1000000000000000u64,
                spec_from_duration_from(options@, 0, duration as int, dit_length as int)
                    == spec_from_duration_from(options@, j as int, duration as int, dit_length as int),
            decreases options@.len() - j,
        {
            let expected = options[j].duration(dit_length);
            let delta = if expected >= duration {
                expected - duration
            } else {
                duration - expected
            };
            if delta < eps {
                return Some(options[j]);
            }
            j = j + 1;
        }
        None
    }
}

/// The printed form of a symbol sequence, dots and dashes.
pub fn morse_str(bits: &Vec<Morse>) -> (r: String)
    ensures
        r@ == spec_morse_str(bits@),
{
    let mut out = String::new();
    let mut i: usize = 0;
    while i < bits.len()
        invariant
            i <= bits@.len(),
            out@ == spec_morse_str(bits@.subrange(0, i as int)),
        decreases bits@.len() - i,
    {
        out.append(bits[i].char_repr());
        proof {
            let p1 = bits@.subrange(0, i + 1);
            assert(p1.drop_last() =~= bits@.subrange(0, i as int));
            assert(p1.last() == bits@[i as int]);
            assert(out@ =~= spec_morse_str(p1));
        }
        i = i + 1;
    }
    proof {
        assert(bits@.subrange(0, bits@.len() as int) =~= bits@);
    }
    out
}

/// Whether two symbol sequences are equal.
pub fn morse_eq(a: &Vec<Morse>, b: &Vec<Morse>) -> (r: bool)
    ensures
        r <==> a@ == b@,
{
    if a.len() != b.len() {
        proof {
            assert(a@.len() != b@.len());
        }
        return false;
    }
    let mut i: usize = 0;
    while i < a.len()
        invariant
            a@.len() == b@.len(),
            i <= a@.len(),
            forall|j: int| 0 <= j < i ==> a@[j] == b@[j],
        decreases a@.len() - i,
    {
        if a[i] != b[i] {
            proof {
                assert(a@[i as int] != b@[i as int]);
            }
            return false;
        }
        i = i + 1;
    }
    proof {
        assert(a@ =~= b@);
    }
    true
}

/// Look a received glyph up in the table, decoding it to its character or
/// to the null placeholder if nothing matches.
pub fn glyph_to_char(g: &Vec<Morse>) -> (r: char)
    ensures
        r == spec_decoded_char(g@),
{
    let mut i: usize = 0;
    while i < 57
        invariant
            i <= 57,
            spec_glyph_lookup_from(g@, 0) == spec_glyph_lookup_from(g@, i as int),
        decreases 57 - i,
    {
        let t = glyph_for_index(i);
        if morse_eq(g, &t) {
            return char_for_index(i);
        }
        i = i + 1;
    }
    '\u{0}'
}


/// The number of output samples a symbol lasts.
pub open spec fn spec_send_samples(m: Morse, dit_length: int, rate: int) -> int {
    spec_duration(m, dit_length) * rate / 1000
}

/// The number of output samples in one dit: the pause the encoder inserts
/// after every symbol.
pub open spec fn spec_dit_samples(dit_length: int, rate: int) -> int {
    dit_length * rate / 1000
}

/// The encoding of a text never needs more than eight symbols per
/// character: the longest glyph has seven, plus the appended gap.
pub proof fn lemma_encode_len(cs: Seq<char>)
    ensures
        spec_encode(cs).len() <= 8 * cs.len(),
    decreases cs.len(),
{
    if cs.len() > 0 {
        lemma_encode_len(cs.drop_last());
        lemma_glyph_len(spec_char_index(cs.last()));
    }
}

/// What the encoder is doing while a symbol plays: which symbol, and how
/// many output samples of it are left.
#[derive(Debug, Clone, Copy, PartialEq, Eq, Structural)]
pub struct SendState {
    /// The symbol on the air.
    pub data: Morse,
    /// Output samples left before the symbol ends.
    pub time: u64,
}

/// The encoder's driving state: in the middle of a symbol, waiting out the
/// one-dit pause between symbols, or idle with nothing queued.
#[derive(Debug, Clone, Copy, PartialEq, Eq, Structural)]
pub enum EncodeState {
    /// Currently sending a symbol.
    Sending(SendState),
    /// Pausing for the given number of samples between symbols.
    Waiting(u64),
    /// All data has been sent; silence until more arrives.
    Idle,
}


/// The encoder's state, abstracted for specification: what the contracts
/// of the streaming layer fold over.
pub struct MorseEncoderModel {
    /// The outgoing symbol queue.
    pub queue: Seq<Morse>,
    /// The state machine's position.
    pub state: EncodeState,
    /// The carrier oscillator's sample index.
    pub tone_index: int,
    /// The oscillator's nominal duration in samples.
    pub tone_total: int,
    /// The oscillator's fade-in length in samples.
    pub fade_in: int,
    /// The oscillator's fade-out length in samples.
    pub fade_out: int,
    /// The output sample rate.
    pub rate: int,
    /// The dit length in milliseconds.
    pub dit: int,
    /// The carrier frequency in Hz.
    pub freq: int,
}

/// One whole encoder step as a function of the abstract state: the
/// successor state and the emitted sample.
pub open spec fn spec_morse_enc_step(m: MorseEncoderModel) -> (MorseEncoderModel, int) {
    match m.state {
        EncodeState::Idle => (m, 0),
        EncodeState::Waiting(t) => {
            if t == 0 {
                if m.queue.len() == 0 {
                    (MorseEncoderModel { state: EncodeState::Idle, ..m }, 0)
                } else {
                    let sym = m.queue[0];
                    let samples = spec_send_samples(sym, m.dit, m.rate);
                    (
                        MorseEncoderModel {
                            queue: m.queue.skip(1),
                            state: EncodeState::Sending(
                                SendState { data: sym, time: samples as u64 },
                            ),
                            tone_index: 0,
                            tone_total: samples,
                            ..m
                        },
                        0,
                    )
                }
            } else {
                (MorseEncoderModel { state: EncodeState::Waiting((t - 1) as u64), ..m }, 0)
            }
        },
        EncodeState::Sending(sstate) => {
            if sstate.time == 0 {
                (
                    MorseEncoderModel {
                        state: EncodeState::Waiting(spec_dit_samples(m.dit, m.rate) as u64),
                        ..m
                    },
                    0,
                )
            } else {
                let next_state = EncodeState::Sending(
                    SendState { data: sstate.data, time: (sstate.time - 1) as u64 },
                );
                match sstate.data {
                    Morse::Dit | Morse::Dah => (
                        MorseEncoderModel {
                            state: next_state,
                            tone_index: m.tone_index + 1,
                            ..m
                        },
                        spec_smooth_sample(
                            m.freq,
                            m.rate,
                            m.tone_index + 1,
                            m.tone_total,
                            m.fade_in,
                            m.fade_out,
                        ),
                    ),
                    Morse::Gap | Morse::Space => (
                        MorseEncoderModel { state: next_state, ..m },
                        0,
                    ),
                }
            }
        },
    }
}

/// Encode text as timed tone and silence, one output sample per call.
/// Tones are drawn from a `SmoothTone` retuned per symbol so keying does
/// not click.
pub struct MorseEncoder {
    sample_rate: SampleRate,
    /// Dit length in milliseconds.
    dit_length: u64,
    /// Carrier frequency in Hz.
    frequency: u32,
    /// The carrier oscillator.
    tone: SmoothTone,
    /// The outgoing symbol queue.
    data: Vec<Morse>,
    state: EncodeState,
}

impl MorseEncoder {
    /// The outgoing symbol queue.
    pub closed spec fn queue(self) -> Seq<Morse> {
        self.data@
    }

    /// The state machine's position.
    pub closed spec fn enc_state(self) -> EncodeState {
        self.state
    }

    /// The output sample rate.
    pub closed spec fn rate(self) -> u32 {
        self.sample_rate.output
    }

    /// The dit length in milliseconds.
    pub closed spec fn dit(self) -> u64 {
        self.dit_length
    }

    /// The carrier frequency in Hz.
    pub closed spec fn freq(self) -> u32 {
        self.frequency
    }

    /// The carrier oscillator's state.
    pub closed spec fn tone_state(self) -> SmoothTone {
        self.tone
    }

    pub open spec fn wf(self) -> bool {
        &&& 0 < self.freq() < self.rate()
        &&& 1000 <= self.rate() <= 1000000
        &&& 1 <= self.dit() <= 60000
        &&& self.queue().len() <= 0x100000
        &&& self.tone_state().wf()
        &&& self.tone_state().inner_tone().freq() == self.freq()
        &&& self.tone_state().inner_tone().rate() == self.rate()
        &&& (self.enc_state() matches EncodeState::Sending(s) ==> (s.data is Dit || s.data is Dah)
            ==> self.tone_state().inner_tone().index() + s.time == self.tone_state().total())
    }

    /// The abstract state the streaming layer's contracts fold over.
    pub open spec fn model(self) -> MorseEncoderModel {
        MorseEncoderModel {
            queue: self.queue(),
            state: self.enc_state(),
            tone_index: self.tone_state().inner_tone().index() as int,
            tone_total: self.tone_state().total() as int,
            fade_in: self.tone_state().fade_in() as int,
            fade_out: self.tone_state().fade_out() as int,
            rate: self.rate() as int,
            dit: self.dit() as int,
            freq: self.freq() as int,
        }
    }

    /// A fresh, idle encoder.
    pub fn new(sample_rate: SampleRate, frequency: u32, dit_length: u64) -> (r: Self)
        requires
            0 < frequency < sample_rate.output,
            1000 <= sample_rate.output <= 1000000,
            1 <= dit_length <= 60000,
        ensures
            r.wf(),
            r.queue() == Seq::<Morse>::empty(),
            r.enc_state() is Idle,
            r.rate() == sample_rate.output,
            r.dit() == dit_length,
            r.freq() == frequency,
            r.model() == (MorseEncoderModel {
                queue: Seq::<Morse>::empty(),
                state: EncodeState::Idle,
                tone_index: 0,
                tone_total: 0,
                fade_in: sample_rate.output as int / (frequency as int),
                fade_out: sample_rate.output as int / (frequency as int),
                rate: sample_rate.output as int,
                dit: dit_length as int,
                freq: frequency as int,
            }),
    {
        Self {
            sample_rate,
            dit_length,
            frequency,
            tone: SmoothTone::new(frequency, sample_rate, 0),
            data: Vec::new(),
            state: EncodeState::Idle,
        }
    }

    /// Whether the encoder has sent everything it was given; a caller
    /// driving an output stream polls this to know when to stop.
    pub fn is_idle(&self) -> (r: bool)
        ensures
            r <==> self.enc_state() is Idle,
    {
        match self.state {
            EncodeState::Idle => true,
            _ => false,
        }
    }

    /// Dequeue the next symbol and start sending it: the oscillator is
    /// rewound and cut to the symbol's duration.  Returns false (and
    /// changes nothing) if the queue is empty.
    fn try_advance(&mut self) -> (r: bool)
        requires
            old(self).wf(),
        ensures
            final(self).wf(),
            final(self).rate() == old(self).rate(),
            final(self).dit() == old(self).dit(),
            final(self).freq() == old(self).freq(),
            old(self).queue().len() == 0 ==> !r && *final(self) == *old(self),
            old(self).queue().len() > 0 ==> r && final(self).queue() == old(self).queue().subrange(
                1,
                old(self).queue().len() as int,
            ) && final(self).enc_state() == EncodeState::Sending(
                SendState {
                    data: old(self).queue()[0],
                    time: spec_send_samples(
                        old(self).queue()[0],
                        old(self).dit() as int,
                        old(self).rate() as int,
                    ) as u64,
                },
            ) && final(self).tone_state().inner_tone().index() == 0
                && final(self).tone_state().total() == spec_send_samples(
                old(self).queue()[0],
                old(self).dit() as int,
                old(self).rate() as int,
            ) && final(self).tone_state().fade_in() == old(self).tone_state().fade_in()
                && final(self).tone_state().fade_out() == old(self).tone_state().fade_out(),
    {
        if self.data.len() == 0 {
            return false;
        }
        let m = self.data.remove(0);
        let dit_ms = self.dit_length;
        let rate_hz = self.sample_rate.output;
        let dur_ms = m.duration(dit_ms);
        proof {
            assert(dur_ms <= 420000) by (nonlinear_arith)
                requires
                    dur_ms == spec_duration(m, dit_ms as int),
                    1 <= dit_ms <= 60000,
            ;
            assert(dur_ms as int * (rate_hz as int) <= 420000000000int) by (nonlinear_arith)
                requires
                    0 <= dur_ms as int <= 420000,
                    0 <= rate_hz as int <= 1000000,
            ;
            vstd::arithmetic::div_mod::lemma_div_is_ordered(
                dur_ms as int * (rate_hz as int),
                420000000000int,
                1000,
            );
        }
        let samples = dur_ms * (rate_hz as u64) / 1000;
        self.tone.reset();
        self.tone = self.tone.duration(samples);
        self.state = EncodeState::Sending(SendState { data: m, time: samples });
        true
    }

    /// Queue text for transmission.  The whole call is rejected, with the
    /// offending character named and nothing queued, if any character has
    /// no glyph.  If the encoder was idle it starts on the first symbol at
    /// once.
    pub fn add_data(&mut self, data: &str) -> (r: Result<(), InvalidCharacter>)
        requires
            old(self).wf(),
            data@.len() <= 0x10000,
            old(self).queue().len() + 8 * data@.len() <= 0x100000,
        ensures
            final(self).wf(),
            final(self).rate() == old(self).rate(),
            final(self).dit() == old(self).dit(),
            final(self).freq() == old(self).freq(),
            r is Ok <==> spec_first_bad_from(data@, 0) == -1,
            r matches Err(e) ==> e.character == data@[spec_first_bad_from(data@, 0)]
                && *final(self) == *old(self),
            r is Ok ==> ({
                let q = old(self).queue() + spec_encode(data@);
                &&& !(old(self).enc_state() is Idle) || q.len() == 0 ==> final(self).model() == (
                MorseEncoderModel { queue: q, ..old(self).model() })
                &&& old(self).enc_state() is Idle && q.len() > 0 ==> final(self).model() == (
                MorseEncoderModel {
                    queue: q.skip(1),
                    state: EncodeState::Sending(
                        SendState {
                            data: q[0],
                            time: spec_send_samples(
                                q[0],
                                old(self).dit() as int,
                                old(self).rate() as int,
                            ) as u64,
                        },
                    ),
                    tone_index: 0,
                    tone_total: spec_send_samples(
                        q[0],
                        old(self).dit() as int,
                        old(self).rate() as int,
                    ),
                    ..old(self).model()
                })
            }),
    {
        let mut morse = match Morse::from_str(data) {
            Ok(v) => v,
            Err(e) => {
                return Err(e);
            },
        };
        proof {
            lemma_encode_len(data@);
        }
        self.data.append(&mut morse);
        let advance = match self.state {
            EncodeState::Idle => true,
            _ => false,
        };
        let ghost q = old(self).queue() + spec_encode(data@);
        proof {
            assert(self.queue() =~= q);
        }
        if advance {
            self.try_advance();
            proof {
                if q.len() > 0 {
                    assert(self.queue() =~= q.skip(1));
                }
            }
        }
        Ok(())
    }

    /// Pull one output sample.  Always yields one: silence while idle,
    /// waiting, or sending a gap, and the enveloped carrier while a dit or
    /// dah is on the air.
    pub fn next(&mut self) -> (r: Option<i32>)
        requires
            old(self).wf(),
        ensures
            final(self).wf(),
            final(self).rate() == old(self).rate(),
            final(self).dit() == old(self).dit(),
            final(self).freq() == old(self).freq(),
            r is Some,
            r matches Some(v) ==> (final(self).model(), v as int) == spec_morse_enc_step(
                old(self).model(),
            ),
            // Idle: silence, nothing moves.
            old(self).enc_state() is Idle ==> r == Some(0i32) && *final(self) == *old(self),
            // A pause that has run out: take up the next symbol, or go
            // idle if the queue is spent; this sample is still silent.
            old(self).enc_state() == EncodeState::Waiting(0u64) ==> r == Some(0i32) && (if old(self).queue().len() == 0 {
                final(self).enc_state() is Idle && final(self).queue() == old(self).queue()
            } else {
                final(self).enc_state() == EncodeState::Sending(
                    SendState {
                        data: old(self).queue()[0],
                        time: spec_send_samples(
                            old(self).queue()[0],
                            old(self).dit() as int,
                            old(self).rate() as int,
                        ) as u64,
                    },
                ) && final(self).queue() == old(self).queue().subrange(
                    1,
                    old(self).queue().len() as int,
                )
            }),
            // Mid-pause: count down, silence.
            (old(self).enc_state() matches EncodeState::Waiting(t) && t > 0) ==> r == Some(0i32)
                && final(self).enc_state() == EncodeState::Waiting((old(self).enc_state()->Waiting_0 - 1) as u64)
                && final(self).queue() == old(self).queue(),
            // A symbol that has run out: start the one-dit pause.
            (old(self).enc_state() matches EncodeState::Sending(s) && s.time == 0) ==> r == Some(
                0i32,
            ) && final(self).enc_state() == EncodeState::Waiting(
                spec_dit_samples(old(self).dit() as int, old(self).rate() as int) as u64,
            ) && final(self).queue() == old(self).queue(),
            // Mid-symbol: count down; a dit or dah plays the enveloped
            // carrier, a gap or word space plays silence.
            (old(self).enc_state() matches EncodeState::Sending(s) && s.time > 0) ==> ({
                let s = old(self).enc_state()->Sending_0;
                &&& final(self).enc_state() == EncodeState::Sending(
                    SendState { data: s.data, time: (s.time - 1) as u64 },
                )
                &&& final(self).queue() == old(self).queue()
                &&& ((s.data is Dit || s.data is Dah) ==> (r matches Some(v) && v as int
                    == spec_smooth_sample(
                    old(self).freq() as int,
                    old(self).rate() as int,
                    old(self).tone_state().inner_tone().index() + 1,
                    old(self).tone_state().total() as int,
                    old(self).tone_state().fade_in() as int,
                    old(self).tone_state().fade_out() as int,
                )))
                &&& ((s.data is Gap || s.data is Space) ==> r == Some(0i32))
            }),
    {
        let st = self.state;
        match st {
            EncodeState::Idle => Some(0),
            EncodeState::Waiting(t) => {
                if t == 0 {
                    if !self.try_advance() {
                        self.state = EncodeState::Idle;
                    }
                    Some(0)
                } else {
                    self.state = EncodeState::Waiting(t - 1);
                    Some(0)
                }
            },
            EncodeState::Sending(sstate) => {
                if sstate.time == 0 {
                    let dit_ms = self.dit_length;
                    let rate_hz = self.sample_rate.output;
                    proof {
                        assert((dit_ms as int) * (rate_hz as int) <= 60000000000int)
                            by (nonlinear_arith)
                            requires
                                1 <= dit_ms as int <= 60000,
                                0 <= rate_hz as int <= 1000000,
                        ;
                    }
                    let wait = dit_ms * (rate_hz as u64) / 1000;
                    self.state = EncodeState::Waiting(wait);
                    Some(0)
                } else {
                    self.state = EncodeState::Sending(
                        SendState { data: sstate.data, time: sstate.time - 1 },
                    );
                    let out: i32 = match sstate.data {
                        Morse::Dit | Morse::Dah => match self.tone.next() {
                            Some(v) => v,
                            None => 0,  // unreachable: the inner tone has no cutoff
                        },
                        Morse::Gap | Morse::Space => 0,
                    };
                    Some(out)
                }
            },
        }
    }
}


/// Whether a chunk carries the carrier: its Goertzel magnitude at the
/// carrier frequency clears the threshold.
pub open spec fn spec_tone_present(chunk: Seq<i32>, freq: int, rate: int) -> bool {
    spec_goertzel_mag(freq, chunk, rate) > MAGNITUDE_EPSILON as int
}

/// Samples converted to milliseconds of audio time.
pub open spec fn spec_elapsed_ms(now: int, edge: int, rate: int) -> int {
    (now - edge) * 1000 / rate
}

/// A letter boundary as the encoder sends it: the one-dit pause, the
/// three-dit gap, and the next symbol's one-dit pause.
pub const LETTER_GAP_DITS: u64 = 5;

/// A word boundary as the encoder sends it: a gap, a seven-dit word
/// space, and another gap, each bracketed by one-dit pauses.
pub const WORD_GAP_DITS: u64 = 17;

/// How far (in dits) a measured silence may sit from a boundary's nominal
/// length and still be classified as it.
pub const GAP_EPSILON_DITS: u64 = 2;

/// After this much silence (in dits) the pending glyph is closed even
/// without a further edge, so the final character of a transmission is not
/// lost.
pub const FLUSH_DITS: u64 = 7;

/// After this much silence (in dits) with no transition the transmission
/// is considered complete.
pub const IDLE_DITS: u64 = 20;


/// The decoder's state, abstracted for specification: what the contracts
/// of the streaming layer fold over.
pub struct MorseDecoderModel {
    /// The glyph being accumulated.
    pub glyph: Seq<Morse>,
    /// Whether the carrier was present in the last chunk.
    pub tone_on: bool,
    /// Samples processed so far.
    pub seen: int,
    /// The clock value at the last edge.
    pub edge_at: int,
    /// The input sample rate.
    pub rate: int,
    /// The dit length in milliseconds.
    pub dit: int,
    /// The carrier frequency in Hz.
    pub freq: int,
}

/// One whole decoder step as a function of the abstract state and one
/// chunk: the successor state and the emitted character.
pub open spec fn spec_morse_step(m: MorseDecoderModel, chunk: Seq<i32>) -> (
    MorseDecoderModel,
    Option<char>,
) {
    let val = spec_tone_present(chunk, m.freq, m.rate);
    let now = m.seen + chunk.len();
    let ems = spec_elapsed_ms(now, m.edge_at, m.rate);
    if val == m.tone_on {
        if !val && m.glyph.len() > 0 && ems >= FLUSH_DITS * m.dit {
            (
                MorseDecoderModel { glyph: Seq::empty(), seen: now, ..m },
                Some(spec_decoded_char(m.glyph)),
            )
        } else {
            (MorseDecoderModel { seen: now, ..m }, None)
        }
    } else if !val {
        let glyph = match spec_from_duration_from(seq![Morse::Dah, Morse::Dit], 0, ems, m.dit) {
            Some(sym) => if m.glyph.len() < 16 {
                m.glyph.push(sym)
            } else {
                m.glyph
            },
            None => m.glyph,
        };
        (MorseDecoderModel { glyph, tone_on: val, seen: now, edge_at: now, ..m }, None)
    } else {
        let near_letter = abs_int(ems - LETTER_GAP_DITS * m.dit) <= GAP_EPSILON_DITS * m.dit;
        let near_word = abs_int(ems - WORD_GAP_DITS * m.dit) <= GAP_EPSILON_DITS * m.dit;
        if near_letter && m.glyph.len() > 0 {
            (
                MorseDecoderModel { glyph: Seq::empty(), tone_on: val, seen: now, edge_at: now, ..m },
                Some(spec_decoded_char(m.glyph)),
            )
        } else if near_letter {
            (MorseDecoderModel { tone_on: val, seen: now, edge_at: now, ..m }, None)
        } else if near_word {
            (
                MorseDecoderModel { glyph: Seq::empty(), tone_on: val, seen: now, edge_at: now, ..m },
                Some(' '),
            )
        } else {
            (MorseDecoderModel { tone_on: val, seen: now, edge_at: now, ..m }, None)
        }
    }
}

/// Decode Morse audio chunk by chunk: threshold the carrier magnitude
/// into a tone-present bit, measure the time between edges, classify tone
/// lengths into dits and dahs and silence lengths into letter and word
/// boundaries, and look finished glyphs up in the table.
pub struct MorseDecoder {
    sample_rate: SampleRate,
    /// Dit length in milliseconds.
    dit_length: u64,
    /// Carrier frequency in Hz.
    frequency: u32,
    /// The glyph being accumulated from dits and dahs.
    data: Vec<Morse>,
    /// Whether the carrier was present in the last chunk.
    state: bool,
    /// Total samples processed; the decoder's clock.
    samples_seen: u64,
    /// The clock value at the last tone edge.
    last_edge_at: u64,
}

impl MorseDecoder {
    /// The glyph being accumulated.
    pub closed spec fn glyph(self) -> Seq<Morse> {
        self.data@
    }

    /// Whether the carrier was present in the last chunk.
    pub closed spec fn tone_on(self) -> bool {
        self.state
    }

    /// Samples processed so far.
    pub closed spec fn seen(self) -> int {
        self.samples_seen as int
    }

    /// The clock value at the last edge.
    pub closed spec fn edge_at(self) -> int {
        self.last_edge_at as int
    }

    /// The input sample rate.
    pub closed spec fn rate(self) -> u32 {
        self.sample_rate.input
    }

    /// The dit length in milliseconds.
    pub closed spec fn dit(self) -> u64 {
        self.dit_length
    }

    /// The carrier frequency in Hz.
    pub closed spec fn freq(self) -> u32 {
        self.frequency
    }

    pub open spec fn wf(self) -> bool {
        &&& self.rate() >= 1
        &&& 1 <= self.dit() <= 60000
        &&& self.glyph().len() <= 16
        &&& 0 <= self.edge_at() <= self.seen()
        &&& self.seen() <= 0x4000000000000
    }

    /// The abstract state the streaming layer's contracts fold over.
    pub open spec fn model(self) -> MorseDecoderModel {
        MorseDecoderModel {
            glyph: self.glyph(),
            tone_on: self.tone_on(),
            seen: self.seen(),
            edge_at: self.edge_at(),
            rate: self.rate() as int,
            dit: self.dit() as int,
            freq: self.freq() as int,
        }
    }

    /// A fresh decoder listening for `frequency` at the input side of
    /// `sample_rate`.
    pub fn new(sample_rate: SampleRate, frequency: u32, dit_length: u64) -> (r: Self)
        requires
            sample_rate.input >= 1,
            1 <= dit_length <= 60000,
        ensures
            r.wf(),
            r.glyph() == Seq::<Morse>::empty(),
            !r.tone_on(),
            r.seen() == 0,
            r.edge_at() == 0,
            r.rate() == sample_rate.input,
            r.dit() == dit_length,
            r.freq() == frequency,
            r.model() == (MorseDecoderModel {
                glyph: Seq::<Morse>::empty(),
                tone_on: false,
                seen: 0,
                edge_at: 0,
                rate: sample_rate.input as int,
                dit: dit_length as int,
                freq: frequency as int,
            }),
    {
        Self {
            sample_rate,
            dit_length,
            frequency,
            data: Vec::new(),
            state: false,
            samples_seen: 0,
            last_edge_at: 0,
        }
    }

    /// Whether the transmission is over: the carrier is off and no edge
    /// has been heard for `IDLE_DITS` dits.  Callers poll this to know
    /// when to stop listening.
    pub fn is_idle(&self) -> (r: bool)
        requires
            self.wf(),
        ensures
            r <==> !self.tone_on() && spec_elapsed_ms(self.seen(), self.edge_at(), self.rate() as int)
                >= IDLE_DITS * self.dit(),
    {
        let elapsed_ms = (self.samples_seen - self.last_edge_at) * 1000 / (self.sample_rate.input
            as u64);
        !self.state && elapsed_ms >= IDLE_DITS * self.dit_length
    }

    /// Feed one analysis chunk; at most one decoded character comes back.
    ///
    /// No edge: nothing happens, unless a long-enough silence closes the
    /// pending glyph.  A falling edge classifies the tone length as a dit
    /// or dah into the glyph (discarding jitter).  A rising edge
    /// classifies the silence length: a letter boundary closes the glyph
    /// into a character, a word boundary yields a space, anything else is
    /// the short pause inside a letter.
    pub fn process(&mut self, chunk: &Vec<i32>) -> (r: Option<char>)
        requires
            old(self).wf(),
            1 <= chunk@.len() <= MAX_WINDOW,
            old(self).seen() + chunk@.len() <= 0x4000000000000,
        ensures
            final(self).wf(),
            final(self).rate() == old(self).rate(),
            final(self).dit() == old(self).dit(),
            final(self).freq() == old(self).freq(),
            final(self).seen() == old(self).seen() + chunk@.len(),
            (final(self).model(), r) == spec_morse_step(old(self).model(), chunk@),
            ({
                let val = spec_tone_present(chunk@, old(self).freq() as int, old(self).rate() as int);
                let now = old(self).seen() + chunk@.len();
                let ems = spec_elapsed_ms(now, old(self).edge_at(), old(self).rate() as int);
                &&& (val == old(self).tone_on() ==> final(self).tone_on() == old(self).tone_on()
                    && final(self).edge_at() == old(self).edge_at() && (if !val && old(self).glyph().len() > 0 && ems >= FLUSH_DITS * old(self).dit() {
                    r == Some(spec_decoded_char(old(self).glyph())) && final(self).glyph()
                        == Seq::<Morse>::empty()
                } else {
                    r is None && final(self).glyph() == old(self).glyph()
                }))
                &&& (val != old(self).tone_on() && !val ==> final(self).tone_on() == val && final(self).edge_at() == now && r is None && final(self).glyph() == (
                match spec_from_duration_from(
                    seq![Morse::Dah, Morse::Dit],
                    0,
                    ems,
                    old(self).dit() as int,
                ) {
                    Some(m) => if old(self).glyph().len() < 16 {
                        old(self).glyph().push(m)
                    } else {
                        old(self).glyph()
                    },
                    None => old(self).glyph(),
                }))
                &&& (val != old(self).tone_on() && val ==> ({
                    let near_letter = abs_int(ems - LETTER_GAP_DITS * old(self).dit())
                        <= GAP_EPSILON_DITS * old(self).dit();
                    let near_word = abs_int(ems - WORD_GAP_DITS * old(self).dit())
                        <= GAP_EPSILON_DITS * old(self).dit();
                    &&& final(self).tone_on() == val
                    &&& final(self).edge_at() == now
                    &&& (near_letter && old(self).glyph().len() > 0 ==> r == Some(
                        spec_decoded_char(old(self).glyph()),
                    ) && final(self).glyph() == Seq::<Morse>::empty())
                    &&& (near_letter && old(self).glyph().len() == 0 ==> r is None && final(self).glyph() == old(self).glyph())
                    &&& (!near_letter && near_word ==> r == Some(' ') && final(self).glyph()
                        == Seq::<Morse>::empty())
                    &&& (!near_letter && !near_word ==> r is None && final(self).glyph() == old(self).glyph())
                }))
            }),
    {
        let mag = goertzel_mag(self.frequency, chunk, self.sample_rate.input);
        let val = mag > MAGNITUDE_EPSILON;
        let now = self.samples_seen + chunk.len() as u64;
        self.samples_seen = now;
        let elapsed_ms = (now - self.last_edge_at) * 1000 / (self.sample_rate.input as u64);
        if val == self.state {
            if !val && self.data.len() > 0 && elapsed_ms >= FLUSH_DITS * self.dit_length {
                let c = glyph_to_char(&self.data);
                self.data.clear();
                return Some(c);
            }
            return None;
        }
        self.state = val;
        self.last_edge_at = now;
        if !val {
            let opts = vec![Morse::Dah, Morse::Dit];
            proof {
                assert(opts@ =~= seq![Morse::Dah, Morse::Dit]);
            }
            if let Some(m) = Morse::from_duration(&opts, elapsed_ms, self.dit_length) {
                if self.data.len() < 16 {
                    self.data.push(m);
                }
            }
            return None;
        }
        let nominal_letter = LETTER_GAP_DITS * self.dit_length;
        let nominal_word = WORD_GAP_DITS * self.dit_length;
        let eps = GAP_EPSILON_DITS * self.dit_length;
        let near_letter = if elapsed_ms >= nominal_letter {
            elapsed_ms - nominal_letter <= eps
        } else {
            nominal_letter - elapsed_ms <= eps
        };
        if near_letter {
            if self.data.len() > 0 {
                let c = glyph_to_char(&self.data);
                self.data.clear();
                return Some(c);
            }
            return None;
        }
        let near_word = if elapsed_ms >= nominal_word {
            elapsed_ms - nominal_word <= eps
        } else {
            nominal_word - elapsed_ms <= eps
        };
        if near_word {
            self.data.clear();
            return Some(' ');
        }
        None
    }
}

} // verus!
