//! The text command language of the band member: `stop`, `tempo <bpm>`,
//! `<note> <scale> [<n>bpm] [<n>bars]` and notes given directly with their
//! octave, `<note><octave> ... [<n>bpm] [<n>bars]` (`C4 E4 G4 120bpm`),
//! turned into MIDI sequences.
//!
//! Parsing a command happens in two steps. [`parse_command`] reads the whole
//! command and settles everything but the conversion of tempo numbers to
//! `f32`; [`ParsedCommand::into_sequence`] takes the results of those
//! conversions (in the order of [`ParsedCommand::tempo_texts`]) and builds the
//! sequence, reporting the first error in reading order.
use vstd::prelude::*;
use crate::sequence::{end_tick, events_fit, MidiEvent, MidiSequence, MidiSequenceView, TICKS_PER_QUARTER};
use crate::text::{
    ascii_lower_seq, chars_ends_with_str, chars_eq_str, chars_of, chars_slice, chars_starts_with_str,
    parse_u32, parse_u32_chars, split_white_space, split_ws, string_from_chars, to_ascii_lower, trim,
    trim_chars, views,
};

verus! {

/// Default tempo, 122 BPM, as `f32` bits.
pub const DEFAULT_TEMPO_BITS: u32 = 0x42F4_0000;

/// Default number of bars.
pub const DEFAULT_BARS: u32 = 2;

/// Errors of the command parser.
#[derive(Debug, Clone, PartialEq, Eq)]
pub enum ParseError {
    EmptyInput,
    UnknownNote(String),
    UnknownScale(String),
    UnknownCommand(String),
    InvalidTempo(String),
}

/// The mathematical value of a [`ParseError`].
pub enum ParseErrorView {
    EmptyInput,
    UnknownNote(Seq<char>),
    UnknownScale(Seq<char>),
    UnknownCommand(Seq<char>),
    InvalidTempo(Seq<char>),
}

impl View for ParseError {
    type V = ParseErrorView;

    open spec fn view(&self) -> ParseErrorView {
        match self {
            ParseError::EmptyInput => ParseErrorView::EmptyInput,
            ParseError::UnknownNote(s) => ParseErrorView::UnknownNote(s@),
            ParseError::UnknownScale(s) => ParseErrorView::UnknownScale(s@),
            ParseError::UnknownCommand(s) => ParseErrorView::UnknownCommand(s@),
            ParseError::InvalidTempo(s) => ParseErrorView::InvalidTempo(s@),
        }
    }
}

/// The human-readable message of an error.
pub open spec fn error_message(e: ParseErrorView) -> Seq<char> {
    match e {
        ParseErrorView::EmptyInput => "空の入力"@,
        ParseErrorView::UnknownNote(s) => "不明なノート名: "@ + s,
        ParseErrorView::UnknownScale(s) => "不明なスケール名: "@ + s,
        ParseErrorView::UnknownCommand(s) => "不明なコマンド: "@ + s,
        ParseErrorView::InvalidTempo(s) => "テンポの解析に失敗: "@ + s,
    }
}

fn prefixed(prefix: &str, s: &String) -> (r: String)
    ensures
        r@ == prefix@ + s@,
{
    let mut r = String::from_str(prefix);
    r.append(s.as_str());
    r
}

impl ParseError {
    /// The human-readable message of the error.
    pub fn message(&self) -> (r: String)
        ensures
            r@ == error_message(self@),
    {
        match self {
            ParseError::EmptyInput => String::from_str("空の入力"),
            ParseError::UnknownNote(s) => prefixed("不明なノート名: ", s),
            ParseError::UnknownScale(s) => prefixed("不明なスケール名: ", s),
            ParseError::UnknownCommand(s) => prefixed("不明なコマンド: ", s),
            ParseError::InvalidTempo(s) => prefixed("テンポの解析に失敗: ", s),
        }
    }
}

/// MIDI note number of a note name, case-insensitive, in the fourth octave
/// (C4 = 60).
pub open spec fn note_value(name: Seq<char>) -> Option<u8> {
    let l = ascii_lower_seq(name);
    if l == seq!['c'] {
        Some(60u8)
    } else if l == seq!['d'] {
        Some(62u8)
    } else if l == seq!['e'] {
        Some(64u8)
    } else if l == seq!['f'] {
        Some(65u8)
    } else if l == seq!['g'] {
        Some(67u8)
    } else if l == seq!['a'] {
        Some(69u8)
    } else if l == seq!['b'] {
        Some(71u8)
    } else {
        None
    }
}

proof fn lemma_single_chars_differ(a: char, b: char)
    requires
        a != b,
    ensures
        seq![a] != seq![b],
{
    assert(seq![a][0] != seq![b][0]);
}

/// Note names are the letters of the C major scale from middle C up: c, d,
/// e, f, g, a and b, in either case, name MIDI notes 60, 62, 64, 65, 67, 69
/// and 71 (a whole tone apart, but a semitone from e to f); every other name
/// names no note.
pub proof fn law_note_letters_are_c_major_from_middle_c(name: Seq<char>)
    ensures
        note_value(seq!['c']) == Some(60u8) && note_value(seq!['C']) == Some(60u8),
        note_value(seq!['d']) == Some(62u8) && note_value(seq!['D']) == Some(62u8),
        note_value(seq!['e']) == Some(64u8) && note_value(seq!['E']) == Some(64u8),
        note_value(seq!['f']) == Some(65u8) && note_value(seq!['F']) == Some(65u8),
        note_value(seq!['g']) == Some(67u8) && note_value(seq!['G']) == Some(67u8),
        note_value(seq!['a']) == Some(69u8) && note_value(seq!['A']) == Some(69u8),
        note_value(seq!['b']) == Some(71u8) && note_value(seq!['B']) == Some(71u8),
        note_value(name) matches Some(v) ==> name.len() == 1 && (v == 60 || v == 62 || v == 64 || v == 65
            || v == 67 || v == 69 || v == 71),
{
    lemma_single_chars_differ('d', 'c');
    lemma_single_chars_differ('e', 'c');
    lemma_single_chars_differ('e', 'd');
    lemma_single_chars_differ('f', 'c');
    lemma_single_chars_differ('f', 'd');
    lemma_single_chars_differ('f', 'e');
    lemma_single_chars_differ('g', 'c');
    lemma_single_chars_differ('g', 'd');
    lemma_single_chars_differ('g', 'e');
    lemma_single_chars_differ('g', 'f');
    lemma_single_chars_differ('a', 'c');
    lemma_single_chars_differ('a', 'd');
    lemma_single_chars_differ('a', 'e');
    lemma_single_chars_differ('a', 'f');
    lemma_single_chars_differ('a', 'g');
    lemma_single_chars_differ('b', 'c');
    lemma_single_chars_differ('b', 'd');
    lemma_single_chars_differ('b', 'e');
    lemma_single_chars_differ('b', 'f');
    lemma_single_chars_differ('b', 'g');
    lemma_single_chars_differ('b', 'a');
    assert(ascii_lower_seq(seq!['C']) =~= seq!['c']);
    assert(ascii_lower_seq(seq!['D']) =~= seq!['d']);
    assert(ascii_lower_seq(seq!['E']) =~= seq!['e']);
    assert(ascii_lower_seq(seq!['F']) =~= seq!['f']);
    assert(ascii_lower_seq(seq!['G']) =~= seq!['g']);
    assert(ascii_lower_seq(seq!['A']) =~= seq!['a']);
    assert(ascii_lower_seq(seq!['B']) =~= seq!['b']);
    assert(ascii_lower_seq(seq!['c']) =~= seq!['c']);
    assert(ascii_lower_seq(seq!['d']) =~= seq!['d']);
    assert(ascii_lower_seq(seq!['e']) =~= seq!['e']);
    assert(ascii_lower_seq(seq!['f']) =~= seq!['f']);
    assert(ascii_lower_seq(seq!['g']) =~= seq!['g']);
    assert(ascii_lower_seq(seq!['a']) =~= seq!['a']);
    assert(ascii_lower_seq(seq!['b']) =~= seq!['b']);
    if note_value(name) is Some {
        assert(ascii_lower_seq(name).len() == name.len());
    }
}

/// Semitone steps of a scale name, case-insensitive, from the root up to and
/// including the octave.
pub open spec fn scale_value(name: Seq<char>) -> Option<Seq<u8>> {
    let l = ascii_lower_seq(name);
    if l == "major"@ {
        Some(seq![0u8, 2, 4, 5, 7, 9, 11, 12])
    } else if l == "minor"@ {
        Some(seq![0u8, 2, 3, 5, 7, 8, 10, 12])
    } else if l == "pentatonic"@ {
        Some(seq![0u8, 2, 4, 7, 9, 12])
    } else if l == "blues"@ {
        Some(seq![0u8, 3, 5, 6, 7, 10, 12])
    } else {
        None
    }
}

fn note_from_chars(v: &[char]) -> (r: Option<u8>)
    ensures
        r == note_value(v@),
{
    let l = to_ascii_lower(v);
    if l.len() != 1 {
        assert(l@ != seq!['c'] && l@ != seq!['d'] && l@ != seq!['e'] && l@ != seq!['f'] && l@
            != seq!['g'] && l@ != seq!['a'] && l@ != seq!['b']);
        return None;
    }
    let c = l[0];
    assert(l@ == seq![c]);
    if c == 'c' {
        Some(60)
    } else if c == 'd' {
        Some(62)
    } else if c == 'e' {
        Some(64)
    } else if c == 'f' {
        Some(65)
    } else if c == 'g' {
        Some(67)
    } else if c == 'a' {
        Some(69)
    } else if c == 'b' {
        Some(71)
    } else {
        None
    }
}

/// Converts a note name to its MIDI note number (C4 = 60).
pub fn note_name_to_midi(name: &str) -> (r: Result<u8, ParseError>)
    ensures
        match r {
            Ok(n) => note_value(name@) == Some(n),
            Err(e) => note_value(name@) is None && e@ == ParseErrorView::UnknownNote(name@),
        },
{
    let v = chars_of(name);
    match note_from_chars(&v) {
        Some(n) => Ok(n),
        None => Err(ParseError::UnknownNote(String::from_str(name))),
    }
}

fn scale_from_chars(v: &[char]) -> (r: Option<Vec<u8>>)
    ensures
        match r {
            Some(iv) => scale_value(v@) == Some(iv@),
            None => scale_value(v@) is None,
        },
{
    let l = to_ascii_lower(v);
    if chars_eq_str(&l, "major") {
        Some(vec![0u8, 2, 4, 5, 7, 9, 11, 12])
    } else if chars_eq_str(&l, "minor") {
        Some(vec![0u8, 2, 3, 5, 7, 8, 10, 12])
    } else if chars_eq_str(&l, "pentatonic") {
        Some(vec![0u8, 2, 4, 7, 9, 12])
    } else if chars_eq_str(&l, "blues") {
        Some(vec![0u8, 3, 5, 6, 7, 10, 12])
    } else {
        None
    }
}

/// The semitone steps of a scale name.
pub fn scale_intervals(name: &str) -> (r: Result<Vec<u8>, ParseError>)
    ensures
        match r {
            Ok(iv) => scale_value(name@) == Some(iv@),
            Err(e) => scale_value(name@) is None && e@ == ParseErrorView::UnknownScale(name@),
        },
{
    let v = chars_of(name);
    match scale_from_chars(&v) {
        Some(iv) => Ok(iv),
        None => Err(ParseError::UnknownScale(String::from_str(name))),
    }
}


/// The semitone of a lower-case note letter above C.
pub open spec fn pitch_class(c: char) -> Option<int> {
    if c == 'c' {
        Some(0int)
    } else if c == 'd' {
        Some(2int)
    } else if c == 'e' {
        Some(4int)
    } else if c == 'f' {
        Some(5int)
    } else if c == 'g' {
        Some(7int)
    } else if c == 'a' {
        Some(9int)
    } else if c == 'b' {
        Some(11int)
    } else {
        None
    }
}

/// The value of a decimal digit.
pub open spec fn octave_digit(c: char) -> Option<int> {
    if 0x30 <= (c as u32) <= 0x39 {
        Some((c as u32) - 0x30)
    } else {
        None
    }
}

/// The MIDI note number of a lower-case note with its octave: a letter, an
/// optional `#` and an octave digit (`c4` = 60, `c#4` = 61, `a4` = 69), when
/// the number is a MIDI note (at most 127).
pub open spec fn pitch_value(w: Seq<char>) -> Option<u8> {
    if (w.len() == 2 || (w.len() == 3 && w[1] == '#')) && pitch_class(w[0]) is Some && octave_digit(
        w.last(),
    ) is Some {
        let v = 12 * (octave_digit(w.last())->0 + 1) + pitch_class(w[0])->0 + (if w.len() == 3 {
            1int
        } else {
            0int
        });
        if v <= 127 {
            Some(v as u8)
        } else {
            None
        }
    } else {
        None
    }
}

/// A note with its octave is the octave's C plus the letter's semitone in the
/// C major scale (c 0, d 2, e 4, f 5, g 7, a 9, b 11), plus one for a sharp,
/// with octave 4 starting at middle C (60).
pub proof fn law_pitch_is_octave_plus_semitone(letter: char, octave: char, sharp: bool)
    requires
        0x30 <= (octave as u32) <= 0x39,
    ensures
        pitch_class('c') == Some(0int) && pitch_class('d') == Some(2int) && pitch_class('e') == Some(4int)
            && pitch_class('f') == Some(5int) && pitch_class('g') == Some(7int) && pitch_class('a') == Some(9int)
            && pitch_class('b') == Some(11int),
        pitch_value(seq!['c', '4']) == Some(60u8),
        pitch_value(seq!['f', '4']) == Some(65u8),
        pitch_value(seq!['c', '#', '4']) == Some(61u8),
        ({
            let w = if sharp { seq![letter, '#', octave] } else { seq![letter, octave] };
            let base = 12 * ((octave as u32) - 0x30 + 1);
            pitch_value(w) matches Some(v) ==> {
                ||| v == base + (if sharp { 1int } else { 0int }) && letter == 'c'
                ||| v == base + 2 + (if sharp { 1int } else { 0int }) && letter == 'd'
                ||| v == base + 4 + (if sharp { 1int } else { 0int }) && letter == 'e'
                ||| v == base + 5 + (if sharp { 1int } else { 0int }) && letter == 'f'
                ||| v == base + 7 + (if sharp { 1int } else { 0int }) && letter == 'g'
                ||| v == base + 9 + (if sharp { 1int } else { 0int }) && letter == 'a'
                ||| v == base + 11 + (if sharp { 1int } else { 0int }) && letter == 'b'
            }
        }),
{
    assert(seq!['c', '4'].last() == '4');
    assert(seq!['f', '4'].last() == '4');
    assert(seq!['c', '#', '4'].last() == '4');
    assert(seq!['c', '#', '4'][1] == '#');
    assert(('4' as u32) == 0x34);
    let w = if sharp { seq![letter, '#', octave] } else { seq![letter, octave] };
    assert(w[0] == letter && w.last() == octave);
    if sharp {
        assert(w.len() == 3 && w[1] == '#');
    } else {
        assert(w.len() == 2);
    }
}

/// The notes of the words read as notes with octaves, from the first word
/// up to the first word that is none.
pub open spec fn note_run(words: Seq<Seq<char>>) -> Seq<u8>
    decreases words.len(),
{
    if words.len() > 0 && pitch_value(words[0]) is Some {
        seq![pitch_value(words[0])->0] + note_run(words.drop_first())
    } else {
        Seq::empty()
    }
}

proof fn lemma_note_run(words: Seq<Seq<char>>, i: int)
    requires
        0 <= i <= words.len(),
        forall|j: int| 0 <= j < i ==> pitch_value(#[trigger] words[j]) is Some,
    ensures
        note_run(words) == Seq::new(i as nat, |j: int| pitch_value(words[j])->0) + note_run(words.skip(i)),
    decreases i,
{
    if i == 0 {
        assert(words.skip(0) == words);
        assert(Seq::new(0, |j: int| pitch_value(words[j])->0) + note_run(words) == note_run(words));
    } else {
        assert(pitch_value(words[0]) is Some);
        let rest = words.drop_first();
        assert forall|j: int| 0 <= j < i - 1 implies pitch_value(#[trigger] rest[j]) is Some by {
            assert(rest[j] == words[j + 1]);
        }
        lemma_note_run(rest, i - 1);
        assert(rest.skip(i - 1) == words.skip(i));
        assert(seq![pitch_value(words[0])->0] + Seq::new((i - 1) as nat, |j: int| pitch_value(rest[j])->0)
            == Seq::new(i as nat, |j: int| pitch_value(words[j])->0));
    }
}

fn pitch_from_chars(v: &[char]) -> (r: Option<u8>)
    ensures
        r == pitch_value(v@),
{
    if v.len() != 2 && v.len() != 3 {
        return None;
    }
    if v.len() == 3 && v[1] != '#' {
        return None;
    }
    let class: u32 = match v[0] {
        'c' => 0,
        'd' => 2,
        'e' => 4,
        'f' => 5,
        'g' => 7,
        'a' => 9,
        'b' => 11,
        _ => {
            return None;
        },
    };
    let d = v[v.len() - 1] as u32;
    if d < 0x30 || d > 0x39 {
        return None;
    }
    let sharp: u32 = if v.len() == 3 { 1 } else { 0 };
    let value: u32 = 12 * (d - 0x30 + 1) + class + sharp;
    if value > 127 {
        return None;
    }
    Some(value as u8)
}

/// The notes of a scale played up and back down: the ascending notes, then
/// the same notes descending without repeating the top one.
pub open spec fn scale_notes(root: u8, intervals: Seq<u8>) -> Seq<u8> {
    let asc = intervals.map_values(|i: u8| (root + i) as u8);
    asc + asc.drop_last().reverse()
}

/// Equal-length notes back to back, each `d` ticks long, velocity 100.
pub open spec fn evenly_spaced(notes: Seq<u8>, d: int) -> Seq<MidiEvent> {
    Seq::new(
        notes.len(),
        |i: int| MidiEvent { tick: (i * d) as u64, note: notes[i], velocity: 100, duration_ticks: d as u64 },
    )
}

/// Notes played in order over `bars` bars of four beats: every note gets an
/// equal share of the ticks, rounded down.
pub open spec fn spread_sequence(notes: Seq<u8>, bpm_bits: u32, bars: u32) -> MidiSequenceView {
    let d = (4 * TICKS_PER_QUARTER * bars) / notes.len() as int;
    MidiSequenceView { tempo_bpm_bits: bpm_bits, events: evenly_spaced(notes, d) }
}

/// The sequence of a scale played up and down over `bars` bars.
pub open spec fn scale_sequence(root: u8, intervals: Seq<u8>, bpm_bits: u32, bars: u32) -> MidiSequenceView {
    spread_sequence(scale_notes(root, intervals), bpm_bits, bars)
}

/// The root plus every step stays a `u8`, and there is at least one step.
pub open spec fn scale_fits(root: u8, intervals: Seq<u8>) -> bool {
    &&& intervals.len() > 0
    &&& forall|i: int| 0 <= i < intervals.len() ==> root + #[trigger] intervals[i] <= u8::MAX
}

proof fn lemma_product_bound(i: int, d: int, n: int, total: int)
    requires
        0 <= i <= n,
        0 < n,
        0 <= total,
        d == total / n,
    ensures
        0 <= i * d <= total,
{
    assert(0 <= i * d <= n * d) by (nonlinear_arith)
        requires
            0 <= i <= n,
            0 <= d,
    ;
    assert(n * d <= total) by (nonlinear_arith)
        requires
            0 < n,
            d == total / n,
            0 <= total,
    ;
}

/// Plays the notes in order over `bars` bars, each an equal share.
fn spread_notes(notes: &[u8], bpm_bits: u32, bars: u32) -> (r: MidiSequence)
    requires
        notes@.len() > 0,
    ensures
        r@ == spread_sequence(notes@, bpm_bits, bars),
        events_fit(r.events@),
{
    let mut seq = MidiSequence::new(bpm_bits);
    let ticks_per_bar: u64 = 4 * TICKS_PER_QUARTER;
    let total_ticks: u64 = ticks_per_bar * (bars as u64);
    let note_count: u64 = notes.len() as u64;
    let note_duration: u64 = total_ticks / note_count;
    let ghost d = note_duration as int;
    let mut k: usize = 0;
    while k < notes.len()
        invariant
            k <= notes@.len(),
            note_count == notes@.len(),
            note_count > 0,
            d == note_duration,
            note_duration == total_ticks / note_count,
            total_ticks == 4 * TICKS_PER_QUARTER * bars,
            seq.tempo_bpm_bits == bpm_bits,
            seq.events@ == evenly_spaced(notes@, d).take(k as int),
            events_fit(seq.events@),
        decreases notes@.len() - k,
    {
        proof {
            lemma_product_bound(k as int, d, note_count as int, total_ticks as int);
            lemma_product_bound(k + 1, d, note_count as int, total_ticks as int);
        }
        let tick: u64 = (k as u64) * note_duration;
        let ev = MidiEvent { tick, note: notes[k], velocity: 100, duration_ticks: note_duration };
        seq.events.push(ev);
        k = k + 1;
        assert(seq.events@ == evenly_spaced(notes@, d).take(k as int));
        assert(events_fit(seq.events@)) by {
            assert forall|q: int| 0 <= q < seq.events@.len() implies end_tick(#[trigger] seq.events@[q]) <= u64::MAX by {
                lemma_product_bound(q + 1, d, note_count as int, total_ticks as int);
                assert((q + 1) * d == q * d + d) by (nonlinear_arith);
            }
        }
    }
    assert(evenly_spaced(notes@, d).take(notes@.len() as int) == evenly_spaced(notes@, d));
    seq
}

/// Builds the up-and-down sequence of a scale.
pub fn build_scale_sequence(root: u8, intervals: &[u8], bpm_bits: u32, bars: u32) -> (r: MidiSequence)
    requires
        scale_fits(root, intervals@),
    ensures
        r@ == scale_sequence(root, intervals@, bpm_bits, bars),
        events_fit(r.events@),
{
    let ghost asc = intervals@.map_values(|i: u8| (root + i) as u8);
    let mut notes: Vec<u8> = Vec::new();
    let mut i: usize = 0;
    while i < intervals.len()
        invariant
            i <= intervals@.len(),
            scale_fits(root, intervals@),
            asc == intervals@.map_values(|i: u8| (root + i) as u8),
            notes@ == asc.take(i as int),
        decreases intervals@.len() - i,
    {
        assert(root + intervals@[i as int] <= u8::MAX);
        notes.push(root + intervals[i]);
        i = i + 1;
        assert(notes@ == asc.take(i as int));
    }
    assert(asc.take(asc.len() as int) == asc);
    let n_asc = notes.len();
    let mut j: usize = n_asc - 1;
    while j > 0
        invariant
            n_asc == asc.len(),
            n_asc > 0,
            j < n_asc,
            notes@ == asc + asc.drop_last().reverse().take(n_asc - 1 - j),
        decreases j,
    {
        let ghost before = notes@;
        let x = notes[j - 1];
        assert(x == asc[j - 1]);
        notes.push(x);
        j = j - 1;
        assert(asc.drop_last().reverse().take(n_asc - 1 - j) == asc.drop_last().reverse().take(
            n_asc - 2 - j,
        ).push(x));
    }
    assert(asc.drop_last().reverse().take(n_asc - 1) == asc.drop_last().reverse());
    assert(notes@ == scale_notes(root, intervals@));
    spread_notes(notes.as_slice(), bpm_bits, bars)
}


/// A word after the note and scale of a scale command.
#[derive(Debug, Clone, PartialEq, Eq)]
pub enum ScaleOption {
    /// `<number>bpm`: the whole word and the number before `bpm`.
    Bpm { token: String, number: String },
    /// `<n>bars`: the whole word and the decimal count, when it is one.
    Bars { token: String, count: Option<u32> },
    /// Any other word.
    Unknown,
}

/// The mathematical value of a [`ScaleOption`].
pub enum ScaleOptionView {
    Bpm { token: Seq<char>, number: Seq<char> },
    Bars { token: Seq<char>, count: Option<u32> },
    Unknown,
}

impl View for ScaleOption {
    type V = ScaleOptionView;

    open spec fn view(&self) -> ScaleOptionView {
        match self {
            ScaleOption::Bpm { token, number } => ScaleOptionView::Bpm { token: token@, number: number@ },
            ScaleOption::Bars { token, count } => ScaleOptionView::Bars { token: token@, count: *count },
            ScaleOption::Unknown => ScaleOptionView::Unknown,
        }
    }
}

/// A command read from text, with its tempo numbers not yet converted.
#[derive(Debug, Clone, PartialEq, Eq)]
pub enum ParsedCommand {
    /// `stop`.
    Stop,
    /// `tempo <text>`, with the text after `tempo ` trimmed.
    Tempo { text: String },
    /// `<note> <scale> ...`: the root note, the scale steps, the trimmed
    /// command and the words after the scale name.
    Scale { root: u8, intervals: Vec<u8>, input: String, options: Vec<ScaleOption> },
    /// `<note><octave> ...`: the notes given directly, the trimmed command and
    /// the words after the notes.
    Notes { notes: Vec<u8>, input: String, options: Vec<ScaleOption> },
}

/// The mathematical value of a [`ParsedCommand`].
pub enum ParsedCommandView {
    Stop,
    Tempo { text: Seq<char> },
    Scale { root: u8, intervals: Seq<u8>, input: Seq<char>, options: Seq<ScaleOptionView> },
    Notes { notes: Seq<u8>, input: Seq<char>, options: Seq<ScaleOptionView> },
}

/// The values of a sequence of scale options.
pub open spec fn option_views(opts: Seq<ScaleOption>) -> Seq<ScaleOptionView> {
    opts.map_values(|o: ScaleOption| o@)
}

impl View for ParsedCommand {
    type V = ParsedCommandView;

    open spec fn view(&self) -> ParsedCommandView {
        match self {
            ParsedCommand::Stop => ParsedCommandView::Stop,
            ParsedCommand::Tempo { text } => ParsedCommandView::Tempo { text: text@ },
            ParsedCommand::Scale { root, intervals, input, options } => ParsedCommandView::Scale {
                root: *root,
                intervals: intervals@,
                input: input@,
                options: option_views(options@),
            },
            ParsedCommand::Notes { notes, input, options } => ParsedCommandView::Notes {
                notes: notes@,
                input: input@,
                options: option_views(options@),
            },
        }
    }
}

/// How a word after the scale name is read.
pub open spec fn option_of(w: Seq<char>) -> ScaleOptionView {
    if w.len() >= 3 && w.skip(w.len() - 3) == "bpm"@ {
        ScaleOptionView::Bpm { token: w, number: w.take(w.len() - 3) }
    } else if w.len() >= 4 && w.skip(w.len() - 4) == "bars"@ {
        ScaleOptionView::Bars { token: w, count: parse_u32(w.take(w.len() - 4)) }
    } else {
        ScaleOptionView::Unknown
    }
}

/// The first step of reading a command: everything but the conversion of
/// tempo numbers.
pub open spec fn command_plan(input: Seq<char>) -> Result<ParsedCommandView, ParseErrorView> {
    let t = trim(input);
    let lower = ascii_lower_seq(t);
    if t.len() == 0 {
        Err(ParseErrorView::EmptyInput)
    } else if lower == "stop"@ {
        Ok(ParsedCommandView::Stop)
    } else if lower.len() >= 6 && lower.take(6) == "tempo "@ {
        Ok(ParsedCommandView::Tempo { text: trim(lower.skip(6)) })
    } else {
        let words = split_ws(lower);
        if words.len() < 2 {
            Err(ParseErrorView::UnknownCommand(t))
        } else {
            match note_value(words[0]) {
                None => {
                    let notes = note_run(words);
                    if notes.len() == 0 {
                        Err(ParseErrorView::UnknownNote(words[0]))
                    } else {
                        Ok(
                            ParsedCommandView::Notes {
                                notes,
                                input: t,
                                options: words.skip(notes.len() as int).map_values(|w: Seq<char>| option_of(w)),
                            },
                        )
                    }
                },
                Some(root) => match scale_value(words[1]) {
                    None => Err(ParseErrorView::UnknownScale(words[1])),
                    Some(iv) => Ok(
                        ParsedCommandView::Scale {
                            root,
                            intervals: iv,
                            input: t,
                            options: words.skip(2).map_values(|w: Seq<char>| option_of(w)),
                        },
                    ),
                },
            }
        }
    }
}

/// A plan with the command text it carries left out: what the plan says
/// apart from echoing the input.
pub open spec fn plan_shape(p: Result<ParsedCommandView, ParseErrorView>) -> Result<ParsedCommandView, ParseErrorView> {
    match p {
        Ok(ParsedCommandView::Scale { root, intervals, options, .. }) => Ok(
            ParsedCommandView::Scale { root, intervals, input: Seq::empty(), options },
        ),
        Ok(ParsedCommandView::Notes { notes, options, .. }) => Ok(
            ParsedCommandView::Notes { notes, input: Seq::empty(), options },
        ),
        Err(ParseErrorView::UnknownCommand(_)) => Err(ParseErrorView::UnknownCommand(Seq::empty())),
        other => other,
    }
}

/// Reading a command ignores ASCII case and the white space around it: two
/// inputs that agree once trimmed and lower-cased are read alike, but for
/// the command text the result carries.
pub proof fn law_plan_ignores_case_and_outer_space(a: Seq<char>, b: Seq<char>)
    requires
        ascii_lower_seq(trim(a)) == ascii_lower_seq(trim(b)),
    ensures
        plan_shape(command_plan(a)) == plan_shape(command_plan(b)),
{
    assert(trim(a).len() == ascii_lower_seq(trim(a)).len());
    assert(trim(b).len() == ascii_lower_seq(trim(b)).len());
}

/// The tempo texts of scale options that need an `f32` conversion, in order.
pub open spec fn option_tempo_texts(opts: Seq<ScaleOptionView>) -> Seq<Seq<char>>
    decreases opts.len(),
{
    if opts.len() == 0 {
        Seq::empty()
    } else {
        let rest = option_tempo_texts(opts.drop_first());
        match opts[0] {
            ScaleOptionView::Bpm { number, .. } => seq![number] + rest,
            _ => rest,
        }
    }
}

/// The texts of a command that need an `f32` conversion, in order.
pub open spec fn tempo_texts_of(p: ParsedCommandView) -> Seq<Seq<char>> {
    match p {
        ParsedCommandView::Stop => Seq::empty(),
        ParsedCommandView::Tempo { text } => seq![text],
        ParsedCommandView::Scale { options, .. } => option_tempo_texts(options),
        ParsedCommandView::Notes { options, .. } => option_tempo_texts(options),
    }
}

/// Reading the scale options from left to right: the tempo and the bar count
/// they leave, or the first error. `values` are the `f32` conversions of the
/// remaining tempo texts.
pub open spec fn scale_settings(
    opts: Seq<ScaleOptionView>,
    values: Seq<Option<u32>>,
    input: Seq<char>,
    bpm: u32,
    bars: u32,
) -> Result<(u32, u32), ParseErrorView>
    decreases opts.len(),
{
    if opts.len() == 0 {
        Ok((bpm, bars))
    } else {
        match opts[0] {
            ScaleOptionView::Bpm { token, .. } => match values[0] {
                Some(b) => scale_settings(opts.drop_first(), values.drop_first(), input, b, bars),
                None => Err(ParseErrorView::InvalidTempo(token)),
            },
            ScaleOptionView::Bars { token, count } => match count {
                Some(c) => scale_settings(opts.drop_first(), values, input, bpm, c),
                None => Err(ParseErrorView::UnknownCommand(token)),
            },
            ScaleOptionView::Unknown => Err(ParseErrorView::UnknownCommand(input)),
        }
    }
}

/// The second step of reading a command: the sequence, given the `f32` bits
/// of each tempo text (`None` where the text is no `f32`).
pub open spec fn command_sequence(p: ParsedCommandView, values: Seq<Option<u32>>) -> Result<
    MidiSequenceView,
    ParseErrorView,
> {
    match p {
        ParsedCommandView::Stop => Ok(MidiSequenceView { tempo_bpm_bits: 0, events: Seq::empty() }),
        ParsedCommandView::Tempo { text } => match values[0] {
            Some(b) => Ok(MidiSequenceView { tempo_bpm_bits: b, events: Seq::empty() }),
            None => Err(ParseErrorView::InvalidTempo(text)),
        },
        ParsedCommandView::Scale { root, intervals, input, options } => match scale_settings(
            options,
            values,
            input,
            DEFAULT_TEMPO_BITS,
            DEFAULT_BARS,
        ) {
            Ok((bpm, bars)) => Ok(scale_sequence(root, intervals, bpm, bars)),
            Err(e) => Err(e),
        },
        ParsedCommandView::Notes { notes, input, options } => match scale_settings(
            options,
            values,
            input,
            DEFAULT_TEMPO_BITS,
            DEFAULT_BARS,
        ) {
            Ok((bpm, bars)) => Ok(spread_sequence(notes, bpm, bars)),
            Err(e) => Err(e),
        },
    }
}

/// A scale command's root and steps keep every note within a `u8`, and a
/// command of notes has at least one.
pub open spec fn plan_fits(p: ParsedCommandView) -> bool {
    match p {
        ParsedCommandView::Scale { root, intervals, .. } => scale_fits(root, intervals),
        ParsedCommandView::Notes { notes, .. } => notes.len() > 0,
        _ => true,
    }
}

fn option_from_word(w: &Vec<char>) -> (r: ScaleOption)
    ensures
        r@ == option_of(w@),
{
    proof {
        reveal_strlit("bpm");
        reveal_strlit("bars");
    }
    if chars_ends_with_str(w, "bpm") {
        let number = chars_slice(w, 0, w.len() - 3);
        assert(number@ == w@.take(w@.len() - 3));
        ScaleOption::Bpm { token: string_from_chars(w), number: string_from_chars(&number) }
    } else if chars_ends_with_str(w, "bars") {
        let number = chars_slice(w, 0, w.len() - 4);
        assert(number@ == w@.take(w@.len() - 4));
        ScaleOption::Bars { token: string_from_chars(w), count: parse_u32_chars(&number) }
    } else {
        ScaleOption::Unknown
    }
}

proof fn lemma_scale_value_fits(name: Seq<char>, root: u8)
    requires
        scale_value(name) is Some,
        root <= 71,
    ensures
        scale_fits(root, scale_value(name)->0),
{
}

/// Reads a text command, leaving only the conversion of tempo numbers to
/// `f32` for [`ParsedCommand::into_sequence`].
pub fn parse_command(input: &str) -> (r: Result<ParsedCommand, ParseError>)
    ensures
        match r {
            Ok(p) => command_plan(input@) == Ok::<ParsedCommandView, ParseErrorView>(p@) && plan_fits(p@),
            Err(e) => command_plan(input@) == Err::<ParsedCommandView, ParseErrorView>(e@),
        },
{
    let raw = chars_of(input);
    let t = trim_chars(&raw);
    if t.len() == 0 {
        return Err(ParseError::EmptyInput);
    }
    let lower = to_ascii_lower(&t);
    if chars_eq_str(&lower, "stop") {
        return Ok(ParsedCommand::Stop);
    }
    proof {
        reveal_strlit("tempo ");
    }
    if chars_starts_with_str(&lower, "tempo ") {
        let rest = chars_slice(&lower, 6, lower.len());
        assert(rest@ == lower@.skip(6));
        let text = trim_chars(&rest);
        return Ok(ParsedCommand::Tempo { text: string_from_chars(&text) });
    }
    let words = split_white_space(&lower);
    if words.len() < 2 {
        return Err(ParseError::UnknownCommand(string_from_chars(&t)));
    }
    assert(views(words@)[0] == words@[0]@);
    assert(views(words@)[1] == words@[1]@);
    match note_from_chars(&words[0]) {
        Some(root) => {
            let intervals = match scale_from_chars(&words[1]) {
                Some(iv) => iv,
                None => {
                    return Err(ParseError::UnknownScale(string_from_chars(&words[1])));
                },
            };
            proof {
                lemma_scale_value_fits(words@[1]@, root);
            }
            let options = options_from(&words, 2);
            Ok(ParsedCommand::Scale { root, intervals, input: string_from_chars(&t), options })
        },
        None => {
            let ghost w = views(words@);
            let mut notes: Vec<u8> = Vec::new();
            let mut i: usize = 0;
            while i < words.len()
                invariant
                    w == views(words@),
                    i <= words@.len(),
                    forall|j: int| 0 <= j < i ==> pitch_value(#[trigger] w[j]) is Some,
                    notes@ == Seq::new(i as nat, |j: int| pitch_value(w[j])->0),
                ensures
                    i < words@.len() ==> pitch_value(w[i as int]) is None,
                decreases words@.len() - i,
            {
                assert(w[i as int] == words@[i as int]@);
                match pitch_from_chars(&words[i]) {
                    Some(n) => {
                        notes.push(n);
                        i = i + 1;
                        assert(notes@ == Seq::new(i as nat, |j: int| pitch_value(w[j])->0));
                    },
                    None => {
                        assert(pitch_value(w[i as int]) is None);
                        break;
                    },
                }
            }
            proof {
                lemma_note_run(w, i as int);
                if i < words.len() {
                    assert(w.skip(i as int)[0] == w[i as int]);
                }
                assert(note_run(w.skip(i as int)) =~= Seq::<u8>::empty());
                assert(note_run(w) == notes@);
            }
            if notes.len() == 0 {
                return Err(ParseError::UnknownNote(string_from_chars(&words[0])));
            }
            let options = options_from(&words, i);
            Ok(ParsedCommand::Notes { notes, input: string_from_chars(&t), options })
        },
    }
}

/// The options read from the words from `start` on.
fn options_from(words: &Vec<Vec<char>>, start: usize) -> (r: Vec<ScaleOption>)
    requires
        start <= words@.len(),
    ensures
        option_views(r@) == views(words@).skip(start as int).map_values(|w: Seq<char>| option_of(w)),
{
    let ghost rest_words = views(words@).skip(start as int);
    let mut options: Vec<ScaleOption> = Vec::new();
    let mut i: usize = start;
    while i < words.len()
        invariant
            start <= i <= words@.len(),
            rest_words == views(words@).skip(start as int),
            option_views(options@) == rest_words.take(i - start).map_values(|w: Seq<char>| option_of(w)),
        decreases words@.len() - i,
    {
        let o = option_from_word(&words[i]);
        let ghost before = options@;
        options.push(o);
        assert(rest_words[i - start] == words@[i as int]@);
        assert(rest_words.take(i - start + 1) == rest_words.take(i - start).push(words@[i as int]@));
        assert(option_views(options@) == option_views(before).push(o@));
        i = i + 1;
    }
    assert(rest_words.take(rest_words.len() as int) == rest_words);
    options
}

proof fn lemma_tempo_texts_split(opts: Seq<ScaleOptionView>, i: int)
    requires
        0 <= i <= opts.len(),
    ensures
        option_tempo_texts(opts) == option_tempo_texts(opts.take(i)) + option_tempo_texts(opts.skip(i)),
    decreases i,
{
    if i > 0 {
        lemma_tempo_texts_split(opts.drop_first(), i - 1);
        assert(opts.take(i).drop_first() == opts.drop_first().take(i - 1));
        assert(opts.drop_first().skip(i - 1) == opts.skip(i));
    } else {
        assert(opts.take(0) =~= Seq::<ScaleOptionView>::empty());
        assert(opts.skip(0) == opts);
    }
}

proof fn lemma_settings_step(
    opts: Seq<ScaleOptionView>,
    values: Seq<Option<u32>>,
    i: int,
    k: int,
    input: Seq<char>,
    bpm: u32,
    bars: u32,
)
    requires
        0 <= i < opts.len(),
        0 <= k <= values.len(),
        opts[i] is Bpm ==> k < values.len(),
    ensures
        scale_settings(opts.skip(i), values.skip(k), input, bpm, bars) == (match opts[i] {
            ScaleOptionView::Bpm { token, .. } => match values.skip(k)[0] {
                Some(b) => scale_settings(opts.skip(i + 1), values.skip(k + 1), input, b, bars),
                None => Err(ParseErrorView::InvalidTempo(token)),
            },
            ScaleOptionView::Bars { token, count } => match count {
                Some(c) => scale_settings(opts.skip(i + 1), values.skip(k), input, bpm, c),
                None => Err(ParseErrorView::UnknownCommand(token)),
            },
            ScaleOptionView::Unknown => Err(ParseErrorView::UnknownCommand(input)),
        }),
{
    assert(opts.skip(i).drop_first() == opts.skip(i + 1));
    assert(opts.skip(i)[0] == opts[i]);
    assert(opts.skip(i).len() > 0);
    if k < values.len() {
        assert(values.skip(k).drop_first() == values.skip(k + 1));
    }
}

/// The tempo texts of the options, in order.
fn option_texts(options: &Vec<ScaleOption>) -> (r: Vec<String>)
    ensures
        r@.map_values(|s: String| s@) == option_tempo_texts(option_views(options@)),
{
    let mut r: Vec<String> = Vec::new();
    let ghost opts = option_views(options@);
    let mut i: usize = 0;
    while i < options.len()
        invariant
            i <= options@.len(),
            opts == option_views(options@),
            r@.map_values(|s: String| s@) == option_tempo_texts(opts.take(i as int)),
        decreases options@.len() - i,
    {
        let ghost before = r@;
        proof {
            lemma_tempo_texts_split(opts.take(i + 1), i as int);
            assert(opts.take(i + 1).take(i as int) == opts.take(i as int));
            assert(opts.take(i + 1).skip(i as int) == seq![opts[i as int]]);
            let one = seq![opts[i as int]];
            assert(one.drop_first() =~= Seq::<ScaleOptionView>::empty());
            assert(option_tempo_texts(one.drop_first()) =~= Seq::<Seq<char>>::empty());
        }
        match &options[i] {
            ScaleOption::Bpm { number, .. } => {
                r.push(number.clone());
                assert(r@.map_values(|s: String| s@) == before.map_values(|s: String| s@).push(number@));
            },
            _ => {},
        }
        i = i + 1;
    }
    assert(opts.take(opts.len() as int) == opts);
    r
}

impl ParsedCommand {
    /// The texts that need a conversion to `f32`, in reading order.
    pub fn tempo_texts(&self) -> (r: Vec<String>)
        ensures
            r@.map_values(|s: String| s@) == tempo_texts_of(self@),
    {
        let mut r: Vec<String> = Vec::new();
        match self {
            ParsedCommand::Stop => {
                assert(r@.map_values(|s: String| s@) =~= Seq::<Seq<char>>::empty());
            },
            ParsedCommand::Tempo { text } => {
                r.push(text.clone());
                assert(r@.map_values(|s: String| s@) =~= seq![text@]);
            },
            ParsedCommand::Scale { options, .. } => {
                r = option_texts(options);
            },
            ParsedCommand::Notes { options, .. } => {
                r = option_texts(options);
            },
        }
        r
    }
}


/// Reads the options from left to right, given the `f32` bits of each tempo
/// text: the tempo and bar count they leave, or the first error.
fn read_settings(options: &Vec<ScaleOption>, input: &String, tempo_values: &[Option<u32>]) -> (r: Result<(u32, u32), ParseError>)
    requires
        tempo_values@.len() == option_tempo_texts(option_views(options@)).len(),
    ensures
        match r {
            Ok(v) => scale_settings(option_views(options@), tempo_values@, input@, DEFAULT_TEMPO_BITS, DEFAULT_BARS)
                == Ok::<(u32, u32), ParseErrorView>(v),
            Err(e) => scale_settings(option_views(options@), tempo_values@, input@, DEFAULT_TEMPO_BITS, DEFAULT_BARS)
                == Err::<(u32, u32), ParseErrorView>(e@),
        },
{
    let ghost opts = option_views(options@);
    let mut bpm: u32 = DEFAULT_TEMPO_BITS;
    let mut bars: u32 = DEFAULT_BARS;
    let mut k: usize = 0;
    let mut i: usize = 0;
    proof {
        assert(opts.skip(0) == opts);
        assert(tempo_values@.skip(0) == tempo_values@);
        lemma_tempo_texts_split(opts, 0);
    }
    while i < options.len()
        invariant
            i <= options@.len(),
            opts == option_views(options@),
            k <= tempo_values@.len(),
            tempo_values@.len() == option_tempo_texts(opts).len(),
            k == option_tempo_texts(opts.take(i as int)).len(),
            scale_settings(opts, tempo_values@, input@, DEFAULT_TEMPO_BITS, DEFAULT_BARS)
                == scale_settings(opts.skip(i as int), tempo_values@.skip(k as int), input@, bpm, bars),
        decreases options@.len() - i,
    {
        proof {
            assert(opts[i as int] == options@[i as int]@);
            lemma_tempo_texts_split(opts.take(i + 1), i as int);
            lemma_tempo_texts_split(opts, i + 1);
            assert(opts.take(i + 1).take(i as int) == opts.take(i as int));
            let one = seq![opts[i as int]];
            assert(opts.take(i + 1).skip(i as int) == one);
            assert(one.drop_first() =~= Seq::<ScaleOptionView>::empty());
            assert(option_tempo_texts(one.drop_first()) =~= Seq::<Seq<char>>::empty());
            lemma_settings_step(opts, tempo_values@, i as int, k as int, input@, bpm, bars);
        }
        match &options[i] {
            ScaleOption::Bpm { token, number } => {
                assert(opts[i as int] == ScaleOptionView::Bpm { token: token@, number: number@ });
                assert(k < tempo_values@.len());
                assert(tempo_values@.skip(k as int)[0] == tempo_values@[k as int]);
                match tempo_values[k] {
                    Some(b) => {
                        bpm = b;
                        k = k + 1;
                    },
                    None => {
                        return Err(ParseError::InvalidTempo(token.clone()));
                    },
                }
            },
            ScaleOption::Bars { token, count } => match count {
                Some(c) => {
                    assert(opts[i as int] == ScaleOptionView::Bars { token: token@, count: *count });
                    bars = *c;
                },
                None => {
                    assert(opts[i as int] == ScaleOptionView::Bars { token: token@, count: *count });
                    return Err(ParseError::UnknownCommand(token.clone()));
                },
            },
            ScaleOption::Unknown => {
                return Err(ParseError::UnknownCommand(input.clone()));
            },
        }
        i = i + 1;
    }
    assert(opts.skip(opts.len() as int) =~= Seq::<ScaleOptionView>::empty());
    Ok((bpm, bars))
}

impl ParsedCommand {
    /// Builds the sequence of the command, given for each of its
    /// [`tempo_texts`](ParsedCommand::tempo_texts) the `f32` bits of the
    /// number it spells (`None` where it spells none). The first problem in
    /// reading order is the error.
    pub fn into_sequence(&self, tempo_values: &[Option<u32>]) -> (r: Result<MidiSequence, ParseError>)
        requires
            plan_fits(self@),
            tempo_values@.len() == tempo_texts_of(self@).len(),
        ensures
            match r {
                Ok(s) => command_sequence(self@, tempo_values@) == Ok::<MidiSequenceView, ParseErrorView>(s@)
                    && events_fit(s.events@),
                Err(e) => command_sequence(self@, tempo_values@) == Err::<MidiSequenceView, ParseErrorView>(e@),
            },
    {
        match self {
            ParsedCommand::Stop => {
                let s = MidiSequence::new(0);
                assert(s.events@ =~= Seq::<MidiEvent>::empty());
                Ok(s)
            },
            ParsedCommand::Tempo { text } => match tempo_values[0] {
                Some(b) => {
                    let s = MidiSequence::new(b);
                    assert(s.events@ =~= Seq::<MidiEvent>::empty());
                    Ok(s)
                },
                None => Err(ParseError::InvalidTempo(text.clone())),
            },
            ParsedCommand::Scale { root, intervals, input, options } => match read_settings(options, input, tempo_values) {
                Ok((bpm, bars)) => Ok(build_scale_sequence(*root, intervals.as_slice(), bpm, bars)),
                Err(e) => Err(e),
            },
            ParsedCommand::Notes { notes, input, options } => match read_settings(options, input, tempo_values) {
                Ok((bpm, bars)) => Ok(spread_notes(notes.as_slice(), bpm, bars)),
                Err(e) => Err(e),
            },
        }
    }
}

} // verus!
