use vstd::prelude::*;
use vstd::string::StringSliceAdditionalSpecFns;
use vstd::utf8::{decode_utf8, valid_utf8};

use super::note::{
    effect_code, effect_of_code, lemma_effect_code_roundtrip, lemma_wave_of_code_roundtrip,
    note_bits, wave_code, wave_of_code, Effect, Pico8Note, SfxError, SfxErrorModel, SfxPart,
    WaveForm, PITCH_OFFSET,
};
use crate::text::{char_string, string_from_utf8};

verus! {

/// How a sound effect repeats. A stoppable loop stops repeating once it is released.
#[derive(Debug, Clone, Copy, PartialEq, Eq, Structural)]
pub enum Loop {
    Unstoppable { start: Option<u8>, end: Option<u8> },
    Stoppable { start: Option<u8>, end: Option<u8> },
}

/// A sound effect: its notes, the duration of each note in ticks, and its loop.
#[derive(Debug, Clone)]
pub struct Sfx {
    pub notes: Vec<Pico8Note>,
    pub speed: u8,
    pub loop_maybe: Option<Loop>,
}

/// The loop that `with_loop` installs for the given bounds, if any.
pub open spec fn loop_for(start: Option<u8>, end: Option<u8>) -> Option<Loop> {
    if start is Some || end is Some {
        Some(Loop::Unstoppable { start, end })
    } else {
        None
    }
}

impl Sfx {
    /// A sound effect with the given notes, speed 16 and no loop.
    pub fn new(notes: Vec<Pico8Note>) -> (r: Sfx)
        ensures
            r.notes@ == notes@,
            r.speed == 16,
            r.loop_maybe is None,
    {
        Sfx { notes, speed: 16, loop_maybe: None }
    }

    /// Sets the speed (ticks per note).
    pub fn with_speed(self, speed: u8) -> (r: Sfx)
        ensures
            r.notes@ == self.notes@,
            r.speed == speed,
            r.loop_maybe == self.loop_maybe,
    {
        let mut s = self;
        s.speed = speed;
        s
    }

    /// Installs an unstoppable loop when either bound is given; otherwise keeps the loop.
    pub fn with_loop(self, loop_start: Option<u8>, loop_end: Option<u8>) -> (r: Sfx)
        ensures
            r.notes@ == self.notes@,
            r.speed == self.speed,
            r.loop_maybe == (if loop_start is Some || loop_end is Some {
                loop_for(loop_start, loop_end)
            } else {
                self.loop_maybe
            }),
    {
        let mut s = self;
        if loop_start.is_some() || loop_end.is_some() {
            s.loop_maybe = Some(Loop::Unstoppable { start: loop_start, end: loop_end });
        }
        s
    }
}

// ---------------------------------------------------------------------------
// Binary cart encoding: 32 little-endian notes followed by editor mode, speed,
// loop start and loop end.
// ---------------------------------------------------------------------------

/// The notes stored in the first `2 * count` bytes, two little-endian bytes each.
pub open spec fn notes_of_bytes(data: Seq<u8>, count: int) -> Seq<Pico8Note> {
    Seq::new(count as nat, |k: int| Pico8Note(((data[2 * k + 1] as int) * 256 + data[2 * k] as int) as u16))
}

/// Binary sound effects whose loop bytes would remove more notes than there are.
pub open spec fn from_u8_panics(data: Seq<u8>) -> bool {
    let note_end = data.len() - 4;
    let start = data[note_end + 2];
    let end = data[note_end + 3];
    end != 0 && end < start && start > note_end / 2
}

/// The notes of a binary sound effect after its loop bytes are applied.
pub open spec fn from_u8_notes(data: Seq<u8>) -> Seq<Pico8Note> {
    let note_end = data.len() - 4;
    let all = notes_of_bytes(data, note_end / 2);
    let start = data[note_end + 2];
    let end = data[note_end + 3];
    if end == 0 {
        if start > 0 && start < all.len() {
            all.take(start as int)
        } else {
            all
        }
    } else if end < start {
        all.skip(start as int)
    } else {
        all
    }
}

/// The loop of a binary sound effect.
pub open spec fn from_u8_loop(data: Seq<u8>) -> Option<Loop> {
    let note_end = data.len() - 4;
    let start = data[note_end + 2];
    let end = data[note_end + 3];
    if end != 0 && end > start {
        Some(Loop::Unstoppable { start: Some(start), end: Some(end) })
    } else {
        None
    }
}

impl Sfx {
    /// Reads a sound effect in the binary cart encoding. A zero loop end makes a
    /// non-zero loop start a length limit; a loop end below the start drops the
    /// notes before the start; otherwise a proper range is an unstoppable loop.
    pub fn from_u8(data: &[u8]) -> (r: Sfx)
        requires
            data@.len() >= 4,
            (data@.len() - 4) % 2 == 0,
            !from_u8_panics(data@),
        ensures
            r.notes@ == from_u8_notes(data@),
            r.speed == data@[data@.len() - 3],
            r.loop_maybe == from_u8_loop(data@),
            data@[data@.len() - 1] == 0 && 0 < data@[data@.len() - 2] < (data@.len() - 4) / 2 ==> {
                &&& r.notes@.len() == data@[data@.len() - 2]
                &&& forall|k: int|
                    0 <= k < r.notes@.len() ==> #[trigger] r.notes@[k] == Pico8Note(
                        ((data@[2 * k + 1] as int) * 256 + data@[2 * k] as int) as u16,
                    )
                &&& r.loop_maybe is None
            },
    {
        proof {
            if data@[data@.len() - 1] == 0 && 0 < data@[data@.len() - 2] < (data@.len() - 4) / 2 {
                lemma_from_u8_loop_start_limits_length(data@);
            }
        }
        let n = data.len();
        let note_end = n - 4;
        let count = note_end / 2;
        let start = data[note_end + 2];
        let end = data[note_end + 3];
        let speed = data[note_end + 1];
        // Which notes stay: [first, last).
        let mut first: usize = 0;
        let mut last: usize = count;
        let mut loop_maybe: Option<Loop> = None;
        if end == 0 {
            if start > 0 && (start as usize) < count {
                last = start as usize;
            }
        } else if end < start {
            first = start as usize;
        } else if end > start {
            loop_maybe = Some(Loop::Unstoppable { start: Some(start), end: Some(end) });
        }
        assert(count * 2 == note_end);
        let mut notes: Vec<Pico8Note> = Vec::new();
        let mut k = first;
        while k < last
            invariant
                first <= k <= last <= count,
                count == (data@.len() - 4) / 2,
                count * 2 + 4 == data@.len(),
                n == data@.len(),
                notes@ == notes_of_bytes(data@, count as int).subrange(first as int, k as int),
            decreases last - k,
        {
            let lo = data[2 * k];
            let hi = data[2 * k + 1];
            notes.push(Pico8Note(((hi as u16) << 8u16) | lo as u16));
            proof {
                assert(((hi as u16) << 8u16) | lo as u16 == ((hi as int) * 256 + lo as int) as u16)
                    by (bit_vector);
                assert(notes@ =~= notes_of_bytes(data@, count as int).subrange(
                    first as int,
                    k + 1,
                ));
            }
            k = k + 1;
        }
        proof {
            let all = notes_of_bytes(data@, count as int);
            if end == 0 {
                if start > 0 && (start as usize) < count {
                    assert(all.take(start as int) =~= all.subrange(0, start as int));
                } else {
                    assert(all =~= all.subrange(0, count as int));
                }
            } else if end < start {
                assert(all.skip(start as int) =~= all.subrange(start as int, count as int));
            } else {
                assert(all =~= all.subrange(0, count as int));
            }
        }
        Sfx { notes, speed, loop_maybe }
    }
}

/// A binary sound effect whose loop end is 0 and whose loop start `s` lies
/// strictly between 0 and the note count keeps exactly its first `s` notes,
/// each read from its two little-endian bytes, and has no loop.
pub proof fn lemma_from_u8_loop_start_limits_length(data: Seq<u8>)
    requires
        data.len() >= 4,
        (data.len() - 4) % 2 == 0,
        data[data.len() - 1] == 0,
        0 < data[data.len() - 2] < (data.len() - 4) / 2,
    ensures
        from_u8_notes(data).len() == data[data.len() - 2],
        forall|k: int|
            0 <= k < data[data.len() - 2] ==> #[trigger] from_u8_notes(data)[k] == Pico8Note(
                ((data[2 * k + 1] as int) * 256 + data[2 * k] as int) as u16,
            ),
        from_u8_loop(data) is None,
        !from_u8_panics(data),
{
}

/// A binary sound effect whose loop end lies above its loop start keeps every
/// note, each read from its two little-endian bytes, and loops unstoppably
/// over that range.
pub proof fn lemma_from_u8_proper_loop(data: Seq<u8>)
    requires
        data.len() >= 4,
        (data.len() - 4) % 2 == 0,
        data[data.len() - 1] > data[data.len() - 2],
    ensures
        from_u8_notes(data).len() == (data.len() - 4) / 2,
        forall|k: int|
            0 <= k < (data.len() - 4) / 2 ==> #[trigger] from_u8_notes(data)[k] == Pico8Note(
                ((data[2 * k + 1] as int) * 256 + data[2 * k] as int) as u16,
            ),
        from_u8_loop(data) == Some(
            Loop::Unstoppable { start: Some(data[data.len() - 2]), end: Some(data[data.len() - 1]) },
        ),
{
}

// ---------------------------------------------------------------------------
// Text cart encoding: a line of hexadecimal digits, eight for the header
// (editor mode, speed, loop start, loop end) then five per note (pitch high,
// pitch low, wave form, volume, effect). Trailing silent notes may be omitted.
// ---------------------------------------------------------------------------

/// The value of a hexadecimal digit.
pub open spec fn hex_digit(b: u8) -> Option<u8> {
    if 48 <= b <= 57 {
        Some((b - 48) as u8)
    } else if 97 <= b <= 102 {
        Some((b - 87) as u8)
    } else if 65 <= b <= 70 {
        Some((b - 55) as u8)
    } else {
        None
    }
}

/// The byte written by two hexadecimal digits, high digit first.
pub open spec fn hex_byte(hi: u8, lo: u8) -> Option<u8> {
    match (hex_digit(hi), hex_digit(lo)) {
        (Some(h), Some(l)) => Some((h * 16 + l) as u8),
        _ => None,
    }
}

/// The value of a hexadecimal digit, if `b` is one.
pub fn to_nybble(b: u8) -> (r: Option<u8>)
    ensures
        r == hex_digit(b),
        r matches Some(v) ==> v <= 15,
{
    if 48 <= b && b <= 57 {
        Some(b - 48)
    } else if 97 <= b && b <= 102 {
        Some(b - 87)
    } else if 65 <= b && b <= 70 {
        Some(b - 55)
    } else {
        None
    }
}

/// The byte that two hexadecimal digits write, if both are digits.
pub fn to_byte(hi: u8, lo: u8) -> (r: Option<u8>)
    ensures
        r == hex_byte(hi, lo),
{
    match (to_nybble(hi), to_nybble(lo)) {
        (Some(h), Some(l)) => Some(h * 16 + l),
        _ => None,
    }
}

/// The number of `'0'` bytes at the end of `s`.
pub open spec fn trailing_zeros(s: Seq<u8>) -> nat
    decreases s.len(),
{
    if s.len() == 0 {
        0
    } else if s.last() == 48u8 {
        1 + trailing_zeros(s.drop_last())
    } else {
        0
    }
}

/// How many omitted notes the trailing zeros of a line account for.
pub open spec fn empty_notes(s: Seq<u8>) -> nat {
    if trailing_zeros(s) == s.len() {
        0
    } else {
        trailing_zeros(s) / 5
    }
}

/// The part of a line that is read: the line without its omitted notes.
pub open spec fn kept_bytes(s: Seq<u8>) -> Seq<u8> {
    s.take(s.len() - 5 * empty_notes(s))
}

/// The outcome of reading one note at position `p`.
pub ghost enum NoteStep {
    Panics,
    Fails(SfxErrorModel),
    Note(Pico8Note),
}

/// The text of one byte shown as a character.
pub open spec fn byte_text(b: u8) -> Seq<char> {
    seq![b as char]
}

/// Reads the note whose five digits start at `p` (the last digits may be missing).
pub open spec fn note_step(lb: Seq<u8>, p: int) -> NoteStep {
    let k = lb.len();
    if p + 1 >= k {
        NoteStep::Fails(SfxErrorModel::Missing(SfxPart::PitchLowNybble))
    } else if hex_digit(lb[p + 1]) is None {
        NoteStep::Fails(SfxErrorModel::InvalidHex(byte_text(lb[p + 1])))
    } else if p + 2 >= k {
        NoteStep::Fails(SfxErrorModel::Missing(SfxPart::WaveForm))
    } else if hex_digit(lb[p + 2]) is None {
        NoteStep::Fails(SfxErrorModel::InvalidHex(byte_text(lb[p + 2])))
    } else if p + 3 >= k {
        NoteStep::Fails(SfxErrorModel::Missing(SfxPart::Volume))
    } else if hex_digit(lb[p + 3]) is None {
        NoteStep::Fails(SfxErrorModel::InvalidHex(byte_text(lb[p + 3])))
    } else if p + 4 >= k {
        NoteStep::Fails(SfxErrorModel::Missing(SfxPart::Effect))
    } else if hex_digit(lb[p + 4]) is None {
        NoteStep::Fails(SfxErrorModel::InvalidHex(byte_text(lb[p + 4])))
    } else if hex_digit(lb[p]) is None {
        NoteStep::Fails(SfxErrorModel::InvalidHex(byte_text(lb[p])))
    } else {
        let key = hex_digit(lb[p]).unwrap() * 16 + hex_digit(lb[p + 1]).unwrap();
        let wave = hex_digit(lb[p + 2]).unwrap();
        let volume = hex_digit(lb[p + 3]).unwrap();
        let effect = hex_digit(lb[p + 4]).unwrap();
        if key + PITCH_OFFSET > 255 {
            NoteStep::Panics
        } else if effect_of_code(effect) is None {
            NoteStep::Fails(SfxErrorModel::InvalidEffect(effect))
        } else if volume > 7 || key > 63 {
            NoteStep::Panics
        } else {
            NoteStep::Note(Pico8Note(note_bits(key as u8, wave, volume, effect)))
        }
    }
}

/// The outcome of reading sound-effect text.
pub ghost enum SfxParse {
    Panics,
    Fails(SfxErrorModel),
    Parsed(Seq<Pico8Note>),
}

/// Reads the notes from position `p` on, after the notes `acc` read so far.
pub open spec fn notes_from(lb: Seq<u8>, p: int, acc: Seq<Pico8Note>) -> SfxParse
    decreases lb.len() - p,
{
    if p >= lb.len() {
        SfxParse::Parsed(acc)
    } else {
        match note_step(lb, p) {
            NoteStep::Panics => SfxParse::Panics,
            NoteStep::Fails(e) => SfxParse::Fails(e),
            NoteStep::Note(n) => notes_from(lb, p + 5, acc.push(n)),
        }
    }
}

/// A header byte at `2 * k` that is not hexadecimal and whose two bytes are not
/// valid UTF-8 either, so that its error text cannot be made.
pub open spec fn header_text_panics(s: Seq<u8>, k: int) -> bool {
    hex_byte(s[2 * k], s[2 * k + 1]) is None && !valid_utf8(s.subrange(2 * k, 2 * k + 2))
}

/// The error for a header byte at `2 * k` that is not hexadecimal.
pub open spec fn header_error(s: Seq<u8>, k: int) -> SfxErrorModel {
    SfxErrorModel::InvalidHex(decode_utf8(s.subrange(2 * k, 2 * k + 2)))
}

/// The outcome of reading a line: it panics, fails with an error, or gives the
/// notes; the header then gives the speed and loop (see `header_speed`, `header_loop`).
pub open spec fn parse_sfx_line(s: Seq<u8>) -> SfxParse {
    if s.len() < 8 || (s.len() - 8) / 5 < empty_notes(s) {
        SfxParse::Panics
    } else if header_text_panics(s, 0) || header_text_panics(s, 1) {
        SfxParse::Panics
    } else if hex_byte(s[4], s[5]) is None {
        if header_text_panics(s, 2) {
            SfxParse::Panics
        } else {
            SfxParse::Fails(header_error(s, 2))
        }
    } else if hex_byte(s[6], s[7]) is None {
        if header_text_panics(s, 3) {
            SfxParse::Panics
        } else {
            SfxParse::Fails(header_error(s, 3))
        }
    } else {
        match notes_from(kept_bytes(s), 8, seq![]) {
            SfxParse::Parsed(notes) => if hex_byte(s[2], s[3]) is None {
                SfxParse::Fails(header_error(s, 1))
            } else {
                SfxParse::Parsed(notes)
            },
            other => other,
        }
    }
}

/// The speed that a line's header gives.
pub open spec fn header_speed(s: Seq<u8>) -> u8 {
    hex_byte(s[2], s[3]).unwrap()
}

/// The loop that a line's header gives: zero bounds are absent.
pub open spec fn header_loop(s: Seq<u8>) -> Option<Loop> {
    let start = hex_byte(s[4], s[5]).unwrap();
    let end = hex_byte(s[6], s[7]).unwrap();
    loop_for(
        if start != 0 { Some(start) } else { None },
        if end != 0 { Some(end) } else { None },
    )
}

proof fn lemma_trailing_zeros_bound(s: Seq<u8>)
    ensures
        trailing_zeros(s) <= s.len(),
        forall|i: int| s.len() - trailing_zeros(s) <= i < s.len() ==> s[i] == 48u8,
        trailing_zeros(s) < s.len() ==> s[s.len() - 1 - trailing_zeros(s)] != 48u8,
    decreases s.len(),
{
    if s.len() > 0 && s.last() == 48u8 {
        lemma_trailing_zeros_bound(s.drop_last());
        assert forall|i: int| s.len() - trailing_zeros(s) <= i < s.len() implies s[i] == 48u8 by {
            if i < s.len() - 1 {
                assert(s[i] == s.drop_last()[i]);
            }
        }
    }
}

proof fn lemma_trailing_zeros_count(s: Seq<u8>, t: nat)
    requires
        t <= s.len(),
        forall|i: int| s.len() - t <= i < s.len() ==> s[i] == 48u8,
        t < s.len() ==> s[s.len() - 1 - t] != 48u8,
    ensures
        trailing_zeros(s) == t,
    decreases s.len(),
{
    if t > 0 {
        let d = s.drop_last();
        assert forall|i: int| d.len() - (t - 1) <= i < d.len() implies d[i] == 48u8 by {
            assert(d[i] == s[i]);
        }
        if (t - 1) < d.len() {
            assert(d[d.len() - 1 - (t - 1)] == s[s.len() - 1 - t]);
        }
        lemma_trailing_zeros_count(d, (t - 1) as nat);
    }
}

impl Sfx {
    /// Reads a sound effect from one line of the text cart encoding.
    ///
    /// Errors come in the order in which the line is read: a bad loop start or
    /// loop end, then the notes one by one, then a bad speed. A bad editor-mode
    /// byte is ignored.
    pub fn try_from_str(line: &str) -> (r: Result<Sfx, SfxError>)
        requires
            !(parse_sfx_line(line.spec_bytes()) is Panics),
        ensures
            match r {
                Ok(sfx) => {
                    &&& parse_sfx_line(line.spec_bytes()) == SfxParse::Parsed(sfx.notes@)
                    &&& sfx.speed == header_speed(line.spec_bytes())
                    &&& sfx.loop_maybe == header_loop(line.spec_bytes())
                },
                Err(e) => parse_sfx_line(line.spec_bytes()) == SfxParse::Fails(e@),
            },
    {
        let bytes = line.as_bytes();
        let ghost s = bytes@;
        let n = bytes.len();
        // Count the trailing zeros.
        let mut t: usize = 0;
        while t < n && bytes[n - 1 - t] == 48u8
            invariant
                t <= n == s.len(),
                bytes@ == s,
                forall|i: int| n - t <= i < n ==> s[i] == 48u8,
            decreases n - t,
        {
            t = t + 1;
        }
        proof {
            lemma_trailing_zeros_count(s, t as nat);
        }
        let empty = if t == n {
            0
        } else {
            t / 5
        };
        let keep = n - empty * 5;
        assert(keep >= 8);
        let ghost lb = kept_bytes(s);
        assert(lb.len() == keep);
        // The header.
        let _editor_mode = to_byte(bytes[0], bytes[1]);
        let note_duration = to_byte(bytes[2], bytes[3]);
        let loop_start = match to_byte(bytes[4], bytes[5]) {
            Some(v) => v,
            None => {
                let text = string_from_utf8(slice_to_vec(bytes, 4));
                return match text {
                    Some(t) => Err(SfxError::InvalidHex(t)),
                    None => Err(SfxError::InvalidHex(String::new())),
                };
            },
        };
        let loop_end = match to_byte(bytes[6], bytes[7]) {
            Some(v) => v,
            None => {
                let text = string_from_utf8(slice_to_vec(bytes, 6));
                return match text {
                    Some(t) => Err(SfxError::InvalidHex(t)),
                    None => Err(SfxError::InvalidHex(String::new())),
                };
            },
        };
        // The notes.
        let mut notes: Vec<Pico8Note> = Vec::new();
        let mut p: usize = 8;
        while p < keep
            invariant
                8 <= p,
                keep == lb.len() <= n == s.len(),
                bytes@ == s,
                lb == s.take(keep as int),
                lb == kept_bytes(s),
                s == line.spec_bytes(),
                parse_sfx_line(s) == (match notes_from(lb, 8, seq![]) {
                    SfxParse::Parsed(notes) => if hex_byte(s[2], s[3]) is None {
                        SfxParse::Fails(header_error(s, 1))
                    } else {
                        SfxParse::Parsed(notes)
                    },
                    other => other,
                }),
                hex_byte(s[2], s[3]) == note_duration,
                hex_byte(s[4], s[5]) == Some(loop_start),
                hex_byte(s[6], s[7]) == Some(loop_end),
                notes_from(lb, 8, seq![]) == notes_from(lb, p as int, notes@),
                !(notes_from(lb, p as int, notes@) is Panics),
            decreases keep - p,
        {
            let step = read_note(bytes, keep, p);
            match step {
                Ok(note) => {
                    notes.push(note);
                    p = p + 5;
                },
                Err(e) => {
                    assert(notes_from(lb, p as int, notes@) == SfxParse::Fails(e@));
                    assert(notes_from(lb, 8, seq![]) == SfxParse::Fails(e@));
                    assert(parse_sfx_line(s) == SfxParse::Fails(e@));
                    return Err(e);
                },
            }
        }
        match note_duration {
            Some(speed) => {
                let sfx = Sfx::new(notes).with_speed(speed).with_loop(
                    if loop_start != 0 {
                        Some(loop_start)
                    } else {
                        None
                    },
                    if loop_end != 0 {
                        Some(loop_end)
                    } else {
                        None
                    },
                );
                Ok(sfx)
            },
            None => {
                let text = string_from_utf8(slice_to_vec(bytes, 2));
                match text {
                    Some(t) => Err(SfxError::InvalidHex(t)),
                    None => Err(SfxError::InvalidHex(String::new())),
                }
            },
        }
    }
}

/// The two bytes at `at` as a vector.
fn slice_to_vec(bytes: &[u8], at: usize) -> (r: Vec<u8>)
    requires
        at + 2 <= bytes@.len(),
    ensures
        r@ == bytes@.subrange(at as int, at + 2),
{
    let mut v: Vec<u8> = Vec::new();
    v.push(bytes[at]);
    v.push(bytes[at + 1]);
    assert(v@ =~= bytes@.subrange(at as int, at + 2));
    v
}

/// Reads the note at `p` of the first `keep` bytes; the caller knows that this
/// step does not panic.
fn read_note(bytes: &[u8], keep: usize, p: usize) -> (r: Result<Pico8Note, SfxError>)
    requires
        p < keep <= bytes@.len(),
        !(note_step(bytes@.take(keep as int), p as int) is Panics),
    ensures
        match r {
            Ok(n) => note_step(bytes@.take(keep as int), p as int) == NoteStep::Note(n),
            Err(e) => note_step(bytes@.take(keep as int), p as int) == NoteStep::Fails(e@),
        },
{
    let ghost lb = bytes@.take(keep as int);
    assert(forall|i: int| 0 <= i < keep ==> lb[i] == bytes@[i]);
    let hi = to_nybble(bytes[p]);
    if p + 1 >= keep {
        return Err(SfxError::Missing(SfxPart::PitchLowNybble));
    }
    let lo = match to_nybble(bytes[p + 1]) {
        Some(v) => v,
        None => return Err(SfxError::InvalidHex(char_string(bytes[p + 1] as char))),
    };
    if p + 2 >= keep {
        return Err(SfxError::Missing(SfxPart::WaveForm));
    }
    let wave = match to_nybble(bytes[p + 2]) {
        Some(v) => v,
        None => return Err(SfxError::InvalidHex(char_string(bytes[p + 2] as char))),
    };
    if p + 3 >= keep {
        return Err(SfxError::Missing(SfxPart::Volume));
    }
    let volume = match to_nybble(bytes[p + 3]) {
        Some(v) => v,
        None => return Err(SfxError::InvalidHex(char_string(bytes[p + 3] as char))),
    };
    if p + 4 >= keep {
        return Err(SfxError::Missing(SfxPart::Effect));
    }
    let effect = match to_nybble(bytes[p + 4]) {
        Some(v) => v,
        None => return Err(SfxError::InvalidHex(char_string(bytes[p + 4] as char))),
    };
    let hi = match hi {
        Some(v) => v,
        None => return Err(SfxError::InvalidHex(char_string(bytes[p] as char))),
    };
    let pitch = hi * 16 + lo + PITCH_OFFSET;
    let wave_form = match WaveForm::from_code(wave) {
        Some(w) => w,
        None => WaveForm::Triangle,
    };
    proof {
        lemma_wave_of_code_roundtrip(wave);
    }
    let effect = match Effect::from_code(effect) {
        Some(e) => e,
        None => return Err(SfxError::InvalidEffect(effect)),
    };
    proof {
        lemma_effect_code_roundtrip(effect, 0);
    }
    Ok(Pico8Note::new(pitch, wave_form, volume, effect))
}


// ---------------------------------------------------------------------------
// The note sequencer.
// ---------------------------------------------------------------------------

/// Plays the notes of a sound effect one after another, wrapping at the loop end
/// of a stoppable loop until it is released.
pub struct NoteIter {
    pub sfx: Sfx,
    pub index: usize,
}

/// One step of the sequencer at `index`: the note it plays, if any, and the next index.
///
/// With a stoppable loop, reaching the loop end (or the last note) wraps to the
/// loop start, or ends the sound when the loop has been released. Playback
/// always starts at note 0: the loop start is only the wrap target.
pub open spec fn note_iter_step(
    notes: Seq<Pico8Note>,
    lp: Option<Loop>,
    index: int,
    released: bool,
) -> (Option<Pico8Note>, int) {
    let (ended, index) = match lp {
        Some(Loop::Stoppable { start, end }) => {
            let wrap_to = match start {
                Some(s) => s as int,
                None => 0,
            };
            let past_end = match end {
                Some(e) => index >= e,
                None => false,
            };
            if past_end || index >= notes.len() {
                if released {
                    (true, index)
                } else {
                    (false, wrap_to)
                }
            } else {
                (false, index)
            }
        },
        _ => (false, index),
    };
    if ended || index >= notes.len() {
        (None, index)
    } else {
        (Some(notes[index]), index + 1)
    }
}

impl From<Sfx> for NoteIter {
    /// Starts at note 0.
    fn from(sfx: Sfx) -> (r: NoteIter) {
        NoteIter { sfx, index: 0 }
    }
}

impl vstd::std_specs::convert::FromSpecImpl<Sfx> for NoteIter {
    open spec fn obeys_from_spec() -> bool {
        true
    }

    open spec fn from_spec(v: Sfx) -> NoteIter {
        NoteIter { sfx: v, index: 0 }
    }
}

impl NoteIter {
    /// The next note; `released` says whether a stoppable loop has been released.
    /// An unstoppable loop must first be made stoppable.
    pub fn next(&mut self, released: bool) -> (r: Option<Pico8Note>)
        requires
            !(old(self).sfx.loop_maybe matches Some(Loop::Unstoppable { .. })),
        ensures
            final(self).sfx.notes@ == old(self).sfx.notes@,
            final(self).sfx.speed == old(self).sfx.speed,
            final(self).sfx.loop_maybe == old(self).sfx.loop_maybe,
            (r, final(self).index as int) == note_iter_step(
                old(self).sfx.notes@,
                old(self).sfx.loop_maybe,
                old(self).index as int,
                released,
            ),
            match old(self).sfx.loop_maybe {
                Some(Loop::Stoppable { start, end }) => {
                    let s = match start {
                        Some(s) => s as int,
                        None => 0,
                    };
                    (!released && s < old(self).sfx.notes@.len() && (old(self).index >= old(self).sfx.notes@.len()
                        || (end matches Some(e) && old(self).index >= e))) ==> (r == Some(old(self).sfx.notes@[s])
                        && final(self).index == s + 1)
                },
                _ => true,
            },
    {
        proof {
            if let Some(Loop::Stoppable { start, end }) = self.sfx.loop_maybe {
                let s = match start {
                    Some(s) => s as int,
                    None => 0,
                };
                if !released && s < self.sfx.notes@.len() && (self.index >= self.sfx.notes@.len() || (end matches Some(
                    e,
                ) && self.index >= e)) {
                    lemma_unreleased_loop_wraps_at_notes_end(self.sfx.notes@, start, end, self.index as int);
                }
            }
        }
        if let Some(Loop::Stoppable { start, end }) = self.sfx.loop_maybe {
            let wrap_to: usize = match start {
                Some(s) => s as usize,
                None => 0,
            };
            let past_end = match end {
                Some(e) => self.index >= e as usize,
                None => false,
            };
            let past_notes = self.index >= self.sfx.notes.len();
            if past_end || past_notes {
                if released {
                    return None;
                }
                self.index = wrap_to;
            }
        }
        if self.index >= self.sfx.notes.len() {
            return None;
        }
        let result = self.sfx.notes[self.index];
        self.index = self.index + 1;
        Some(result)
    }
}

/// A sound effect without a loop plays its notes once, in order, then ends.
pub proof fn lemma_plain_sfx_plays_in_order(notes: Seq<Pico8Note>, k: int, released: bool)
    requires
        0 <= k <= notes.len(),
    ensures
        note_iter_step(notes, None, k, released) == (if k < notes.len() {
            (Some(notes[k]), k + 1)
        } else {
            (None::<Pico8Note>, k)
        }),
{
}

/// At the loop end of a stoppable loop that has not been released, the
/// sequencer wraps to the loop start and plays it; once released it ends there.
pub proof fn lemma_stoppable_loop_wraps(
    notes: Seq<Pico8Note>,
    start: u8,
    end: u8,
    index: int,
)
    requires
        (start as int) < notes.len(),
        index >= end,
    ensures
        note_iter_step(
            notes,
            Some(Loop::Stoppable { start: Some(start), end: Some(end) }),
            index,
            false,
        ) == (Some(notes[start as int]), start + 1),
        note_iter_step(
            notes,
            Some(Loop::Stoppable { start: Some(start), end: Some(end) }),
            index,
            true,
        ).0 is None,
{
}

/// An unreleased stoppable loop wraps whenever the sequencer reaches the end
/// of the notes or the loop end, whichever comes first: it plays the note at
/// the loop start (note 0 without one) and moves past it, whatever the loop
/// end is.
pub proof fn lemma_unreleased_loop_wraps_at_notes_end(
    notes: Seq<Pico8Note>,
    start: Option<u8>,
    end: Option<u8>,
    index: int,
)
    requires
        (match start {
            Some(s) => s as int,
            None => 0,
        }) < notes.len(),
        index >= notes.len() || (end matches Some(e) && index >= e),
    ensures
        ({
            let s = match start {
                Some(s) => s as int,
                None => 0,
            };
            note_iter_step(notes, Some(Loop::Stoppable { start, end }), index, false) == (
                Some(notes[s]),
                s + 1,
            )
        }),
{
}

/// Inside the loop, the sequencer plays the notes in order whether or not the
/// loop has been released.
pub proof fn lemma_stoppable_loop_in_order(
    notes: Seq<Pico8Note>,
    start: Option<u8>,
    end: u8,
    index: int,
    released: bool,
)
    requires
        0 <= index < end,
        index < notes.len(),
    ensures
        note_iter_step(notes, Some(Loop::Stoppable { start, end: Some(end) }), index, released)
            == (Some(notes[index]), index + 1),
{
}

/// How to play a sound effect so that it can be released.
#[derive(Debug)]
pub enum StoppablePlay {
    /// It does not loop: play it as it is.
    Plain,
    /// It loops without a release: play this copy, whose loop stops once a
    /// fresh release flag is raised.
    Copy(Sfx),
    /// Its loop already stops on release: lower its release flag and play it.
    ResetRelease,
}

/// A copy of the notes.
fn copy_notes(notes: &Vec<Pico8Note>) -> (r: Vec<Pico8Note>)
    ensures
        r@ == notes@,
{
    let mut out: Vec<Pico8Note> = Vec::new();
    let mut i: usize = 0;
    while i < notes.len()
        invariant
            i <= notes@.len(),
            out@ == notes@.take(i as int),
        decreases notes@.len() - i,
    {
        out.push(notes[i]);
        assert(notes@.take(i + 1) =~= notes@.take(i as int).push(notes@[i as int]));
        i = i + 1;
    }
    assert(notes@.take(notes@.len() as int) =~= notes@);
    out
}

impl Sfx {
    /// The loop made stoppable, with the same bounds.
    pub open spec fn stoppable_loop(l: Option<Loop>) -> Option<Loop> {
        match l {
            Some(Loop::Unstoppable { start, end }) => Some(Loop::Stoppable { start, end }),
            Some(Loop::Stoppable { start, end }) => Some(Loop::Stoppable { start, end }),
            None => None,
        }
    }

    /// How to play the sound effect so that it can be released.
    pub fn stoppable_play(&self) -> (r: StoppablePlay)
        ensures
            match self.loop_maybe {
                None => r is Plain,
                Some(Loop::Unstoppable { start, end }) => r matches StoppablePlay::Copy(s) && s.notes@
                    == self.notes@ && s.speed == self.speed && s.loop_maybe == Some(
                    Loop::Stoppable { start, end },
                ),
                Some(Loop::Stoppable { .. }) => r is ResetRelease,
            },
    {
        match self.loop_maybe {
            None => StoppablePlay::Plain,
            Some(Loop::Unstoppable { start, end }) => StoppablePlay::Copy(
                Sfx {
                    notes: copy_notes(&self.notes),
                    speed: self.speed,
                    loop_maybe: Some(Loop::Stoppable { start, end }),
                },
            ),
            Some(Loop::Stoppable { .. }) => StoppablePlay::ResetRelease,
        }
    }

    /// The copy that a recording plays: its loop, if any, stops on release.
    pub fn stoppable_copy(&self) -> (r: Sfx)
        ensures
            r.notes@ == self.notes@,
            r.speed == self.speed,
            r.loop_maybe == Self::stoppable_loop(self.loop_maybe),
    {
        let loop_maybe = match self.loop_maybe {
            Some(Loop::Unstoppable { start, end }) => Some(Loop::Stoppable { start, end }),
            Some(Loop::Stoppable { start, end }) => Some(Loop::Stoppable { start, end }),
            None => None,
        };
        Sfx { notes: copy_notes(&self.notes), speed: self.speed, loop_maybe }
    }
}

} // verus!
