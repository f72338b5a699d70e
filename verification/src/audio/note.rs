use vstd::prelude::*;

verus! {

/// Offset between a tracker key (0..=63) and the MIDI-like pitch of a note.
pub const PITCH_OFFSET: u8 = 35;

/// The built-in instruments of a note; `Custom(x)` names custom instrument `x`.
#[derive(Debug, Clone, Copy, PartialEq, Eq, Structural)]
pub enum WaveForm {
    Triangle,
    TiltedSaw,
    Saw,
    Square,
    Pulse,
    Organ,
    Noise,
    Phaser,
    Custom(u8),
}

/// The per-note effects; arpeggios loop over groups of four notes.
#[derive(Debug, Clone, Copy, PartialEq, Eq, Structural)]
pub enum Effect {
    NoEffect,
    Slide,
    Vibrato,
    Drop,
    FadeIn,
    FadeOut,
    ArpFast,
    ArpSlow,
}

/// The numeric code of a wave form: 0..=7 for the built-ins, `x + 7` for `Custom(x)`.
pub open spec fn wave_code(w: WaveForm) -> int {
    match w {
        WaveForm::Triangle => 0,
        WaveForm::TiltedSaw => 1,
        WaveForm::Saw => 2,
        WaveForm::Square => 3,
        WaveForm::Pulse => 4,
        WaveForm::Organ => 5,
        WaveForm::Noise => 6,
        WaveForm::Phaser => 7,
        WaveForm::Custom(x) => x + 7,
    }
}

/// A wave form whose code fits in a byte.
pub open spec fn wave_encodable(w: WaveForm) -> bool {
    wave_code(w) <= 255
}

/// The wave form that a code denotes, if any (codes 8..=15 are custom instruments).
pub open spec fn wave_of_code(v: u8) -> Option<WaveForm> {
    if v == 0 {
        Some(WaveForm::Triangle)
    } else if v == 1 {
        Some(WaveForm::TiltedSaw)
    } else if v == 2 {
        Some(WaveForm::Saw)
    } else if v == 3 {
        Some(WaveForm::Square)
    } else if v == 4 {
        Some(WaveForm::Pulse)
    } else if v == 5 {
        Some(WaveForm::Organ)
    } else if v == 6 {
        Some(WaveForm::Noise)
    } else if v == 7 {
        Some(WaveForm::Phaser)
    } else if v <= 15 {
        Some(WaveForm::Custom((v - 7) as u8))
    } else {
        None
    }
}

/// The numeric code of an effect, 0..=7.
pub open spec fn effect_code(e: Effect) -> int {
    match e {
        Effect::NoEffect => 0,
        Effect::Slide => 1,
        Effect::Vibrato => 2,
        Effect::Drop => 3,
        Effect::FadeIn => 4,
        Effect::FadeOut => 5,
        Effect::ArpFast => 6,
        Effect::ArpSlow => 7,
    }
}

/// The effect that a code denotes, if any.
pub open spec fn effect_of_code(v: u8) -> Option<Effect> {
    if v == 0 {
        Some(Effect::NoEffect)
    } else if v == 1 {
        Some(Effect::Slide)
    } else if v == 2 {
        Some(Effect::Vibrato)
    } else if v == 3 {
        Some(Effect::Drop)
    } else if v == 4 {
        Some(Effect::FadeIn)
    } else if v == 5 {
        Some(Effect::FadeOut)
    } else if v == 6 {
        Some(Effect::ArpFast)
    } else if v == 7 {
        Some(Effect::ArpSlow)
    } else {
        None
    }
}

impl WaveForm {
    /// The wave form's code, as stored in a note.
    pub fn code(&self) -> (r: u8)
        requires
            wave_encodable(*self),
        ensures
            r == wave_code(*self),
    {
        match *self {
            WaveForm::Triangle => 0,
            WaveForm::TiltedSaw => 1,
            WaveForm::Saw => 2,
            WaveForm::Square => 3,
            WaveForm::Pulse => 4,
            WaveForm::Organ => 5,
            WaveForm::Noise => 6,
            WaveForm::Phaser => 7,
            WaveForm::Custom(x) => x + 7,
        }
    }

    /// The wave form with the given code; codes above 15 are refused.
    pub fn from_code(value: u8) -> (r: Option<WaveForm>)
        ensures
            r == wave_of_code(value),
    {
        match value {
            0 => Some(WaveForm::Triangle),
            1 => Some(WaveForm::TiltedSaw),
            2 => Some(WaveForm::Saw),
            3 => Some(WaveForm::Square),
            4 => Some(WaveForm::Pulse),
            5 => Some(WaveForm::Organ),
            6 => Some(WaveForm::Noise),
            7 => Some(WaveForm::Phaser),
            x => if x <= 0xf {
                Some(WaveForm::Custom(x - 7))
            } else {
                None
            },
        }
    }
}

impl Effect {
    /// The effect's code, as stored in a note.
    pub fn code(&self) -> (r: u8)
        ensures
            r == effect_code(*self),
    {
        match *self {
            Effect::NoEffect => 0,
            Effect::Slide => 1,
            Effect::Vibrato => 2,
            Effect::Drop => 3,
            Effect::FadeIn => 4,
            Effect::FadeOut => 5,
            Effect::ArpFast => 6,
            Effect::ArpSlow => 7,
        }
    }

    /// The effect with the given code; codes above 7 are refused.
    pub fn from_code(value: u8) -> (r: Option<Effect>)
        ensures
            r == effect_of_code(value),
    {
        match value {
            0 => Some(Effect::NoEffect),
            1 => Some(Effect::Slide),
            2 => Some(Effect::Vibrato),
            3 => Some(Effect::Drop),
            4 => Some(Effect::FadeIn),
            5 => Some(Effect::FadeOut),
            6 => Some(Effect::ArpFast),
            7 => Some(Effect::ArpSlow),
            _ => None,
        }
    }
}

/// Decoding a wave form's code gives the wave form back, for every code that fits a
/// nybble; `Custom(0)` shares its code with `Phaser` and is left out.
pub proof fn lemma_wave_code_roundtrip(w: WaveForm)
    requires
        wave_code(w) <= 15,
        w != WaveForm::Custom(0),
    ensures
        wave_of_code(wave_code(w) as u8) == Some(w),
{
}

/// Encoding the wave form that a code denotes gives the code back.
pub proof fn lemma_wave_of_code_roundtrip(v: u8)
    requires
        wave_of_code(v) is Some,
    ensures
        wave_code(wave_of_code(v).unwrap()) == v,
{
}

/// Encoding and decoding an effect are inverse to each other.
pub proof fn lemma_effect_code_roundtrip(e: Effect, v: u8)
    ensures
        effect_of_code(effect_code(e) as u8) == Some(e),
        effect_of_code(v) is Some ==> effect_code(effect_of_code(v).unwrap()) == v,
        effect_of_code(v) is Some <==> v <= 7,
{
}


/// The parts of a sound-effect line that can be missing.
#[derive(Debug, Clone, Copy, PartialEq, Eq, Structural)]
pub enum SfxPart {
    EditorMode,
    NoteDuration,
    LoopStart,
    LoopEnd,
    PitchLowNybble,
    WaveForm,
    Volume,
    Effect,
}

/// What can go wrong when reading sound-effect data.
#[derive(Debug, Clone)]
pub enum SfxError {
    InvalidEffect(u8),
    InvalidWaveForm(u8),
    /// The text that was not hexadecimal.
    InvalidHex(String),
    Missing(SfxPart),
}

/// The mathematical value of an [`SfxError`]: the offending text is kept as characters.
pub ghost enum SfxErrorModel {
    InvalidEffect(u8),
    InvalidWaveForm(u8),
    InvalidHex(Seq<char>),
    Missing(SfxPart),
}

impl View for SfxError {
    type V = SfxErrorModel;

    open spec fn view(&self) -> SfxErrorModel {
        match self {
            SfxError::InvalidEffect(x) => SfxErrorModel::InvalidEffect(*x),
            SfxError::InvalidWaveForm(x) => SfxErrorModel::InvalidWaveForm(*x),
            SfxError::InvalidHex(s) => SfxErrorModel::InvalidHex(s@),
            SfxError::Missing(p) => SfxErrorModel::Missing(*p),
        }
    }
}

impl TryFrom<u8> for WaveForm {
    type Error = SfxError;

    fn try_from(value: u8) -> (r: Result<WaveForm, SfxError>) {
        match WaveForm::from_code(value) {
            Some(w) => Ok(w),
            None => Err(SfxError::InvalidWaveForm(value)),
        }
    }
}

impl vstd::std_specs::convert::TryFromSpecImpl<u8> for WaveForm {
    open spec fn obeys_try_from_spec() -> bool {
        true
    }

    open spec fn try_from_spec(v: u8) -> Result<WaveForm, SfxError> {
        match wave_of_code(v) {
            Some(w) => Ok(w),
            None => Err(SfxError::InvalidWaveForm(v)),
        }
    }
}

impl TryFrom<u8> for Effect {
    type Error = SfxError;

    fn try_from(value: u8) -> (r: Result<Effect, SfxError>) {
        match Effect::from_code(value) {
            Some(e) => Ok(e),
            None => Err(SfxError::InvalidEffect(value)),
        }
    }
}

impl vstd::std_specs::convert::TryFromSpecImpl<u8> for Effect {
    open spec fn obeys_try_from_spec() -> bool {
        true
    }

    open spec fn try_from_spec(v: u8) -> Result<Effect, SfxError> {
        match effect_of_code(v) {
            Some(e) => Ok(e),
            None => Err(SfxError::InvalidEffect(v)),
        }
    }
}

impl From<Effect> for u8 {
    fn from(value: Effect) -> (r: u8) {
        value.code()
    }
}

impl vstd::std_specs::convert::FromSpecImpl<Effect> for u8 {
    open spec fn obeys_from_spec() -> bool {
        true
    }

    open spec fn from_spec(v: Effect) -> u8 {
        effect_code(v) as u8
    }
}

/// A packed note: key in bits 0..6, wave form from bit 6, volume in bits 9..12
/// and effect in bits 12..15.
#[derive(Debug, Clone, Copy, PartialEq, Eq, Structural)]
pub struct Pico8Note(pub u16);

/// The bits of a note with the given key, wave code, volume and effect code.
pub open spec fn note_bits(key: u8, wave: u8, volume: u8, effect: u8) -> u16 {
    let low = (key & 0x3f) as u16;
    let mid = (wave as u16) << 6u16;
    let vol = ((volume & 7) as u16) << 9u16;
    let eff = ((effect as u16) & 7) << 12u16;
    low | mid | vol | eff
}

/// The tracker key of a packed note.
pub open spec fn note_key(bits: u16) -> u8 {
    (bits & 0x3f) as u8
}

/// The wave code (three bits) of a packed note.
pub open spec fn note_wave_code(bits: u16) -> u8 {
    ((bits >> 6u16) & 7) as u8
}

/// The volume (0..=7) of a packed note.
pub open spec fn note_volume(bits: u16) -> u8 {
    ((bits >> 9u16) & 7) as u8
}

/// The effect code of a packed note.
pub open spec fn note_effect_code(bits: u16) -> u8 {
    ((bits >> 12u16) & 7) as u8
}

proof fn lemma_note_fields(key: u8, wave: u8, volume: u8, effect: u8)
    requires
        key <= 63,
        volume <= 7,
        effect <= 7,
    ensures
        note_key(note_bits(key, wave, volume, effect)) == key,
        wave <= 7 ==> note_wave_code(note_bits(key, wave, volume, effect)) == wave,
        wave <= 7 ==> note_volume(note_bits(key, wave, volume, effect)) == volume,
        wave <= 63 ==> note_effect_code(note_bits(key, wave, volume, effect)) == effect,
{
    assert(note_key(note_bits(key, wave, volume, effect)) == key) by (bit_vector)
        requires
            key <= 63,
    ;
    assert(wave <= 7 ==> note_wave_code(note_bits(key, wave, volume, effect)) == wave)
        by (bit_vector);
    assert(wave <= 7 ==> note_volume(note_bits(key, wave, volume, effect)) == volume)
        by (bit_vector)
        requires
            volume <= 7,
    ;
    assert(wave <= 63 ==> note_effect_code(note_bits(key, wave, volume, effect)) == effect)
        by (bit_vector)
        requires
            effect <= 7,
    ;
}

impl Pico8Note {
    /// Packs a note. The key is `pitch - 35`, saturating at 0.
    pub fn new(pitch: u8, wave: WaveForm, volume: u8, effect: Effect) -> (r: Pico8Note)
        requires
            volume <= 7,
            (if pitch >= PITCH_OFFSET { pitch - PITCH_OFFSET } else { 0 }) <= 63,
            wave_encodable(wave),
        ensures
            r.0 == note_bits(
                if pitch >= PITCH_OFFSET { (pitch - PITCH_OFFSET) as u8 } else { 0 },
                wave_code(wave) as u8,
                volume,
                effect_code(effect) as u8,
            ),
            note_key(r.0) == (if pitch >= PITCH_OFFSET { pitch - PITCH_OFFSET } else { 0 }),
            wave_code(wave) <= 63 ==> note_effect_code(r.0) == effect_code(effect),
            wave_code(wave) <= 7 ==> note_wave_code(r.0) == wave_code(wave),
            wave_code(wave) <= 7 ==> note_volume(r.0) == volume,
    {
        let pitch = pitch.saturating_sub(PITCH_OFFSET);
        let w = wave.code();
        let e = effect.code();
        proof {
            lemma_note_fields(pitch, w, volume, e);
        }
        let low = (pitch & 0x3f) as u16;
        let mid = (w as u16) << 6u16;
        let vol = ((volume & 7) as u16) << 9u16;
        let eff = ((e as u16) & 7) << 12u16;
        Pico8Note(low | mid | vol | eff)
    }

    /// The tracker key, 0..=63 (C-0 .. D#-5); key 33 is A-4.
    pub fn key(&self) -> (r: u8)
        ensures
            r == note_key(self.0),
            r <= 63,
    {
        let v = self.0;
        assert((v & 0x3f) as u8 <= 63) by (bit_vector);
        (v & 0x3f) as u8
    }

    /// The pitch of the note: its key plus 35.
    pub fn pitch(&self) -> (r: u8)
        ensures
            r == note_key(self.0) + PITCH_OFFSET,
    {
        self.key() + PITCH_OFFSET
    }

    /// The wave form of the note (three bits, so always a built-in).
    pub fn wave(&self) -> (r: WaveForm)
        ensures
            Some(r) == wave_of_code(note_wave_code(self.0)),
            wave_code(r) == note_wave_code(self.0),
    {
        let code = ((self.0 >> 6u16) & 7) as u8;
        let v = self.0;
        assert(((v >> 6u16) & 7) as u8 <= 7) by (bit_vector);
        match WaveForm::from_code(code) {
            Some(w) => w,
            None => WaveForm::Triangle,
        }
    }

    /// The volume of the note as a level 0..=7 (7 is full volume).
    pub fn volume_level(&self) -> (r: u8)
        ensures
            r == note_volume(self.0),
            r <= 7,
    {
        let v = self.0;
        assert(((v >> 9u16) & 7) as u8 <= 7) by (bit_vector);
        ((self.0 >> 9u16) & 7) as u8
    }

    /// The effect of the note.
    pub fn effect(&self) -> (r: Effect)
        ensures
            Some(r) == effect_of_code(note_effect_code(self.0)),
            effect_code(r) == note_effect_code(self.0),
    {
        let code = ((self.0 >> 12u16) & 7) as u8;
        let v = self.0;
        assert(((v >> 12u16) & 7) as u8 <= 7) by (bit_vector);
        match Effect::from_code(code) {
            Some(e) => e,
            None => Effect::NoEffect,
        }
    }
}

impl From<u16> for Pico8Note {
    fn from(value: u16) -> (r: Pico8Note) {
        Pico8Note(value)
    }
}

impl vstd::std_specs::convert::FromSpecImpl<u16> for Pico8Note {
    open spec fn obeys_from_spec() -> bool {
        true
    }

    open spec fn from_spec(v: u16) -> Pico8Note {
        Pico8Note(v)
    }
}

impl From<Pico8Note> for u16 {
    fn from(value: Pico8Note) -> (r: u16) {
        value.0
    }
}

impl vstd::std_specs::convert::FromSpecImpl<Pico8Note> for u16 {
    open spec fn obeys_from_spec() -> bool {
        true
    }

    open spec fn from_spec(v: Pico8Note) -> u16 {
        v.0
    }
}

impl Default for Pico8Note {
    fn default() -> (r: Pico8Note)
        ensures
            r.0 == note_bits(0, 0, 5, 0),
    {
        Pico8Note::new(32, WaveForm::Triangle, 5, Effect::NoEffect)
    }
}

/// The bits of a note give back its key, wave form, volume and effect, for every
/// built-in wave form.
pub proof fn lemma_note_roundtrip(key: u8, wave: WaveForm, volume: u8, effect: Effect)
    requires
        key <= 63,
        volume <= 7,
        !(wave is Custom),
    ensures
        ({
            let bits = note_bits(key, wave_code(wave) as u8, volume, effect_code(effect) as u8);
            &&& note_key(bits) == key
            &&& wave_of_code(note_wave_code(bits)) == Some(wave)
            &&& note_volume(bits) == volume
            &&& effect_of_code(note_effect_code(bits)) == Some(effect)
        }),
{
    lemma_note_fields(key, wave_code(wave) as u8, volume, effect_code(effect) as u8);
    lemma_wave_code_roundtrip(wave);
    lemma_effect_code_roundtrip(effect, 0);
}

} // verus!
