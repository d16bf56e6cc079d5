//! The pitch model: diatonic letters, accidentals in quarter-tone steps,
//! pitch classes, octaves, and fully qualified pitches.
//!
//! All pitch heights are measured in quarter tones (half semitones), so
//! that every value in the model is an integer: one semitone is two steps.

use crate::error::Error;
use vstd::prelude::*;

verus! {

/// A chromatic inflection of a diatonic letter, from double flat to double
/// sharp in quarter-tone steps.
#[derive(Clone, Copy, Debug, PartialEq, Eq, Structural)]
pub enum Accidental {
    DoubleFlat,
    ThreeQuarterFlat,
    Flat,
    QuarterFlat,
    Natural,
    QuarterSharp,
    Sharp,
    ThreeQuarterSharp,
    DoubleSharp,
}

impl Accidental {
    /// The inflection in quarter tones, from -4 (double flat) to 4.
    pub open spec fn offset_spec(self) -> int {
        match self {
            Accidental::DoubleFlat => -4,
            Accidental::ThreeQuarterFlat => -3,
            Accidental::Flat => -2,
            Accidental::QuarterFlat => -1,
            Accidental::Natural => 0,
            Accidental::QuarterSharp => 1,
            Accidental::Sharp => 2,
            Accidental::ThreeQuarterSharp => 3,
            Accidental::DoubleSharp => 4,
        }
    }

    /// The inflection in quarter tones, from -4 (double flat) to 4.
    pub fn quarter_tones(&self) -> (r: i32)
        ensures
            r == self.offset_spec(),
    {
        match self {
            Accidental::DoubleFlat => -4,
            Accidental::ThreeQuarterFlat => -3,
            Accidental::Flat => -2,
            Accidental::QuarterFlat => -1,
            Accidental::Natural => 0,
            Accidental::QuarterSharp => 1,
            Accidental::Sharp => 2,
            Accidental::ThreeQuarterSharp => 3,
            Accidental::DoubleSharp => 4,
        }
    }

    /// The accidental with the given quarter-tone offset, or
    /// `InvalidAccidentalSize` when the offset is outside [-4, 4].
    pub fn from_quarter_tones(q: i32) -> (r: Result<Self, Error>)
        ensures
            -4 <= q <= 4 ==> (r matches Ok(a) && a.offset_spec() == q),
            !(-4 <= q <= 4) ==> r == Err::<Accidental, Error>(Error::InvalidAccidentalSize(q)),
    {
        match q {
            -4 => Ok(Accidental::DoubleFlat),
            -3 => Ok(Accidental::ThreeQuarterFlat),
            -2 => Ok(Accidental::Flat),
            -1 => Ok(Accidental::QuarterFlat),
            0 => Ok(Accidental::Natural),
            1 => Ok(Accidental::QuarterSharp),
            2 => Ok(Accidental::Sharp),
            3 => Ok(Accidental::ThreeQuarterSharp),
            4 => Ok(Accidental::DoubleSharp),
            _ => Err(Error::InvalidAccidentalSize(q)),
        }
    }

    /// The LilyPond suffix that spells this accidental.
    pub open spec fn suffix_spec(self) -> Seq<char> {
        match self {
            Accidental::DoubleFlat => "ff"@,
            Accidental::ThreeQuarterFlat => "tqf"@,
            Accidental::Flat => "f"@,
            Accidental::QuarterFlat => "qf"@,
            Accidental::Natural => ""@,
            Accidental::QuarterSharp => "qs"@,
            Accidental::Sharp => "s"@,
            Accidental::ThreeQuarterSharp => "tqs"@,
            Accidental::DoubleSharp => "ss"@,
        }
    }

    /// The LilyPond suffix that spells this accidental.
    pub fn suffix(&self) -> (r: String)
        ensures
            r@ == self.suffix_spec(),
    {
        match self {
            Accidental::DoubleFlat => String::from_str("ff"),
            Accidental::ThreeQuarterFlat => String::from_str("tqf"),
            Accidental::Flat => String::from_str("f"),
            Accidental::QuarterFlat => String::from_str("qf"),
            Accidental::Natural => String::from_str(""),
            Accidental::QuarterSharp => String::from_str("qs"),
            Accidental::Sharp => String::from_str("s"),
            Accidental::ThreeQuarterSharp => String::from_str("tqs"),
            Accidental::DoubleSharp => String::from_str("ss"),
        }
    }
}

/// One of the seven diatonic letters.
#[derive(Clone, Copy, Debug, PartialEq, Eq, Structural)]
pub enum DiatonicPitchClass {
    C,
    D,
    E,
    F,
    G,
    A,
    B,
}

impl DiatonicPitchClass {
    /// The letter's position in the C-to-B cycle, from 0 to 6.
    pub open spec fn index_spec(self) -> int {
        match self {
            DiatonicPitchClass::C => 0,
            DiatonicPitchClass::D => 1,
            DiatonicPitchClass::E => 2,
            DiatonicPitchClass::F => 3,
            DiatonicPitchClass::G => 4,
            DiatonicPitchClass::A => 5,
            DiatonicPitchClass::B => 6,
        }
    }

    /// The letter's natural height in semitones above C: the uneven steps
    /// of the diatonic scale.
    pub open spec fn natural_semitones_spec(self) -> int {
        match self {
            DiatonicPitchClass::C => 0,
            DiatonicPitchClass::D => 2,
            DiatonicPitchClass::E => 4,
            DiatonicPitchClass::F => 5,
            DiatonicPitchClass::G => 7,
            DiatonicPitchClass::A => 9,
            DiatonicPitchClass::B => 11,
        }
    }

    /// The letter's position in the C-to-B cycle, from 0 to 6.
    pub fn index(&self) -> (r: i32)
        ensures
            r == self.index_spec(),
    {
        match self {
            DiatonicPitchClass::C => 0,
            DiatonicPitchClass::D => 1,
            DiatonicPitchClass::E => 2,
            DiatonicPitchClass::F => 3,
            DiatonicPitchClass::G => 4,
            DiatonicPitchClass::A => 5,
            DiatonicPitchClass::B => 6,
        }
    }

    /// The letter's natural height in semitones above C.
    pub fn natural_semitones(&self) -> (r: i32)
        ensures
            r == self.natural_semitones_spec(),
    {
        match self {
            DiatonicPitchClass::C => 0,
            DiatonicPitchClass::D => 2,
            DiatonicPitchClass::E => 4,
            DiatonicPitchClass::F => 5,
            DiatonicPitchClass::G => 7,
            DiatonicPitchClass::A => 9,
            DiatonicPitchClass::B => 11,
        }
    }

    /// The letter at the given cycle position.
    pub fn from_index(i: i32) -> (r: Self)
        requires
            0 <= i <= 6,
        ensures
            r.index_spec() == i,
    {
        match i {
            0 => DiatonicPitchClass::C,
            1 => DiatonicPitchClass::D,
            2 => DiatonicPitchClass::E,
            3 => DiatonicPitchClass::F,
            4 => DiatonicPitchClass::G,
            5 => DiatonicPitchClass::A,
            _ => DiatonicPitchClass::B,
        }
    }

    /// The letter reached by walking `n` diatonic steps around the cycle,
    /// in either direction.
    pub fn shift(self, n: i64) -> (r: Self)
        requires
            -0x4000_0000_0000_0000 <= n <= 0x4000_0000_0000_0000,
        ensures
            r.index_spec() == (self.index_spec() + n as int) % 7,
    {
        let r7: i64 = if n >= 0 {
            n % 7
        } else {
            let k = (-n) % 7;
            if k == 0 {
                0
            } else {
                7 - k
            }
        };
        proof {
            if n < 0 {
                vstd::arithmetic::div_mod::lemma_fundamental_div_mod(n as int, 7);
                let q = n as int / 7;
                let rr = n as int % 7;
                if rr == 0 {
                    vstd::arithmetic::div_mod::lemma_fundamental_div_mod_converse(
                        -(n as int),
                        7,
                        -q,
                        0,
                    );
                } else {
                    vstd::arithmetic::div_mod::lemma_fundamental_div_mod_converse(
                        -(n as int),
                        7,
                        -q - 1,
                        7 - rr,
                    );
                }
            }
            assert(r7 == (n as int) % 7);
        }
        let idx: i64 = ((self.index() as i64) + r7) % 7;
        proof {
            vstd::arithmetic::div_mod::lemma_add_mod_noop(self.index_spec(), n as int, 7);
            vstd::arithmetic::div_mod::lemma_small_mod(self.index_spec() as nat, 7);
            assert(idx == (self.index_spec() + n as int) % 7);
        }
        Self::from_index(idx as i32)
    }

    /// The next letter up the cycle.
    pub fn next(self) -> (r: Self)
        ensures
            r.index_spec() == (self.index_spec() + 1) % 7,
    {
        self.shift(1)
    }

    /// The previous letter down the cycle.
    pub fn prev(self) -> (r: Self)
        ensures
            r.index_spec() == (self.index_spec() - 1) % 7,
    {
        self.shift(-1)
    }

    /// The lowercase letter that names this pitch class.
    pub open spec fn letter_spec(self) -> Seq<char> {
        match self {
            DiatonicPitchClass::C => "c"@,
            DiatonicPitchClass::D => "d"@,
            DiatonicPitchClass::E => "e"@,
            DiatonicPitchClass::F => "f"@,
            DiatonicPitchClass::G => "g"@,
            DiatonicPitchClass::A => "a"@,
            DiatonicPitchClass::B => "b"@,
        }
    }

    /// The lowercase letter that names this pitch class.
    pub fn letter(&self) -> (r: String)
        ensures
            r@ == self.letter_spec(),
    {
        match self {
            DiatonicPitchClass::C => String::from_str("c"),
            DiatonicPitchClass::D => String::from_str("d"),
            DiatonicPitchClass::E => String::from_str("e"),
            DiatonicPitchClass::F => String::from_str("f"),
            DiatonicPitchClass::G => String::from_str("g"),
            DiatonicPitchClass::A => String::from_str("a"),
            DiatonicPitchClass::B => String::from_str("b"),
        }
    }
}

/// A diatonic letter with its accidental.
#[derive(Clone, Copy, Debug, PartialEq, Eq, Structural)]
pub struct PitchClass {
    pub diatonic_pitch_class: DiatonicPitchClass,
    pub accidental: Accidental,
}

impl PitchClass {
    /// Pairs a letter with an accidental.
    pub fn new(diatonic_pitch_class: DiatonicPitchClass, accidental: Accidental) -> (r: Self)
        ensures
            r.diatonic_pitch_class == diatonic_pitch_class,
            r.accidental == accidental,
    {
        Self { diatonic_pitch_class, accidental }
    }

    /// The pair (letter, accidental).
    pub fn to_pair(&self) -> (r: (DiatonicPitchClass, Accidental))
        ensures
            r.0 == self.diatonic_pitch_class,
            r.1 == self.accidental,
    {
        (self.diatonic_pitch_class, self.accidental)
    }

    /// The letter.
    pub fn diatonic_pitch_class(self) -> (r: DiatonicPitchClass)
        ensures
            r == self.diatonic_pitch_class,
    {
        self.diatonic_pitch_class
    }

    /// The letter's position in the C-to-B cycle, from 0 to 6.
    pub fn diatonic_pitch_class_index(&self) -> (r: i32)
        ensures
            r == self.diatonic_pitch_class.index_spec(),
    {
        self.diatonic_pitch_class.index()
    }

    /// The height in quarter tones above C, normalized into [0, 24).
    pub open spec fn quarter_tones_spec(self) -> int {
        let q = 2 * self.diatonic_pitch_class.natural_semitones_spec()
            + self.accidental.offset_spec();
        if q < 0 {
            q + 24
        } else if q >= 24 {
            q - 24
        } else {
            q
        }
    }

    /// The height in quarter tones above C, normalized into [0, 24).
    pub fn quarter_tones(&self) -> (r: i32)
        ensures
            r == self.quarter_tones_spec(),
    {
        let q = 2 * self.diatonic_pitch_class.natural_semitones() + self.accidental.quarter_tones();
        if q < 0 {
            q + 24
        } else if q >= 24 {
            q - 24
        } else {
            q
        }
    }
}

/// An octave number; octave 4 holds middle C.
#[derive(Clone, Copy, Debug, PartialEq, Eq, Structural)]
pub struct Octave {
    pub octave: i32,
}

impl Octave {
    /// Wraps an octave number.
    pub fn new(octave: i32) -> (r: Self)
        ensures
            r.octave == octave,
    {
        Self { octave }
    }
}

impl Default for Octave {
    /// The reference octave, which holds middle C.
    fn default() -> (r: Self)
        ensures
            r.octave == 4,
    {
        Self { octave: 4 }
    }
}

/// A fully qualified pitch: a pitch class at an octave.
#[derive(Clone, Copy, Debug, PartialEq, Eq, Structural)]
pub struct Pitch {
    pub pitch_class: PitchClass,
    pub octave: i32,
}

impl Pitch {
    /// Places a pitch class at an octave.
    pub fn new(pitch_class: PitchClass, octave: i32) -> (r: Self)
        ensures
            r.pitch_class == pitch_class,
            r.octave == octave,
    {
        Self { pitch_class, octave }
    }

    /// The absolute written height in quarter tones: the letter's natural
    /// height plus the accidental, plus 24 quarter tones for every octave
    /// away from octave 4 (nothing is normalized, so a C flat sits a
    /// semitone below its octave's C).
    pub open spec fn quarter_tones_spec(self) -> int {
        2 * self.pitch_class.diatonic_pitch_class.natural_semitones_spec()
            + self.pitch_class.accidental.offset_spec() + 24 * (self.octave - 4)
    }

    /// The absolute written height in quarter tones.
    pub fn quarter_tones(&self) -> (r: i64)
        ensures
            r == self.quarter_tones_spec(),
    {
        proof {
            assert(24 * ((self.octave - 4) as i64) == 24 * (self.octave as int - 4))
                by (nonlinear_arith)
                requires
                    -0x8000_0000 - 4 <= self.octave as int - 4 <= 0x7fff_ffff,
            ;
        }
        2 * (self.pitch_class.diatonic_pitch_class.natural_semitones() as i64) + (
        self.pitch_class.accidental.quarter_tones() as i64) + 24i64 * ((self.octave as i64) - 4)
    }
}

} // verus!
