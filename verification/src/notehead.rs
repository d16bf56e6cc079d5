//! A notehead: a written pitch together with an optional instruction to
//! force or parenthesize its accidental.

use crate::interval::Interval;
use crate::pitch::Pitch;
use vstd::prelude::*;

verus! {

/// Whether an accidental is forced into print (`!`) or printed as a
/// cautionary reminder (`?`).
#[derive(Clone, Copy, Debug, PartialEq, Eq, Structural)]
pub enum AccidentalDisplay {
    Cautionary,
    Forced,
}

impl AccidentalDisplay {
    /// The mark this display instruction appends to a pitch.
    pub open spec fn mark_spec(self) -> Seq<char> {
        match self {
            AccidentalDisplay::Cautionary => "?"@,
            AccidentalDisplay::Forced => "!"@,
        }
    }

    /// The mark this display instruction appends to a pitch.
    pub fn mark(self) -> (r: String)
        ensures
            r@ == self.mark_spec(),
    {
        match self {
            AccidentalDisplay::Cautionary => String::from_str("?"),
            AccidentalDisplay::Forced => String::from_str("!"),
        }
    }
}

/// A written pitch with its accidental-display instruction.
#[derive(Clone, Copy, Debug, PartialEq, Eq, Structural)]
pub struct Notehead {
    pub written_pitch: Pitch,
    pub accidental_display: Option<AccidentalDisplay>,
}

impl Notehead {
    /// A notehead for the given pitch, with no display instruction.
    pub fn new(written_pitch: Pitch) -> (r: Self)
        ensures
            r.written_pitch == written_pitch,
            r.accidental_display is None,
    {
        Self { written_pitch, accidental_display: None }
    }

    /// Moves the written pitch through `interval`; the display instruction
    /// stays.
    pub fn transpose(&mut self, interval: Interval)
        requires
            interval.wf(),
            7 * interval.octaves + 7 <= i32::MAX,
            -24 * 0x4000_0000 <= old(self).written_pitch.quarter_tones_spec()
                + interval.quarter_tones_spec() <= 24 * 0x4000_0000,
        ensures
            final(self).accidental_display == old(self).accidental_display,
            final(self).written_pitch.quarter_tones_spec() == old(
                self,
            ).written_pitch.quarter_tones_spec() + interval.quarter_tones_spec(),
            -4 <= crate::transpose::transpose_residual(old(self).written_pitch, interval) <= 4
                ==> {
                &&& final(self).written_pitch.pitch_class.diatonic_pitch_class.index_spec()
                    == crate::transpose::transpose_letter_index(old(self).written_pitch, interval)
                &&& final(self).written_pitch.pitch_class.accidental.offset_spec()
                    == crate::transpose::transpose_residual(old(self).written_pitch, interval)
            },
            ({
                let spelled = crate::transpose::transpose_spelling(
                    old(self).written_pitch,
                    interval,
                );
                &&& final(self).written_pitch.pitch_class.diatonic_pitch_class.index_spec()
                    == spelled.0
                &&& final(self).written_pitch.pitch_class.accidental.offset_spec() == spelled.1
                &&& final(self).written_pitch.octave == spelled.2
            }),
    {
        self.written_pitch = self.written_pitch.transpose(interval);
    }

    /// The notehead with its accidental forced into print.
    pub fn forced(self) -> (r: Self)
        ensures
            r.written_pitch == self.written_pitch,
            r.accidental_display == Some(AccidentalDisplay::Forced),
    {
        Self { accidental_display: Some(AccidentalDisplay::Forced), ..self }
    }

    /// The notehead with its accidental printed as a cautionary.
    pub fn cautionary(self) -> (r: Self)
        ensures
            r.written_pitch == self.written_pitch,
            r.accidental_display == Some(AccidentalDisplay::Cautionary),
    {
        Self { accidental_display: Some(AccidentalDisplay::Cautionary), ..self }
    }

    /// The notehead with no display instruction.
    pub fn neutral(self) -> (r: Self)
        ensures
            r.written_pitch == self.written_pitch,
            r.accidental_display is None,
    {
        Self { accidental_display: None, ..self }
    }

    /// The written pitch.
    pub fn written_pitch(self) -> (r: Pitch)
        ensures
            r == self.written_pitch,
    {
        self.written_pitch
    }
}

} // verus!
