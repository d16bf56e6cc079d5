//! A note: one notehead with a written duration that a single symbol can
//! carry.

use crate::duration::Duration;
use crate::error::Error;
use crate::interval::Interval;
use crate::notehead::Notehead;
use crate::pitch::Pitch;
use vstd::prelude::*;

verus! {

/// A single pitched note.
#[derive(Clone, Copy, Debug, PartialEq, Eq, Structural)]
pub struct Note {
    pub notehead: Notehead,
    pub written_duration: Duration,
}

impl Note {
    /// A note is sound when its duration is reduced and printable.
    pub open spec fn wf(self) -> bool {
        &&& self.written_duration.wf()
        &&& self.written_duration.is_printable_spec()
    }

    /// A note of the given pitch and duration, or `UnprintableDuration`
    /// when one notehead cannot carry the duration.
    pub fn new(written_pitch: Pitch, written_duration: Duration) -> (r: Result<Self, Error>)
        requires
            written_duration.wf(),
        ensures
            written_duration.is_printable_spec() <==> r is Ok,
            !written_duration.is_printable_spec() ==> r == Err::<Note, Error>(
                Error::UnprintableDuration(written_duration),
            ),
            r matches Ok(n) ==> {
                &&& n.wf()
                &&& n.notehead.written_pitch == written_pitch
                &&& n.notehead.accidental_display is None
                &&& n.written_duration == written_duration
            },
    {
        if written_duration.is_printable() {
            Ok(Self { notehead: Notehead::new(written_pitch), written_duration })
        } else {
            Err(Error::UnprintableDuration(written_duration))
        }
    }

    /// The written pitch.
    pub fn written_pitch(&self) -> (r: Pitch)
        ensures
            r == self.notehead.written_pitch,
    {
        self.notehead.written_pitch()
    }

    /// Moves the note's pitch through `interval`; duration and display
    /// instruction stay.
    pub fn transpose(&mut self, interval: Interval)
        requires
            interval.wf(),
            7 * interval.octaves + 7 <= i32::MAX,
            -24 * 0x4000_0000 <= old(self).notehead.written_pitch.quarter_tones_spec()
                + interval.quarter_tones_spec() <= 24 * 0x4000_0000,
        ensures
            final(self).written_duration == old(self).written_duration,
            final(self).notehead.accidental_display == old(self).notehead.accidental_display,
            final(self).notehead.written_pitch.quarter_tones_spec() == old(
                self,
            ).notehead.written_pitch.quarter_tones_spec() + interval.quarter_tones_spec(),
            ({
                let spelled = crate::transpose::transpose_spelling(
                    old(self).notehead.written_pitch,
                    interval,
                );
                &&& final(self).notehead.written_pitch.pitch_class.diatonic_pitch_class.index_spec()
                    == spelled.0
                &&& final(self).notehead.written_pitch.pitch_class.accidental.offset_spec()
                    == spelled.1
                &&& final(self).notehead.written_pitch.octave == spelled.2
            }),
    {
        self.notehead.transpose(interval);
    }
}

} // verus!
