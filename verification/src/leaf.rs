//! The capability every leaf shares: it has a written duration and can be
//! recast as any other kind of leaf with the same duration.

use crate::chord::{chord_noteheads_spec, insert_sorted_spec, Chord};
use crate::duration::Duration;
use crate::note::Note;
use crate::notehead::Notehead;
use crate::pitch::{Accidental, DiatonicPitchClass, Pitch, PitchClass};
use crate::rest::Rest;
use crate::spacer::Spacer;
use vstd::prelude::*;

verus! {

/// A leaf of the score tree: one sounding (or silent) event.
pub trait Leaf {
    /// When the leaf is sound: its duration is reduced and printable.
    spec fn leaf_wf(&self) -> bool;

    /// The leaf's written duration, as a specification.
    spec fn duration_spec(&self) -> Duration;

    /// The leaf's written duration.
    fn written_duration(&self) -> (d: Duration)
        requires
            self.leaf_wf(),
        ensures
            d == self.duration_spec(),
            d.wf(),
            d.is_printable_spec(),
    ;

    /// The leaf recast as a note of the same duration.
    fn to_note(&self) -> (n: Note)
        requires
            self.leaf_wf(),
        ensures
            n.wf(),
            n.written_duration == self.duration_spec(),
    ;

    /// The leaf recast as a rest of the same duration.
    fn to_rest(&self) -> (n: Rest)
        requires
            self.leaf_wf(),
        ensures
            n.wf(),
            n.written_duration == self.duration_spec(),
    ;

    /// The leaf recast as a chord of the same duration.
    fn to_chord(&self) -> (n: Chord)
        requires
            self.leaf_wf(),
        ensures
            n.wf(),
            n.written_duration == self.duration_spec(),
    ;

    /// The leaf recast as a spacer of the same duration.
    fn to_spacer(&self) -> (n: Spacer)
        requires
            self.leaf_wf(),
        ensures
            n.wf(),
            n.written_duration == self.duration_spec(),
    ;
}

/// Middle C, the pitch a pitchless leaf turns into a note on.
pub open spec fn middle_c_spec() -> Pitch {
    Pitch {
        pitch_class: PitchClass {
            diatonic_pitch_class: DiatonicPitchClass::C,
            accidental: Accidental::Natural,
        },
        octave: 4,
    }
}

/// Middle C, the pitch a pitchless leaf turns into a note on.
fn middle_c() -> (r: Pitch)
    ensures
        r == middle_c_spec(),
{
    Pitch::new(PitchClass::new(DiatonicPitchClass::C, Accidental::Natural), 4)
}

/// A chord built over one pitch holds exactly the one plain notehead.
proof fn lemma_singleton_chord(ps: Seq<Pitch>, p: Pitch)
    requires
        ps =~= seq![p],
    ensures
        chord_noteheads_spec(ps) =~= seq![
            Notehead { written_pitch: p, accidental_display: None },
        ],
{
    let nh = Notehead { written_pitch: p, accidental_display: None };
    assert(ps.drop_last() =~= Seq::<Pitch>::empty());
    assert(ps.last() == p);
    assert(chord_noteheads_spec(ps.drop_last()) =~= Seq::<Notehead>::empty());
    assert(insert_sorted_spec(Seq::<Notehead>::empty(), nh) =~= seq![nh]);
}

impl Leaf for Note {
    open spec fn leaf_wf(&self) -> bool {
        self.wf()
    }

    open spec fn duration_spec(&self) -> Duration {
        self.written_duration
    }

    fn written_duration(&self) -> (d: Duration) {
        self.written_duration
    }

    /// A note turned into a note is itself.
    fn to_note(&self) -> (n: Note)
        ensures
            n == *self,
    {
        *self
    }

    fn to_rest(&self) -> (n: Rest) {
        match Rest::new(self.written_duration) {
            Ok(r) => r,
            Err(_) => {
                proof {
                    assert(false);
                }
                vstd::pervasive::unreached()
            },
        }
    }

    /// The chord holds exactly this note's pitch, with no display mark.
    fn to_chord(&self) -> (n: Chord)
        ensures
            n.noteheads@ =~= seq![
                Notehead {
                    written_pitch: self.notehead.written_pitch,
                    accidental_display: None,
                },
            ],
    {
        let pitches = vec![self.written_pitch()];
        proof {
            lemma_singleton_chord(pitches@, self.notehead.written_pitch);
        }
        match Chord::new(pitches.as_slice(), self.written_duration) {
            Ok(c) => c,
            Err(_) => {
                proof {
                    assert(false);
                }
                vstd::pervasive::unreached()
            },
        }
    }

    fn to_spacer(&self) -> (n: Spacer) {
        match Spacer::new(self.written_duration) {
            Ok(s) => s,
            Err(_) => {
                proof {
                    assert(false);
                }
                vstd::pervasive::unreached()
            },
        }
    }
}

impl Leaf for Rest {
    open spec fn leaf_wf(&self) -> bool {
        self.wf()
    }

    open spec fn duration_spec(&self) -> Duration {
        self.written_duration
    }

    fn written_duration(&self) -> (d: Duration) {
        self.written_duration
    }

    /// The note lands on middle C, with no display mark.
    fn to_note(&self) -> (n: Note)
        ensures
            n.notehead.written_pitch == middle_c_spec(),
            n.notehead.accidental_display is None,
    {
        match Note::new(middle_c(), self.written_duration) {
            Ok(r) => r,
            Err(_) => {
                proof {
                    assert(false);
                }
                vstd::pervasive::unreached()
            },
        }
    }

    /// A rest turned into a rest is itself.
    fn to_rest(&self) -> (n: Rest)
        ensures
            n == *self,
    {
        *self
    }

    /// The chord holds exactly one plain notehead on middle C.
    fn to_chord(&self) -> (n: Chord)
        ensures
            n.noteheads@ =~= seq![
                Notehead { written_pitch: middle_c_spec(), accidental_display: None },
            ],
    {
        let pitches = vec![middle_c()];
        proof {
            lemma_singleton_chord(pitches@, middle_c_spec());
        }
        match Chord::new(pitches.as_slice(), self.written_duration) {
            Ok(c) => c,
            Err(_) => {
                proof {
                    assert(false);
                }
                vstd::pervasive::unreached()
            },
        }
    }

    fn to_spacer(&self) -> (n: Spacer) {
        match Spacer::new(self.written_duration) {
            Ok(s) => s,
            Err(_) => {
                proof {
                    assert(false);
                }
                vstd::pervasive::unreached()
            },
        }
    }
}

impl Leaf for Spacer {
    open spec fn leaf_wf(&self) -> bool {
        self.wf()
    }

    open spec fn duration_spec(&self) -> Duration {
        self.written_duration
    }

    fn written_duration(&self) -> (d: Duration) {
        self.written_duration
    }

    /// The note lands on middle C, with no display mark.
    fn to_note(&self) -> (n: Note)
        ensures
            n.notehead.written_pitch == middle_c_spec(),
            n.notehead.accidental_display is None,
    {
        match Note::new(middle_c(), self.written_duration) {
            Ok(r) => r,
            Err(_) => {
                proof {
                    assert(false);
                }
                vstd::pervasive::unreached()
            },
        }
    }

    fn to_rest(&self) -> (n: Rest) {
        match Rest::new(self.written_duration) {
            Ok(r) => r,
            Err(_) => {
                proof {
                    assert(false);
                }
                vstd::pervasive::unreached()
            },
        }
    }

    /// The chord holds exactly one plain notehead on middle C.
    fn to_chord(&self) -> (n: Chord)
        ensures
            n.noteheads@ =~= seq![
                Notehead { written_pitch: middle_c_spec(), accidental_display: None },
            ],
    {
        let pitches = vec![middle_c()];
        proof {
            lemma_singleton_chord(pitches@, middle_c_spec());
        }
        match Chord::new(pitches.as_slice(), self.written_duration) {
            Ok(c) => c,
            Err(_) => {
                proof {
                    assert(false);
                }
                vstd::pervasive::unreached()
            },
        }
    }

    /// A spacer turned into a spacer is itself.
    fn to_spacer(&self) -> (n: Spacer)
        ensures
            n == *self,
    {
        *self
    }
}

/// Pushes exact copies of the noteheads into a fresh row.
fn copy_noteheads(v: &Vec<Notehead>) -> (r: Vec<Notehead>)
    ensures
        r@ == v@,
{
    let mut out: Vec<Notehead> = Vec::new();
    let mut i: usize = 0;
    while i < v.len()
        invariant
            i <= v@.len(),
            out@ =~= v@.subrange(0, i as int),
        decreases v@.len() - i,
    {
        out.push(v[i]);
        i = i + 1;
    }
    proof {
        assert(v@.subrange(0, v@.len() as int) =~= v@);
    }
    out
}

impl Leaf for Chord {
    /// A chord leaf must also hold at least one notehead, so that it has a
    /// first pitch to become a note on.
    open spec fn leaf_wf(&self) -> bool {
        self.wf() && self.noteheads@.len() >= 1
    }

    open spec fn duration_spec(&self) -> Duration {
        self.written_duration
    }

    fn written_duration(&self) -> (d: Duration) {
        self.written_duration
    }

    /// The note lands on the chord's lowest notehead's pitch, with no
    /// display mark.
    fn to_note(&self) -> (n: Note)
        ensures
            n.notehead.written_pitch == self.noteheads@[0].written_pitch,
            n.notehead.accidental_display is None,
    {
        match Note::new(self.noteheads[0].written_pitch(), self.written_duration) {
            Ok(r) => r,
            Err(_) => {
                proof {
                    assert(false);
                }
                vstd::pervasive::unreached()
            },
        }
    }

    fn to_rest(&self) -> (n: Rest) {
        match Rest::new(self.written_duration) {
            Ok(r) => r,
            Err(_) => {
                proof {
                    assert(false);
                }
                vstd::pervasive::unreached()
            },
        }
    }

    /// A chord turned into a chord keeps its noteheads, mark for mark.
    fn to_chord(&self) -> (n: Chord)
        ensures
            n.noteheads@ == self.noteheads@,
    {
        Chord { noteheads: copy_noteheads(&self.noteheads), written_duration: self.written_duration }
    }

    fn to_spacer(&self) -> (n: Spacer) {
        match Spacer::new(self.written_duration) {
            Ok(s) => s,
            Err(_) => {
                proof {
                    assert(false);
                }
                vstd::pervasive::unreached()
            },
        }
    }
}

} // verus!
