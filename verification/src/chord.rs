//! A chord: several noteheads sounding together under one written duration,
//! kept in staff order (octave, then letter, then accidental).

use crate::duration::Duration;
use crate::error::Error;
use crate::interval::Interval;
use crate::notehead::Notehead;
use crate::pitch::Pitch;
use vstd::prelude::*;

verus! {

/// Staff order on pitches: lower octaves first, then lower letters, then
/// lower accidentals.
pub open spec fn pitch_key_le(a: Pitch, b: Pitch) -> bool {
    ||| a.octave < b.octave
    ||| (a.octave == b.octave && a.pitch_class.diatonic_pitch_class.index_spec()
        < b.pitch_class.diatonic_pitch_class.index_spec())
    ||| (a.octave == b.octave && a.pitch_class.diatonic_pitch_class.index_spec()
        == b.pitch_class.diatonic_pitch_class.index_spec()
        && a.pitch_class.accidental.offset_spec() <= b.pitch_class.accidental.offset_spec())
}

/// Staff order is total.
proof fn lemma_pitch_key_total(a: Pitch, b: Pitch)
    ensures
        pitch_key_le(a, b) || pitch_key_le(b, a),
{
}

/// Staff order is transitive.
proof fn lemma_pitch_key_trans(a: Pitch, b: Pitch, c: Pitch)
    requires
        pitch_key_le(a, b),
        pitch_key_le(b, c),
    ensures
        pitch_key_le(a, c),
{
}

/// Whether a row of noteheads stands in staff order.
pub open spec fn noteheads_sorted(s: Seq<Notehead>) -> bool {
    forall|i: int, j: int|
        0 <= i < j < s.len() ==> pitch_key_le(
            #[trigger] s[i].written_pitch,
            #[trigger] s[j].written_pitch,
        )
}

/// Where a notehead lands when inserted into a row: after every notehead
/// at or below its pitch, before the rest.
pub open spec fn insert_sorted_spec(s: Seq<Notehead>, nh: Notehead) -> Seq<Notehead>
    decreases s.len(),
{
    if s.len() == 0 {
        seq![nh]
    } else if pitch_key_le(s[0].written_pitch, nh.written_pitch) {
        seq![s[0]] + insert_sorted_spec(s.drop_first(), nh)
    } else {
        seq![nh] + s
    }
}

/// The insertion point characterizes the inserted row.
proof fn lemma_insert_sorted_at(s: Seq<Notehead>, nh: Notehead, i: int)
    requires
        0 <= i <= s.len(),
        forall|j: int|
            0 <= j < i ==> pitch_key_le(#[trigger] s[j].written_pitch, nh.written_pitch),
        i < s.len() ==> !pitch_key_le(s[i].written_pitch, nh.written_pitch),
    ensures
        insert_sorted_spec(s, nh) =~= s.subrange(0, i) + seq![nh] + s.subrange(i, s.len() as int),
    decreases i,
{
    if i == 0 {
        if s.len() == 0 {
            assert(insert_sorted_spec(s, nh) =~= seq![nh]);
        }
    } else {
        assert(pitch_key_le(s[0].written_pitch, nh.written_pitch));
        lemma_insert_sorted_at(s.drop_first(), nh, i - 1);
        assert(s.drop_first().subrange(0, i - 1) =~= s.subrange(1, i));
        assert(s.drop_first().subrange(i - 1, s.drop_first().len() as int) =~= s.subrange(
            i,
            s.len() as int,
        ));
        assert(insert_sorted_spec(s, nh) =~= seq![s[0]] + insert_sorted_spec(s.drop_first(), nh));
        assert(seq![s[0]] + s.subrange(1, i) =~= s.subrange(0, i));
    }
}

/// The row of noteheads built by inserting each pitch of `ps` in turn into
/// staff order.
pub open spec fn chord_noteheads_spec(ps: Seq<Pitch>) -> Seq<Notehead>
    decreases ps.len(),
{
    if ps.len() == 0 {
        Seq::empty()
    } else {
        insert_sorted_spec(
            chord_noteheads_spec(ps.drop_last()),
            Notehead { written_pitch: ps.last(), accidental_display: None },
        )
    }
}

/// Inserts a notehead into a row kept in staff order.
fn insert_sorted(v: &mut Vec<Notehead>, nh: Notehead)
    ensures
        final(v)@ =~= insert_sorted_spec(old(v)@, nh),
        noteheads_sorted(old(v)@) ==> noteheads_sorted(final(v)@),
{
    let mut i: usize = 0;
    while i < v.len() && pitch_le(&v[i].written_pitch, &nh.written_pitch)
        invariant
            0 <= i <= v@.len(),
            forall|j: int|
                0 <= j < i ==> pitch_key_le(#[trigger] v@[j].written_pitch, nh.written_pitch),
        decreases v@.len() - i,
    {
        i = i + 1;
    }
    proof {
        lemma_insert_sorted_at(v@, nh, i as int);
    }
    let ghost pre = v@;
    v.insert(i, nh);
    proof {
        assert(v@ =~= pre.subrange(0, i as int) + seq![nh] + pre.subrange(
            i as int,
            pre.len() as int,
        ));
        if noteheads_sorted(pre) {
            assert forall|p: int, q: int| 0 <= p < q < v@.len() implies pitch_key_le(
                #[trigger] v@[p].written_pitch,
                #[trigger] v@[q].written_pitch,
            ) by {
                let n = i as int;
                if p < n && q == n {
                } else if p == n && q > n {
                    lemma_pitch_key_total(pre[n].written_pitch, nh.written_pitch);
                    if q - 1 > n {
                        lemma_pitch_key_trans(
                            nh.written_pitch,
                            pre[n].written_pitch,
                            pre[q - 1].written_pitch,
                        );
                    }
                } else {
                }
            }
        }
    }
}

/// Staff order on pitches, decided.
fn pitch_le(a: &Pitch, b: &Pitch) -> (r: bool)
    ensures
        r == pitch_key_le(*a, *b),
{
    if a.octave != b.octave {
        a.octave < b.octave
    } else {
        let ai = a.pitch_class.diatonic_pitch_class.index();
        let bi = b.pitch_class.diatonic_pitch_class.index();
        if ai != bi {
            ai < bi
        } else {
            a.pitch_class.accidental.quarter_tones() <= b.pitch_class.accidental.quarter_tones()
        }
    }
}

/// A chord.
#[derive(Clone, Debug, PartialEq, Eq)]
pub struct Chord {
    pub noteheads: Vec<Notehead>,
    pub written_duration: Duration,
}

impl Chord {
    /// A chord is sound when its duration is reduced and printable.
    pub open spec fn wf(self) -> bool {
        &&& self.written_duration.wf()
        &&& self.written_duration.is_printable_spec()
    }

    /// A chord of the given pitches, in staff order, or
    /// `UnprintableDuration` when one symbol cannot carry the duration.
    pub fn new(pitches: &[Pitch], written_duration: Duration) -> (r: Result<Self, Error>)
        requires
            written_duration.wf(),
        ensures
            written_duration.is_printable_spec() <==> r is Ok,
            !written_duration.is_printable_spec() ==> r == Err::<Chord, Error>(
                Error::UnprintableDuration(written_duration),
            ),
            r matches Ok(c) ==> {
                &&& c.wf()
                &&& c.written_duration == written_duration
                &&& c.noteheads@ == chord_noteheads_spec(pitches@)
                &&& noteheads_sorted(c.noteheads@)
            },
    {
        if written_duration.is_printable() {
            let mut noteheads: Vec<Notehead> = Vec::new();
            let mut i: usize = 0;
            proof {
                assert(pitches@.subrange(0, 0) =~= Seq::<Pitch>::empty());
            }
            while i < pitches.len()
                invariant
                    i <= pitches@.len(),
                    noteheads@ == chord_noteheads_spec(pitches@.subrange(0, i as int)),
                    noteheads_sorted(noteheads@),
                decreases pitches@.len() - i,
            {
                proof {
                    assert(pitches@.subrange(0, i + 1).drop_last() =~= pitches@.subrange(
                        0,
                        i as int,
                    ));
                    assert(pitches@.subrange(0, i + 1).last() == pitches@[i as int]);
                }
                insert_sorted(&mut noteheads, Notehead::new(pitches[i]));
                i = i + 1;
            }
            proof {
                assert(pitches@.subrange(0, pitches@.len() as int) =~= pitches@);
            }
            Ok(Self { noteheads, written_duration })
        } else {
            Err(Error::UnprintableDuration(written_duration))
        }
    }

    /// The written pitches, in staff order.
    pub fn written_pitches(&self) -> (r: Vec<Pitch>)
        ensures
            r@ =~= self.noteheads@.map_values(|n: Notehead| n.written_pitch),
    {
        let mut out: Vec<Pitch> = Vec::new();
        let mut i: usize = 0;
        while i < self.noteheads.len()
            invariant
                i <= self.noteheads@.len(),
                out@ =~= self.noteheads@.subrange(0, i as int).map_values(
                    |n: Notehead| n.written_pitch,
                ),
            decreases self.noteheads@.len() - i,
        {
            out.push(self.noteheads[i].written_pitch());
            proof {
                assert(self.noteheads@.subrange(0, i + 1).map_values(
                    |n: Notehead| n.written_pitch,
                ) =~= self.noteheads@.subrange(0, i as int).map_values(
                    |n: Notehead| n.written_pitch,
                ).push(self.noteheads@[i as int].written_pitch));
            }
            i = i + 1;
        }
        proof {
            assert(self.noteheads@.subrange(0, self.noteheads@.len() as int) =~= self.noteheads@);
        }
        out
    }

    /// Adds a pitch to the chord, keeping staff order.
    pub fn insert(&mut self, pitch: Pitch)
        ensures
            final(self).written_duration == old(self).written_duration,
            final(self).noteheads@ =~= insert_sorted_spec(
                old(self).noteheads@,
                Notehead { written_pitch: pitch, accidental_display: None },
            ),
            noteheads_sorted(old(self).noteheads@) ==> noteheads_sorted(final(self).noteheads@),
    {
        insert_sorted(&mut self.noteheads, Notehead::new(pitch));
    }

    /// Moves every notehead through `interval`; durations and display
    /// instructions stay.
    pub fn transpose(&mut self, interval: Interval)
        requires
            interval.wf(),
            7 * interval.octaves + 7 <= i32::MAX,
            forall|i: int|
                0 <= i < old(self).noteheads@.len() ==> -24 * 0x4000_0000 <= (#[trigger] old(self).noteheads@[i]).written_pitch.quarter_tones_spec()
                    + interval.quarter_tones_spec() <= 24 * 0x4000_0000,
        ensures
            final(self).written_duration == old(self).written_duration,
            final(self).noteheads@.len() == old(self).noteheads@.len(),
            forall|i: int|
                0 <= i < old(self).noteheads@.len() ==> (#[trigger] final(self).noteheads@[i]).written_pitch.quarter_tones_spec() == old(self).noteheads@[i].written_pitch.quarter_tones_spec()
                    + interval.quarter_tones_spec(),
            forall|i: int|
                0 <= i < old(self).noteheads@.len() ==> {
                    let spelled = crate::transpose::transpose_spelling(
                        old(self).noteheads@[i].written_pitch,
                        interval,
                    );
                    &&& (#[trigger] final(self).noteheads@[i]).written_pitch.pitch_class.diatonic_pitch_class.index_spec()
                        == spelled.0
                    &&& final(self).noteheads@[i].written_pitch.pitch_class.accidental.offset_spec()
                        == spelled.1
                    &&& final(self).noteheads@[i].written_pitch.octave == spelled.2
                },
    {
        let mut i: usize = 0;
        while i < self.noteheads.len()
            invariant
                i <= self.noteheads@.len(),
                self.noteheads@.len() == old(self).noteheads@.len(),
                self.written_duration == old(self).written_duration,
                interval.wf(),
                7 * interval.octaves + 7 <= i32::MAX,
                forall|j: int|
                    0 <= j < old(self).noteheads@.len() ==> -24 * 0x4000_0000 <= (#[trigger] old(self).noteheads@[j]).written_pitch.quarter_tones_spec()
                        + interval.quarter_tones_spec() <= 24 * 0x4000_0000,
                forall|j: int|
                    i <= j < self.noteheads@.len() ==> #[trigger] self.noteheads@[j] == old(self).noteheads@[j],
                forall|j: int|
                    0 <= j < i ==> (#[trigger] self.noteheads@[j]).written_pitch.quarter_tones_spec()
                        == old(self).noteheads@[j].written_pitch.quarter_tones_spec()
                        + interval.quarter_tones_spec(),
                forall|j: int|
                    0 <= j < i ==> {
                        let spelled = crate::transpose::transpose_spelling(
                            old(self).noteheads@[j].written_pitch,
                            interval,
                        );
                        &&& (#[trigger] self.noteheads@[j]).written_pitch.pitch_class.diatonic_pitch_class.index_spec()
                            == spelled.0
                        &&& self.noteheads@[j].written_pitch.pitch_class.accidental.offset_spec()
                            == spelled.1
                        &&& self.noteheads@[j].written_pitch.octave == spelled.2
                    },
            decreases self.noteheads@.len() - i,
        {
            let mut nh = self.noteheads[i];
            nh.transpose(interval);
            self.noteheads.set(i, nh);
            i = i + 1;
        }
    }
}

} // verus!
