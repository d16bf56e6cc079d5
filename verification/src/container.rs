//! The closed set of things a score container can hold, and the plain
//! sequential container.

use crate::chord::Chord;
use crate::note::Note;
use crate::rest::Rest;
use crate::score::{RhythmicStaff, Score, Staff, StaffGroup, Voice};
use crate::spacer::Spacer;
use crate::tuplet::Tuplet;
use vstd::prelude::*;

verus! {

/// A plain container: sequential contents with braces around them.
#[derive(Debug)]
pub struct Container {
    pub contents: Vec<Containable>,
}

impl Container {
    /// A container over the given contents.
    pub fn new(contents: Vec<Containable>) -> (r: Self)
        ensures
            r.contents@ == contents@,
    {
        Self { contents }
    }

    /// The container's contents.
    pub fn contents(&self) -> (r: &[Containable])
        ensures
            r@ == self.contents@,
    {
        self.contents.as_slice()
    }
}

/// Any element a container can hold: a leaf or a nested container.
#[derive(Debug)]
pub enum Containable {
    Chord(Chord),
    Note(Note),
    Rest(Rest),
    Spacer(Spacer),
    Container(Container),
    Tuplet(Tuplet),
    Voice(Voice),
    RhythmicStaff(RhythmicStaff),
    Staff(Staff),
    StaffGroup(StaffGroup),
    Score(Score),
}

/// The direct children of a containable, where it has any.
pub open spec fn children_of(c: Containable) -> Seq<Containable> {
    match c {
        Containable::Container(x) => x.contents@,
        Containable::Tuplet(x) => x.contents@,
        Containable::Voice(x) => x.contents@,
        Containable::RhythmicStaff(x) => x.contents@,
        Containable::Staff(x) => x.contents@,
        Containable::StaffGroup(x) => x.contents@,
        Containable::Score(x) => x.contents@,
        _ => Seq::empty(),
    }
}

/// The depth-first row of leaves below a containable: a leaf yields
/// itself, a container the leaves of its children, left to right.
pub open spec fn leaves_spec(c: Containable) -> Seq<Containable>
    decreases c, 1nat,
{
    if c.is_leaf_spec() {
        seq![c]
    } else {
        leaves_seq_spec(children_of(c))
    }
}

/// The depth-first row of leaves below a row of containables.
pub open spec fn leaves_seq_spec(s: Seq<Containable>) -> Seq<Containable>
    decreases s, 0nat,
{
    if s.len() == 0 {
        Seq::empty()
    } else {
        leaves_seq_spec(s.drop_last()) + leaves_spec(s.last())
    }
}

/// Whether two leaves carry the same music: equal for the plain leaves,
/// and equal notehead rows and durations for chords (whose rows live on
/// separate heap allocations after a copy).
pub open spec fn leaf_like(a: Containable, b: Containable) -> bool {
    match (a, b) {
        (Containable::Note(x), Containable::Note(y)) => x == y,
        (Containable::Rest(x), Containable::Rest(y)) => x == y,
        (Containable::Spacer(x), Containable::Spacer(y)) => x == y,
        (Containable::Chord(x), Containable::Chord(y)) => x.noteheads@ == y.noteheads@
            && x.written_duration == y.written_duration,
        _ => false,
    }
}

/// Whether two trees carry the same music: the same variants with the
/// same leaf values, names, ratios, and simultaneity, child for child.
/// (Plain equality is too strong across copies, since vectors and strings
/// live on separate heap allocations.)
pub open spec fn similar(a: Containable, b: Containable) -> bool
    decreases a, 1nat,
{
    match (a, b) {
        (Containable::Note(x), Containable::Note(y)) => x == y,
        (Containable::Rest(x), Containable::Rest(y)) => x == y,
        (Containable::Spacer(x), Containable::Spacer(y)) => x == y,
        (Containable::Chord(x), Containable::Chord(y)) => x.noteheads@ == y.noteheads@
            && x.written_duration == y.written_duration,
        (Containable::Container(x), Containable::Container(y)) => similar_seq(
            x.contents@,
            y.contents@,
        ),
        (Containable::Tuplet(x), Containable::Tuplet(y)) => x.multiplier == y.multiplier
            && similar_seq(x.contents@, y.contents@),
        (Containable::Voice(x), Containable::Voice(y)) => same_name(x.name, y.name)
            && x.simultaneous == y.simultaneous && similar_seq(x.contents@, y.contents@),
        (Containable::RhythmicStaff(x), Containable::RhythmicStaff(y)) => same_name(x.name, y.name)
            && x.simultaneous == y.simultaneous && similar_seq(x.contents@, y.contents@),
        (Containable::Staff(x), Containable::Staff(y)) => same_name(x.name, y.name)
            && x.simultaneous == y.simultaneous && similar_seq(x.contents@, y.contents@),
        (Containable::StaffGroup(x), Containable::StaffGroup(y)) => same_name(x.name, y.name)
            && similar_seq(x.contents@, y.contents@),
        (Containable::Score(x), Containable::Score(y)) => same_name(x.name, y.name)
            && similar_seq(x.contents@, y.contents@),
        _ => false,
    }
}

/// Whether two rows of trees carry the same music, member for member.
pub open spec fn similar_seq(a: Seq<Containable>, b: Seq<Containable>) -> bool
    decreases a, 0nat,
{
    a.len() == b.len() && (a.len() == 0 || (similar_seq(a.drop_last(), b.drop_last()) && similar(
        a.last(),
        b.last(),
    )))
}

/// Whether two optional names read the same.
pub open spec fn same_name(a: Option<String>, b: Option<String>) -> bool {
    match (a, b) {
        (Some(x), Some(y)) => x@ == y@,
        (None, None) => true,
        _ => false,
    }
}

impl Containable {
    /// Whether this element is a leaf: a chord, note, rest, or spacer.
    pub open spec fn is_leaf_spec(self) -> bool {
        self is Chord || self is Note || self is Spacer || self is Rest
    }

    /// Whether this element is a leaf: a chord, note, rest, or spacer.
    pub fn is_leaf(&self) -> (r: bool)
        ensures
            r == self.is_leaf_spec(),
    {
        matches!(
            self,
            Self::Chord(_) | Self::Note(_) | Self::Spacer(_) | Self::Rest(_),
        )
    }

    /// The direct contents: copies of the children for a container, and a
    /// copy of the element itself for a leaf.
    pub fn contents(&self) -> (r: Vec<Containable>)
        ensures
            self.is_leaf_spec() ==> r@.len() == 1 && r@[0].is_leaf_spec() && leaf_like(
                r@[0],
                *self,
            ),
            (*self is Note || *self is Rest || *self is Spacer) ==> r@[0] == *self,
            *self matches Containable::Chord(c) ==> (r@[0] matches Containable::Chord(rc)
                && rc.noteheads@ == c.noteheads@ && rc.written_duration == c.written_duration),
            !self.is_leaf_spec() ==> r@.len() == children_of(*self).len() && similar_seq(
                r@,
                children_of(*self),
            ),
    {
        match self {
            Self::Container(c) => clone_children(&c.contents),
            Self::Voice(c) => clone_children(&c.contents),
            Self::Staff(c) => clone_children(&c.contents),
            Self::StaffGroup(c) => clone_children(&c.contents),
            Self::Score(c) => clone_children(&c.contents),
            Self::Tuplet(c) => clone_children(&c.contents),
            Self::RhythmicStaff(c) => clone_children(&c.contents),
            Self::Chord(c) => {
                let copy = Chord { noteheads: c.noteheads.clone(), written_duration: c.written_duration };
                vec![Containable::Chord(copy)]
            },
            Self::Note(c) => vec![Containable::Note(*c)],
            Self::Rest(c) => vec![Containable::Rest(*c)],
            Self::Spacer(c) => vec![Containable::Spacer(*c)],
        }
    }

    /// Every leaf below this element in depth-first order, each carrying
    /// the same music as the corresponding leaf of the tree; a leaf yields
    /// itself.
    pub fn leaves(&self) -> (r: Vec<Containable>)
        ensures
            r@.len() == leaves_spec(*self).len(),
            forall|i: int|
                0 <= i < r@.len() ==> leaf_like(#[trigger] r@[i], leaves_spec(*self)[i]),
            forall|i: int| 0 <= i < r@.len() ==> (#[trigger] r@[i]).is_leaf_spec(),
        decreases *self,
    {
        if self.is_leaf() {
            proof {
                assert(leaves_spec(*self) =~= seq![*self]);
            }
            self.contents()
        } else {
            let cs: &Vec<Containable> = match self {
                Self::Container(c) => &c.contents,
                Self::Voice(c) => &c.contents,
                Self::Staff(c) => &c.contents,
                Self::StaffGroup(c) => &c.contents,
                Self::Score(c) => &c.contents,
                Self::Tuplet(c) => &c.contents,
                Self::RhythmicStaff(c) => &c.contents,
                _ => {
                    proof {
                        assert(false);
                    }
                    vstd::pervasive::unreached()
                },
            };
            proof {
                assert(cs@ == children_of(*self));
            }
            let mut out: Vec<Containable> = Vec::new();
            let mut i: usize = 0;
            proof {
                assert(cs@.subrange(0, 0) =~= Seq::<Containable>::empty());
            }
            while i < cs.len()
                invariant
                    i <= cs@.len(),
                    cs@ == children_of(*self),
                    !(*self).is_leaf_spec(),
                    out@.len() == leaves_seq_spec(cs@.subrange(0, i as int)).len(),
                    forall|k: int|
                        0 <= k < out@.len() ==> leaf_like(
                            #[trigger] out@[k],
                            leaves_seq_spec(cs@.subrange(0, i as int))[k],
                        ),
                    forall|k: int| 0 <= k < out@.len() ==> (#[trigger] out@[k]).is_leaf_spec(),
                decreases cs@.len() - i,
            {
                proof {
                    assert(decreases_to!(*self => cs@));
                    assert(decreases_to!(cs@ => cs@[i as int]));
                }
                let mut sub = cs[i].leaves();
                let ghost pre = out@;
                let ghost sub_view = sub@;
                let ghost done = leaves_seq_spec(cs@.subrange(0, i as int));
                out.append(&mut sub);
                proof {
                    assert(cs@.subrange(0, i + 1).drop_last() =~= cs@.subrange(0, i as int));
                    assert(cs@.subrange(0, i + 1).last() == cs@[i as int]);
                    assert(leaves_seq_spec(cs@.subrange(0, i + 1)) == done + leaves_spec(
                        cs@[i as int],
                    ));
                    assert(out@ == pre + sub_view);
                    assert forall|k: int| 0 <= k < out@.len() implies leaf_like(
                        #[trigger] out@[k],
                        leaves_seq_spec(cs@.subrange(0, i + 1))[k],
                    ) by {
                        if k < pre.len() {
                            assert(out@[k] == pre[k]);
                            assert(leaves_seq_spec(cs@.subrange(0, i + 1))[k] == done[k]);
                        } else {
                            assert(out@[k] == sub_view[k - pre.len()]);
                            assert(leaves_seq_spec(cs@.subrange(0, i + 1))[k] == leaves_spec(
                                cs@[i as int],
                            )[k - done.len()]);
                        }
                    }
                }
                i = i + 1;
            }
            proof {
                assert(cs@.subrange(0, cs@.len() as int) =~= cs@);
                assert(leaves_spec(*self) == leaves_seq_spec(children_of(*self)));
            }
            out
        }
    }
}

} // verus!

verus! {

impl Clone for Containable {
    /// A deep copy: a tree carrying the same music (new heap allocations
    /// throughout, so `similar` rather than equality).
    fn clone(&self) -> (r: Self)
        ensures
            similar(r, *self),
        decreases *self,
    {
        match self {
            Self::Chord(c) => Self::Chord(
                Chord { noteheads: c.noteheads.clone(), written_duration: c.written_duration },
            ),
            Self::Note(c) => Self::Note(*c),
            Self::Rest(c) => Self::Rest(*c),
            Self::Spacer(c) => Self::Spacer(*c),
            Self::Container(c) => Self::Container(
                Container { contents: clone_list(&c.contents) },
            ),
            Self::Tuplet(c) => Self::Tuplet(
                Tuplet { multiplier: c.multiplier, contents: clone_list(&c.contents) },
            ),
            Self::Voice(c) => Self::Voice(
                Voice {
                    contents: clone_list(&c.contents),
                    name: clone_name(&c.name),
                    simultaneous: c.simultaneous,
                },
            ),
            Self::RhythmicStaff(c) => Self::RhythmicStaff(
                RhythmicStaff {
                    contents: clone_list(&c.contents),
                    name: clone_name(&c.name),
                    simultaneous: c.simultaneous,
                },
            ),
            Self::Staff(c) => Self::Staff(
                Staff {
                    contents: clone_list(&c.contents),
                    name: clone_name(&c.name),
                    simultaneous: c.simultaneous,
                },
            ),
            Self::StaffGroup(c) => Self::StaffGroup(
                StaffGroup { contents: clone_list(&c.contents), name: clone_name(&c.name) },
            ),
            Self::Score(c) => Self::Score(
                Score { contents: clone_list(&c.contents), name: clone_name(&c.name) },
            ),
        }
    }
}

/// A copy of an optional name, view for view.
fn clone_name(name: &Option<String>) -> (r: Option<String>)
    ensures
        name is Some <==> r is Some,
        name matches Some(n) ==> (r matches Some(m) && n@ == m@),
{
    match name {
        Some(n) => Some(n.clone()),
        None => None,
    }
}

/// Deep copies of a row of containables, one by one.
fn clone_list(cs: &Vec<Containable>) -> (r: Vec<Containable>)
    ensures
        similar_seq(r@, cs@),
    decreases cs@,
{
    let mut out: Vec<Containable> = Vec::new();
    let mut i: usize = 0;
    proof {
        assert(similar_seq(out@, cs@.subrange(0, 0)));
    }
    while i < cs.len()
        invariant
            i <= cs@.len(),
            out@.len() == i,
            similar_seq(out@, cs@.subrange(0, i as int)),
        decreases cs@.len() - i,
    {
        proof {
            assert(decreases_to!(cs@ => cs@[i as int]));
        }
        let c = cs[i].clone();
        let ghost pre = out@;
        out.push(c);
        proof {
            assert(out@.drop_last() =~= pre);
            assert(cs@.subrange(0, i + 1).drop_last() =~= cs@.subrange(0, i as int));
            assert(cs@.subrange(0, i + 1).last() == cs@[i as int]);
            assert(similar_seq(out@, cs@.subrange(0, i + 1)));
        }
        i = i + 1;
    }
    proof {
        assert(cs@.subrange(0, cs@.len() as int) =~= cs@);
    }
    out
}

/// Deep copies of the children of a container.
fn clone_children(cs: &Vec<Containable>) -> (r: Vec<Containable>)
    ensures
        similar_seq(r@, cs@),
{
    clone_list(cs)
}

} // verus!


verus! {

impl From<Chord> for Containable {
    fn from(x: Chord) -> (r: Self) {
        Containable::Chord(x)
    }
}

impl vstd::std_specs::convert::FromSpecImpl<Chord> for Containable {
    open spec fn obeys_from_spec() -> bool {
        true
    }

    open spec fn from_spec(t: Chord) -> Self {
        Containable::Chord(t)
    }
}

impl From<Note> for Containable {
    fn from(x: Note) -> (r: Self) {
        Containable::Note(x)
    }
}

impl vstd::std_specs::convert::FromSpecImpl<Note> for Containable {
    open spec fn obeys_from_spec() -> bool {
        true
    }

    open spec fn from_spec(t: Note) -> Self {
        Containable::Note(t)
    }
}

impl From<Rest> for Containable {
    fn from(x: Rest) -> (r: Self) {
        Containable::Rest(x)
    }
}

impl vstd::std_specs::convert::FromSpecImpl<Rest> for Containable {
    open spec fn obeys_from_spec() -> bool {
        true
    }

    open spec fn from_spec(t: Rest) -> Self {
        Containable::Rest(t)
    }
}

impl From<Spacer> for Containable {
    fn from(x: Spacer) -> (r: Self) {
        Containable::Spacer(x)
    }
}

impl vstd::std_specs::convert::FromSpecImpl<Spacer> for Containable {
    open spec fn obeys_from_spec() -> bool {
        true
    }

    open spec fn from_spec(t: Spacer) -> Self {
        Containable::Spacer(t)
    }
}

impl From<Container> for Containable {
    fn from(x: Container) -> (r: Self) {
        Containable::Container(x)
    }
}

impl vstd::std_specs::convert::FromSpecImpl<Container> for Containable {
    open spec fn obeys_from_spec() -> bool {
        true
    }

    open spec fn from_spec(t: Container) -> Self {
        Containable::Container(t)
    }
}

impl From<Tuplet> for Containable {
    fn from(x: Tuplet) -> (r: Self) {
        Containable::Tuplet(x)
    }
}

impl vstd::std_specs::convert::FromSpecImpl<Tuplet> for Containable {
    open spec fn obeys_from_spec() -> bool {
        true
    }

    open spec fn from_spec(t: Tuplet) -> Self {
        Containable::Tuplet(t)
    }
}

impl From<Voice> for Containable {
    fn from(x: Voice) -> (r: Self) {
        Containable::Voice(x)
    }
}

impl vstd::std_specs::convert::FromSpecImpl<Voice> for Containable {
    open spec fn obeys_from_spec() -> bool {
        true
    }

    open spec fn from_spec(t: Voice) -> Self {
        Containable::Voice(t)
    }
}

impl From<RhythmicStaff> for Containable {
    fn from(x: RhythmicStaff) -> (r: Self) {
        Containable::RhythmicStaff(x)
    }
}

impl vstd::std_specs::convert::FromSpecImpl<RhythmicStaff> for Containable {
    open spec fn obeys_from_spec() -> bool {
        true
    }

    open spec fn from_spec(t: RhythmicStaff) -> Self {
        Containable::RhythmicStaff(t)
    }
}

impl From<Staff> for Containable {
    fn from(x: Staff) -> (r: Self) {
        Containable::Staff(x)
    }
}

impl vstd::std_specs::convert::FromSpecImpl<Staff> for Containable {
    open spec fn obeys_from_spec() -> bool {
        true
    }

    open spec fn from_spec(t: Staff) -> Self {
        Containable::Staff(t)
    }
}

impl From<StaffGroup> for Containable {
    fn from(x: StaffGroup) -> (r: Self) {
        Containable::StaffGroup(x)
    }
}

impl vstd::std_specs::convert::FromSpecImpl<StaffGroup> for Containable {
    open spec fn obeys_from_spec() -> bool {
        true
    }

    open spec fn from_spec(t: StaffGroup) -> Self {
        Containable::StaffGroup(t)
    }
}

impl From<Score> for Containable {
    fn from(x: Score) -> (r: Self) {
        Containable::Score(x)
    }
}

impl vstd::std_specs::convert::FromSpecImpl<Score> for Containable {
    open spec fn obeys_from_spec() -> bool {
        true
    }

    open spec fn from_spec(t: Score) -> Self {
        Containable::Score(t)
    }
}

} // verus!
