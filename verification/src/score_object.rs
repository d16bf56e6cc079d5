//! A single tagged-union view of every score element, with uniform
//! accessors for contents, names, contexts, and simultaneity.

use crate::duration::Duration;
use crate::error::Error;
use crate::multiplier::Multiplier;
use crate::pitch::Pitch;
use vstd::prelude::*;

verus! {

/// The printed kind of a staff group.
#[derive(Clone, Copy, Debug, PartialEq, Eq, Structural)]
pub enum StaffGroupContext {
    StaffGroup,
    ChoirStaff,
    GrandStaff,
    PianoStaff,
}

/// The printed kind of a staff.
#[derive(Clone, Copy, Debug, PartialEq, Eq, Structural)]
pub enum StaffContext {
    Staff,
    RhythmicStaff,
    TabStaff,
    DrumStaff,
    VaticanaStaff,
    MensuralStaff,
}

/// The printed kind of a voice.
#[derive(Clone, Copy, Debug, PartialEq, Eq, Structural)]
pub enum VoiceContext {
    Voice,
    VaticanaVoice,
    MensuralVoice,
    Lyrics,
    DrumVoice,
    FiguredBass,
    TabVoice,
    CueVoice,
    ChordNames,
}

/// Any score element, as one tagged union.
#[derive(Debug, PartialEq)]
pub enum ScoreObject {
    Note { written_pitch: Pitch, written_duration: Duration },
    Rest { written_duration: Duration },
    Spacer { written_duration: Duration },
    Chord { written_pitches: Vec<Pitch>, written_duration: Duration },
    Tuplet { multiplier: Multiplier, contents: Vec<ScoreObject> },
    Container { contents: Vec<ScoreObject>, is_simultaneous: bool },
    Voice {
        contents: Vec<ScoreObject>,
        is_simultaneous: bool,
        name: Option<String>,
        context: VoiceContext,
    },
    Staff {
        contents: Vec<ScoreObject>,
        is_simultaneous: bool,
        name: Option<String>,
        context: StaffContext,
    },
    StaffGroup {
        contents: Vec<ScoreObject>,
        is_simultaneous: bool,
        name: Option<String>,
        context: StaffGroupContext,
    },
    Score { contents: Vec<ScoreObject>, is_simultaneous: bool, name: Option<String> },
}

impl ScoreObject {
    /// Whether the element is a leaf: a note, chord, rest, or spacer.
    pub open spec fn is_leaf_spec(self) -> bool {
        self is Note || self is Chord || self is Rest || self is Spacer
    }

    /// The element's contents, where it has any.
    pub open spec fn contents_spec(self) -> Option<Seq<ScoreObject>> {
        match self {
            ScoreObject::Tuplet { contents, .. } => Some(contents@),
            ScoreObject::Container { contents, .. } => Some(contents@),
            ScoreObject::Voice { contents, .. } => Some(contents@),
            ScoreObject::Staff { contents, .. } => Some(contents@),
            ScoreObject::StaffGroup { contents, .. } => Some(contents@),
            ScoreObject::Score { contents, .. } => Some(contents@),
            _ => None,
        }
    }

    /// The element's name, where it has one.
    pub open spec fn name_spec(self) -> Option<String> {
        match self {
            ScoreObject::Voice { name, .. } => name,
            ScoreObject::Staff { name, .. } => name,
            ScoreObject::StaffGroup { name, .. } => name,
            ScoreObject::Score { name, .. } => name,
            _ => None,
        }
    }

    /// Whether the element's contents sound at once.
    pub open spec fn is_simultaneous_spec(self) -> bool {
        match self {
            ScoreObject::Container { is_simultaneous, .. } => is_simultaneous,
            ScoreObject::Voice { is_simultaneous, .. } => is_simultaneous,
            ScoreObject::Staff { is_simultaneous, .. } => is_simultaneous,
            ScoreObject::StaffGroup { is_simultaneous, .. } => is_simultaneous,
            ScoreObject::Score { is_simultaneous, .. } => is_simultaneous,
            _ => false,
        }
    }

    /// Whether the element is a leaf: a note, chord, rest, or spacer.
    pub fn is_leaf(&self) -> (r: bool)
        ensures
            r == self.is_leaf_spec(),
    {
        matches!(
            self,
            Self::Note { .. } | Self::Chord { .. } | Self::Rest { .. } | Self::Spacer { .. },
        )
    }

    /// Whether the element is a container of other elements.
    pub fn is_container(&self) -> (r: bool)
        ensures
            r == !self.is_leaf_spec(),
    {
        !self.is_leaf()
    }

    /// The element's contents, where it has any.
    pub fn contents(&self) -> (r: Option<&Vec<ScoreObject>>)
        ensures
            self.contents_spec() is Some <==> r is Some,
            r matches Some(v) ==> Some(v@) == self.contents_spec(),
    {
        match self {
            Self::Tuplet { contents, .. } => Some(contents),
            Self::Container { contents, .. } => Some(contents),
            Self::Voice { contents, .. } => Some(contents),
            Self::Staff { contents, .. } => Some(contents),
            Self::StaffGroup { contents, .. } => Some(contents),
            Self::Score { contents, .. } => Some(contents),
            _ => None,
        }
    }

    /// The element at position `index` of the contents.
    pub fn at(&self, index: usize) -> (r: &ScoreObject)
        requires
            self.contents_spec() matches Some(c) && index < c.len(),
        ensures
            self.contents_spec() matches Some(c) && *r == c[index as int],
    {
        match self.contents() {
            Some(contents) => &contents[index],
            None => {
                proof {
                    assert(false);
                }
                vstd::pervasive::unreached()
            },
        }
    }

    /// The element's name, where it has one.
    pub fn name(&self) -> (r: &Option<String>)
        ensures
            *r == self.name_spec(),
    {
        match self {
            Self::Voice { name, .. } => name,
            Self::Staff { name, .. } => name,
            Self::StaffGroup { name, .. } => name,
            Self::Score { name, .. } => name,
            _ => &None,
        }
    }

    /// Renames the element; elements without a name are unchanged.
    pub fn set_name(&mut self, new_name: Option<String>)
        ensures
            old(self).name_spec() is None && !(*old(self) is Voice) && !(*old(self) is Staff)
                && !(*old(self) is StaffGroup) && !(*old(self) is Score) ==> *final(self) == *old(self),
            final(self).contents_spec() == old(self).contents_spec(),
            final(self).is_simultaneous_spec() == old(self).is_simultaneous_spec(),
            (*old(self) is Voice || *old(self) is Staff || *old(self) is StaffGroup || *old(self) is Score) ==> final(self).name_spec() == new_name,
    {
        match self {
            Self::Voice { name, .. } => *name = new_name,
            Self::Staff { name, .. } => *name = new_name,
            Self::StaffGroup { name, .. } => *name = new_name,
            Self::Score { name, .. } => *name = new_name,
            _ => (),
        }
    }

    /// Whether the element's contents sound at once.
    pub fn is_simultaneous(&self) -> (r: bool)
        ensures
            r == self.is_simultaneous_spec(),
    {
        match self {
            Self::Container { is_simultaneous, .. } => *is_simultaneous,
            Self::Voice { is_simultaneous, .. } => *is_simultaneous,
            Self::Staff { is_simultaneous, .. } => *is_simultaneous,
            Self::StaffGroup { is_simultaneous, .. } => *is_simultaneous,
            Self::Score { is_simultaneous, .. } => *is_simultaneous,
            _ => false,
        }
    }

    /// Chooses whether the element's contents sound at once; leaves are
    /// unchanged.
    pub fn set_is_simultaneous(&mut self, new_is_simultaneous: bool)
        ensures
            final(self).contents_spec() == old(self).contents_spec(),
            final(self).name_spec() == old(self).name_spec(),
            old(self).is_leaf_spec() || *old(self) is Tuplet ==> *final(self) == *old(self),
            !(old(self).is_leaf_spec() || *old(self) is Tuplet) ==> final(self).is_simultaneous_spec() == new_is_simultaneous,
    {
        match self {
            Self::Container { is_simultaneous, .. } => *is_simultaneous = new_is_simultaneous,
            Self::Voice { is_simultaneous, .. } => *is_simultaneous = new_is_simultaneous,
            Self::Staff { is_simultaneous, .. } => *is_simultaneous = new_is_simultaneous,
            Self::StaffGroup { is_simultaneous, .. } => *is_simultaneous = new_is_simultaneous,
            Self::Score { is_simultaneous, .. } => *is_simultaneous = new_is_simultaneous,
            _ => (),
        }
    }

    /// The staff-group context, on a staff group.
    pub fn staff_group_context(&self) -> (r: Option<&StaffGroupContext>)
        ensures
            *self matches ScoreObject::StaffGroup { context, .. } ==> (r matches Some(c) && *c
                == context),
            !(*self is StaffGroup) ==> r is None,
    {
        match self {
            Self::StaffGroup { context, .. } => Some(context),
            _ => None,
        }
    }

    /// Replaces the staff-group context; other elements are unchanged.
    pub fn set_staff_group_context(&mut self, new_context: StaffGroupContext)
        ensures
            !(*old(self) is StaffGroup) ==> *final(self) == *old(self),
            final(self).contents_spec() == old(self).contents_spec(),
            final(self).name_spec() == old(self).name_spec(),
            *old(self) is StaffGroup ==> (*final(self) matches ScoreObject::StaffGroup {
                context,
                ..
            } && context == new_context),
    {
        match self {
            Self::StaffGroup { context, .. } => *context = new_context,
            _ => (),
        }
    }

    /// The staff context, on a staff.
    pub fn staff_context(&self) -> (r: Option<&StaffContext>)
        ensures
            *self matches ScoreObject::Staff { context, .. } ==> (r matches Some(c) && *c
                == context),
            !(*self is Staff) ==> r is None,
    {
        match self {
            Self::Staff { context, .. } => Some(context),
            _ => None,
        }
    }

    /// Replaces the staff context; other elements are unchanged.
    pub fn set_staff_context(&mut self, new_context: StaffContext)
        ensures
            !(*old(self) is Staff) ==> *final(self) == *old(self),
            final(self).contents_spec() == old(self).contents_spec(),
            final(self).name_spec() == old(self).name_spec(),
            *old(self) is Staff ==> (*final(self) matches ScoreObject::Staff { context, .. }
                && context == new_context),
    {
        match self {
            Self::Staff { context, .. } => *context = new_context,
            _ => (),
        }
    }

    /// The voice context, on a voice.
    pub fn voice_context(&self) -> (r: Option<&VoiceContext>)
        ensures
            *self matches ScoreObject::Voice { context, .. } ==> (r matches Some(c) && *c
                == context),
            !(*self is Voice) ==> r is None,
    {
        match self {
            Self::Voice { context, .. } => Some(context),
            _ => None,
        }
    }

    /// Replaces the voice context; other elements are unchanged.
    pub fn set_voice_context(&mut self, new_context: VoiceContext)
        ensures
            !(*old(self) is Voice) ==> *final(self) == *old(self),
            final(self).contents_spec() == old(self).contents_spec(),
            final(self).name_spec() == old(self).name_spec(),
            *old(self) is Voice ==> (*final(self) matches ScoreObject::Voice { context, .. }
                && context == new_context),
    {
        match self {
            Self::Voice { context, .. } => *context = new_context,
            _ => (),
        }
    }
}

/// A note over the given pitch, or `UnprintableDuration` when one symbol
/// cannot carry the duration.
pub fn note(written_pitch: Pitch, written_duration: Duration) -> (r: Result<ScoreObject, Error>)
    requires
        written_duration.wf(),
    ensures
        written_duration.is_printable_spec() <==> r is Ok,
        !written_duration.is_printable_spec() ==> r == Err::<ScoreObject, Error>(
            Error::UnprintableDuration(written_duration),
        ),
        r matches Ok(n) ==> n == (ScoreObject::Note { written_pitch, written_duration }),
{
    if written_duration.is_printable() {
        Ok(ScoreObject::Note { written_pitch, written_duration })
    } else {
        Err(Error::UnprintableDuration(written_duration))
    }
}

/// A rest, or `UnprintableDuration` when one symbol cannot carry it.
pub fn rest(written_duration: Duration) -> (r: Result<ScoreObject, Error>)
    requires
        written_duration.wf(),
    ensures
        written_duration.is_printable_spec() <==> r is Ok,
        !written_duration.is_printable_spec() ==> r == Err::<ScoreObject, Error>(
            Error::UnprintableDuration(written_duration),
        ),
        r matches Ok(n) ==> n == (ScoreObject::Rest { written_duration }),
{
    if written_duration.is_printable() {
        Ok(ScoreObject::Rest { written_duration })
    } else {
        Err(Error::UnprintableDuration(written_duration))
    }
}

/// A spacer, or `UnprintableDuration` when one symbol cannot carry it.
pub fn spacer(written_duration: Duration) -> (r: Result<ScoreObject, Error>)
    requires
        written_duration.wf(),
    ensures
        written_duration.is_printable_spec() <==> r is Ok,
        !written_duration.is_printable_spec() ==> r == Err::<ScoreObject, Error>(
            Error::UnprintableDuration(written_duration),
        ),
        r matches Ok(n) ==> n == (ScoreObject::Spacer { written_duration }),
{
    if written_duration.is_printable() {
        Ok(ScoreObject::Spacer { written_duration })
    } else {
        Err(Error::UnprintableDuration(written_duration))
    }
}

/// A chord over the given pitches, or `UnprintableDuration` when one
/// symbol cannot carry the duration.
pub fn chord(pitches: Vec<Pitch>, written_duration: Duration) -> (r: Result<ScoreObject, Error>)
    requires
        written_duration.wf(),
    ensures
        written_duration.is_printable_spec() <==> r is Ok,
        !written_duration.is_printable_spec() ==> r == Err::<ScoreObject, Error>(
            Error::UnprintableDuration(written_duration),
        ),
        r matches Ok(n) ==> (n matches ScoreObject::Chord { written_pitches, written_duration: d }
            && written_pitches@ == pitches@ && d == written_duration),
{
    if written_duration.is_printable() {
        Ok(ScoreObject::Chord { written_pitches: pitches, written_duration })
    } else {
        Err(Error::UnprintableDuration(written_duration))
    }
}

/// A tuplet over the given contents.
pub fn tuplet(multiplier: Multiplier, contents: Vec<ScoreObject>) -> (r: Result<ScoreObject, Error>)
    ensures
        r matches Ok(n) && (n matches ScoreObject::Tuplet { multiplier: m, contents: c } && m
            == multiplier && c@ == contents@),
{
    Ok(ScoreObject::Tuplet { multiplier, contents })
}

/// A sequential container over the given contents.
pub fn container(contents: Vec<ScoreObject>) -> (r: Result<ScoreObject, Error>)
    ensures
        r matches Ok(n) && (n matches ScoreObject::Container { contents: c, is_simultaneous } && c@
            == contents@ && !is_simultaneous),
{
    Ok(ScoreObject::Container { contents, is_simultaneous: false })
}

/// A nameless, sequential voice over the given contents.
pub fn voice(contents: Vec<ScoreObject>) -> (r: Result<ScoreObject, Error>)
    ensures
        r matches Ok(n) && (n matches ScoreObject::Voice {
            contents: c,
            is_simultaneous,
            name,
            context,
        } && c@ == contents@ && !is_simultaneous && name is None && context == VoiceContext::Voice),
{
    Ok(
        ScoreObject::Voice {
            contents,
            is_simultaneous: false,
            name: None,
            context: VoiceContext::Voice,
        },
    )
}

/// A nameless, sequential staff over the given contents.
pub fn staff(contents: Vec<ScoreObject>) -> (r: Result<ScoreObject, Error>)
    ensures
        r matches Ok(n) && (n matches ScoreObject::Staff {
            contents: c,
            is_simultaneous,
            name,
            context,
        } && c@ == contents@ && !is_simultaneous && name is None && context == StaffContext::Staff),
{
    Ok(
        ScoreObject::Staff {
            contents,
            is_simultaneous: false,
            name: None,
            context: StaffContext::Staff,
        },
    )
}

/// A nameless, sequential staff group over the given contents.
pub fn staff_group(contents: Vec<ScoreObject>) -> (r: Result<ScoreObject, Error>)
    ensures
        r matches Ok(n) && (n matches ScoreObject::StaffGroup {
            contents: c,
            is_simultaneous,
            name,
            context,
        } && c@ == contents@ && !is_simultaneous && name is None && context
            == StaffGroupContext::StaffGroup),
{
    Ok(
        ScoreObject::StaffGroup {
            contents,
            is_simultaneous: false,
            name: None,
            context: StaffGroupContext::StaffGroup,
        },
    )
}

/// A nameless, sequential score over the given contents.
pub fn score(contents: Vec<ScoreObject>) -> (r: Result<ScoreObject, Error>)
    ensures
        r matches Ok(n) && (n matches ScoreObject::Score { contents: c, is_simultaneous, name }
            && c@ == contents@ && !is_simultaneous && name is None),
{
    Ok(ScoreObject::Score { contents, is_simultaneous: false, name: None })
}

} // verus!

verus! {

impl ScoreObject {
    /// A mutable borrow of the element's contents, where it has any.
    pub fn contents_mut(&mut self) -> (r: Option<&mut Vec<ScoreObject>>)
        ensures
            old(self).contents_spec() is Some <==> r is Some,
            r is None ==> *final(self) == *old(self),
            r matches Some(v) ==> {
                &&& Some(v@) == old(self).contents_spec()
                &&& final(self).contents_spec() == Some(final(v)@)
                &&& final(self).name_spec() == old(self).name_spec()
                &&& final(self).is_simultaneous_spec() == old(self).is_simultaneous_spec()
                &&& final(self).is_leaf_spec() == old(self).is_leaf_spec()
            },
    {
        match self {
            Self::Tuplet { contents, .. } => Some(contents),
            Self::Container { contents, .. } => Some(contents),
            Self::Voice { contents, .. } => Some(contents),
            Self::Staff { contents, .. } => Some(contents),
            Self::StaffGroup { contents, .. } => Some(contents),
            Self::Score { contents, .. } => Some(contents),
            _ => None,
        }
    }

    /// Replaces the element at position `index` of the contents.
    pub fn set_at(&mut self, index: usize, element: ScoreObject)
        requires
            old(self).contents_spec() matches Some(c) && index < c.len(),
        ensures
            old(self).contents_spec() matches Some(c) && final(self).contents_spec() == Some(
                c.update(index as int, element),
            ),
            final(self).name_spec() == old(self).name_spec(),
            final(self).is_simultaneous_spec() == old(self).is_simultaneous_spec(),
            final(self).is_leaf_spec() == old(self).is_leaf_spec(),
    {
        match self.contents_mut() {
            Some(contents) => {
                contents.set(index, element);
            },
            None => {
                proof {
                    assert(false);
                }
            },
        }
    }
}

} // verus!
