//! The named score containers: voices, staves, staff groups, and the score
//! itself.

use crate::container::Containable;
use vstd::prelude::*;

verus! {

/// A voice: a sequence (or stack) of musical elements.
#[derive(Debug)]
pub struct Voice {
    pub contents: Vec<Containable>,
    pub name: Option<String>,
    pub simultaneous: bool,
}

impl Voice {
    /// A nameless, sequential voice over the given contents.
    pub fn new(contents: Vec<Containable>) -> (r: Self)
        ensures
            r.contents@ == contents@,
            r.name is None,
            !r.simultaneous,
    {
        Self { contents, name: None, simultaneous: false }
    }

    /// The voice's contents.
    pub fn contents(&self) -> (r: &[Containable])
        ensures
            r@ == self.contents@,
    {
        self.contents.as_slice()
    }

    /// Names the voice.
    pub fn set_name(&mut self, name: &str)
        ensures
            final(self).contents@ == old(self).contents@,
            final(self).simultaneous == old(self).simultaneous,
            final(self).name matches Some(n) && n@ == name@,
    {
        self.name = Some(String::from_str(name));
    }

    /// Chooses between simultaneous and sequential contents.
    pub fn set_simultaneous(&mut self, simultaneous: bool)
        ensures
            final(self).contents@ == old(self).contents@,
            final(self).name == old(self).name,
            final(self).simultaneous == simultaneous,
    {
        self.simultaneous = simultaneous;
    }
}

/// A staff.
#[derive(Debug)]
pub struct Staff {
    pub contents: Vec<Containable>,
    pub name: Option<String>,
    pub simultaneous: bool,
}

impl Staff {
    /// A nameless, sequential staff over the given contents.
    pub fn new(contents: Vec<Containable>) -> (r: Self)
        ensures
            r.contents@ == contents@,
            r.name is None,
            !r.simultaneous,
    {
        Self { contents, name: None, simultaneous: false }
    }

    /// The staff's contents.
    pub fn contents(&self) -> (r: &[Containable])
        ensures
            r@ == self.contents@,
    {
        self.contents.as_slice()
    }

    /// Names the staff.
    pub fn set_name(&mut self, name: &str)
        ensures
            final(self).contents@ == old(self).contents@,
            final(self).simultaneous == old(self).simultaneous,
            final(self).name matches Some(n) && n@ == name@,
    {
        self.name = Some(String::from_str(name));
    }

    /// Chooses between simultaneous and sequential contents.
    pub fn set_simultaneous(&mut self, simultaneous: bool)
        ensures
            final(self).contents@ == old(self).contents@,
            final(self).name == old(self).name,
            final(self).simultaneous == simultaneous,
    {
        self.simultaneous = simultaneous;
    }
}

/// A staff that shows rhythm only.
#[derive(Debug)]
pub struct RhythmicStaff {
    pub contents: Vec<Containable>,
    pub name: Option<String>,
    pub simultaneous: bool,
}

impl RhythmicStaff {
    /// A nameless, sequential rhythmic staff over the given contents.
    pub fn new(contents: Vec<Containable>) -> (r: Self)
        ensures
            r.contents@ == contents@,
            r.name is None,
            !r.simultaneous,
    {
        Self { contents, name: None, simultaneous: false }
    }

    /// The staff's contents.
    pub fn contents(&self) -> (r: &[Containable])
        ensures
            r@ == self.contents@,
    {
        self.contents.as_slice()
    }

    /// Names the staff.
    pub fn set_name(&mut self, name: &str)
        ensures
            final(self).contents@ == old(self).contents@,
            final(self).simultaneous == old(self).simultaneous,
            final(self).name matches Some(n) && n@ == name@,
    {
        self.name = Some(String::from_str(name));
    }

    /// Chooses between simultaneous and sequential contents.
    pub fn set_simultaneous(&mut self, simultaneous: bool)
        ensures
            final(self).contents@ == old(self).contents@,
            final(self).name == old(self).name,
            final(self).simultaneous == simultaneous,
    {
        self.simultaneous = simultaneous;
    }
}

/// A group of staves, braced together; its contents always sound at once.
#[derive(Debug)]
pub struct StaffGroup {
    pub contents: Vec<Containable>,
    pub name: Option<String>,
}

impl StaffGroup {
    /// A nameless staff group over the given contents.
    pub fn new(contents: Vec<Containable>) -> (r: Self)
        ensures
            r.contents@ == contents@,
            r.name is None,
    {
        Self { contents, name: None }
    }

    /// The group's contents.
    pub fn contents(&self) -> (r: &[Containable])
        ensures
            r@ == self.contents@,
    {
        self.contents.as_slice()
    }

    /// Names the group.
    pub fn set_name(&mut self, name: &str)
        ensures
            final(self).contents@ == old(self).contents@,
            final(self).name matches Some(n) && n@ == name@,
    {
        self.name = Some(String::from_str(name));
    }
}

/// A whole score; its contents always sound at once.
#[derive(Debug)]
pub struct Score {
    pub contents: Vec<Containable>,
    pub name: Option<String>,
}

impl Score {
    /// A nameless score over the given contents.
    pub fn new(contents: Vec<Containable>) -> (r: Self)
        ensures
            r.contents@ == contents@,
            r.name is None,
    {
        Self { contents, name: None }
    }

    /// The score's contents.
    pub fn contents(&self) -> (r: &[Containable])
        ensures
            r@ == self.contents@,
    {
        self.contents.as_slice()
    }

    /// Names the score.
    pub fn set_name(&mut self, name: &str)
        ensures
            final(self).contents@ == old(self).contents@,
            final(self).name matches Some(n) && n@ == name@,
    {
        self.name = Some(String::from_str(name));
    }
}

} // verus!
