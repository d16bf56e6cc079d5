//! A tuplet: contents played under a time multiplier.

use crate::container::Containable;
use crate::multiplier::Multiplier;
use vstd::prelude::*;

verus! {

/// A tuplet: a ratio and the contents it scales.
#[derive(Debug)]
pub struct Tuplet {
    pub multiplier: Multiplier,
    pub contents: Vec<Containable>,
}

impl Tuplet {
    /// A tuplet of the given ratio over the given contents.
    pub fn new(multiplier: Multiplier, contents: Vec<Containable>) -> (r: Self)
        ensures
            r.multiplier == multiplier,
            r.contents@ == contents@,
    {
        Self { multiplier, contents }
    }

    /// The tuplet's contents.
    pub fn contents(&self) -> (r: &[Containable])
        ensures
            r@ == self.contents@,
    {
        self.contents.as_slice()
    }
}

} // verus!
