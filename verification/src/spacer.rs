//! A spacer: an invisible rest with a written duration that a single
//! symbol can carry.

use crate::duration::Duration;
use crate::error::Error;
use vstd::prelude::*;

verus! {

/// An invisible rest.
#[derive(Clone, Copy, Debug, PartialEq, Eq, Structural)]
pub struct Spacer {
    pub written_duration: Duration,
}

impl Spacer {
    /// A spacer is sound when its duration is reduced and printable.
    pub open spec fn wf(self) -> bool {
        &&& self.written_duration.wf()
        &&& self.written_duration.is_printable_spec()
    }

    /// A spacer of the given duration, or `UnprintableDuration` when one
    /// symbol cannot carry the duration.
    pub fn new(written_duration: Duration) -> (r: Result<Self, Error>)
        requires
            written_duration.wf(),
        ensures
            written_duration.is_printable_spec() <==> r is Ok,
            !written_duration.is_printable_spec() ==> r == Err::<Spacer, Error>(
                Error::UnprintableDuration(written_duration),
            ),
            r matches Ok(n) ==> n.wf() && n.written_duration == written_duration,
    {
        if written_duration.is_printable() {
            Ok(Self { written_duration })
        } else {
            Err(Error::UnprintableDuration(written_duration))
        }
    }
}

} // verus!
