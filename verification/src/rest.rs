//! A rest: silence with a written duration that a single symbol can carry.

use crate::duration::Duration;
use crate::error::Error;
use vstd::prelude::*;

verus! {

/// A rest.
#[derive(Clone, Copy, Debug, PartialEq, Eq, Structural)]
pub struct Rest {
    pub written_duration: Duration,
}

impl Rest {
    /// A rest is sound when its duration is reduced and printable.
    pub open spec fn wf(self) -> bool {
        &&& self.written_duration.wf()
        &&& self.written_duration.is_printable_spec()
    }

    /// A rest of the given duration, or `UnprintableDuration` when one
    /// symbol cannot carry the duration.
    pub fn new(written_duration: Duration) -> (r: Result<Self, Error>)
        requires
            written_duration.wf(),
        ensures
            written_duration.is_printable_spec() <==> r is Ok,
            !written_duration.is_printable_spec() ==> r == Err::<Rest, Error>(
                Error::UnprintableDuration(written_duration),
            ),
            r matches Ok(n) ==> n.wf() && n.written_duration == written_duration,
    {
        if written_duration.is_printable() {
            Ok(Self { written_duration })
        } else {
            Err(Error::UnprintableDuration(written_duration))
        }
    }
}

} // verus!
