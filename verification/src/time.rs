use vstd::prelude::*;

verus! {

/// A length of time in nanoseconds.
pub type Nanoseconds = u128;

/// A point on the system clock, in nanoseconds since the Unix epoch.
#[derive(Clone, Copy, Debug, PartialEq, Eq, Structural)]
pub struct Timestamp {
    pub nanos: u128,
}

impl Timestamp {
    /// The time from `earlier` to `self`; none where the clock ran backwards.
    pub open spec fn spec_duration_since(self, earlier: Timestamp) -> Option<Nanoseconds> {
        if earlier.nanos <= self.nanos {
            Some((self.nanos - earlier.nanos) as u128)
        } else {
            None
        }
    }

    #[verifier::when_used_as_spec(spec_duration_since)]
    pub fn duration_since(self, earlier: Timestamp) -> (elapsed: Option<Nanoseconds>)
        ensures
            elapsed == self.spec_duration_since(earlier),
    {
        if earlier.nanos <= self.nanos {
            Some(self.nanos - earlier.nanos)
        } else {
            None
        }
    }
}

} // verus!
