use vstd::prelude::*;

verus! {

/// A point in time: whole seconds since the Unix epoch and the nanoseconds
/// past that second.
#[derive(Clone, Copy, Debug, PartialEq, Eq, Structural)]
pub struct Timestamp {
    pub seconds: i64,
    pub nanos: u32,
}

impl Timestamp {
    pub fn new(seconds: i64, nanos: u32) -> (r: Timestamp)
        ensures
            r == (Timestamp { seconds, nanos }),
    {
        Timestamp { seconds, nanos }
    }

    /// The position on the x axis: milliseconds since the epoch, the
    /// fraction of a millisecond dropped.
    pub open spec fn position_spec(&self) -> int {
        self.seconds * 1000 + self.nanos / 1_000_000
    }

    pub fn position(&self) -> (r: i64)
        requires
            i64::MIN <= self.position_spec() <= i64::MAX,
        ensures
            r == self.position_spec(),
    {
        ((self.seconds as i128) * 1000 + ((self.nanos / 1_000_000) as i128)) as i64
    }
}

} // verus!
