use vstd::prelude::*;

verus! {

/// Nanoseconds in one second.
pub const NANOS_PER_SECOND: u64 = 1_000_000_000;

/// The instant a capture pass claims to represent, counted in nanoseconds
/// since the Unix epoch.
///
/// Every record is stamped with the revision at which it was last confirmed
/// unchanged or captured anew, and file modification times are measured on
/// the same scale so that the two can be compared.
#[derive(Clone, Copy, Debug, PartialEq, Eq, Structural)]
pub struct Revision {
    pub nanos: u64,
}

impl Revision {
    /// The instant `nanos` nanoseconds after the Unix epoch.
    pub fn at(nanos: u64) -> (r: Revision)
        ensures
            r.nanos == nanos,
    {
        Revision { nanos }
    }

    /// Whether this instant lies strictly after `other`.
    pub fn is_after(&self, other: &Revision) -> (r: bool)
        ensures
            r == (self.nanos > other.nanos),
    {
        self.nanos > other.nanos
    }

    /// Whether this instant lies strictly before `other`.
    pub fn is_before(&self, other: &Revision) -> (r: bool)
        ensures
            r == (self.nanos < other.nanos),
    {
        self.nanos < other.nanos
    }

    /// Whole seconds since the Unix epoch, the unit in which an archive
    /// records modification times.
    pub fn seconds(&self) -> (s: u64)
        ensures
            s == self.nanos / NANOS_PER_SECOND,
    {
        self.nanos / NANOS_PER_SECOND
    }
}

} // verus!
