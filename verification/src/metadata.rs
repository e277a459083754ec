use vstd::prelude::*;
use crate::error::CaptureError;
use crate::revision::Revision;

verus! {

/// What the file system reports of one object, as far as capture and
/// archiving read it.
#[derive(Clone, Copy, Debug, PartialEq, Eq, Structural)]
pub struct Metadata {
    /// Length of the object in bytes.
    pub size: u64,
    /// Permission bits.
    pub mode: u32,
    /// Owning user.
    pub uid: u64,
    /// Owning group.
    pub gid: u64,
    /// When the object was last written to.
    pub modified: Revision,
}

/// The outcome of asking the file system for an object's metadata.
#[derive(Clone, Copy, Debug, PartialEq, Eq, Structural)]
pub enum Probe {
    /// The metadata was read.
    Found(Metadata),
    /// The read failed and the path no longer exists.
    Vanished,
    /// The read failed although the path still exists.
    Unreadable,
}

/// The metadata that `probe` carries, once it has passed the fence at
/// `target`, or else the reason it did not pass: a vanished path is a
/// concurrent deletion, an unreadable one an I/O failure, and a modification
/// time strictly after `target` a concurrent modification.
pub open spec fn fenced(probe: Probe, target: Revision) -> Result<Metadata, CaptureError> {
    match probe {
        Probe::Vanished => Err(CaptureError::ConcurrentDeletion),
        Probe::Unreadable => Err(CaptureError::IoFailure),
        Probe::Found(metadata) => if metadata.modified.nanos > target.nanos {
            Err(CaptureError::ConcurrentModification)
        } else {
            Ok(metadata)
        },
    }
}

impl Probe {
    /// Holds the probe against the fence at `target`.
    pub fn fence(&self, target: Revision) -> (r: Result<Metadata, CaptureError>)
        ensures
            r == fenced(*self, target),
    {
        match self {
            Probe::Vanished => Err(CaptureError::ConcurrentDeletion),
            Probe::Unreadable => Err(CaptureError::IoFailure),
            Probe::Found(metadata) => {
                if metadata.modified.is_after(&target) {
                    Err(CaptureError::ConcurrentModification)
                } else {
                    Ok(*metadata)
                }
            },
        }
    }
}

} // verus!
