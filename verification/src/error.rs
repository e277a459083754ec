use vstd::prelude::*;

verus! {

/// Why a capture of one file, link or directory did not go through.
#[derive(Clone, Copy, Debug, PartialEq, Eq, Structural)]
pub enum CaptureError {
    /// The object was written to after the instant the pass claims to represent.
    ConcurrentModification,
    /// The object was there when the pass began and is gone now.
    ConcurrentDeletion,
    /// The object is still there but its metadata or content could not be read.
    IoFailure,
    /// The content was read but could not be compressed.
    EncodeFailure,
}

impl CaptureError {
    /// Whether a later pass may succeed where this one failed.
    pub open spec fn retryable(self) -> bool {
        self is ConcurrentModification || self is ConcurrentDeletion
    }

    /// Whether a later pass may succeed where this one failed: true of a
    /// change or a deletion under the walker's feet, false of everything else.
    pub fn is_retryable(&self) -> (r: bool)
        ensures
            r == self.retryable(),
    {
        match self {
            CaptureError::ConcurrentModification => true,
            CaptureError::ConcurrentDeletion => true,
            CaptureError::IoFailure => false,
            CaptureError::EncodeFailure => false,
        }
    }
}

/// Why a snapshot as a whole was given up.
#[derive(Clone, Copy, Debug, PartialEq, Eq, Structural)]
pub enum ProcessError {
    /// A pass met a failure that no retry can cure.
    UnrecoverableUnknown,
    /// The capture root is not a directory.
    PathNotDir,
    /// The capture root's metadata could not be obtained.
    MetadataFetchFailed,
    /// Every allowed retry was used without one clean pass.
    IterationBoundExceeded,
    /// A retry was due and allowed, but no further pass was on record.
    OutOfPasses,
}

impl ProcessError {
    /// The text shown for this error.
    pub open spec fn text(self) -> Seq<char> {
        match self {
            ProcessError::UnrecoverableUnknown => "Unrecoverable unknown error"@,
            ProcessError::PathNotDir => "Path is not a directory"@,
            ProcessError::MetadataFetchFailed => "Failed to fetch metadata"@,
            ProcessError::IterationBoundExceeded => "Iteration bound exceeded"@,
            ProcessError::OutOfPasses => "Out of recorded passes"@,
        }
    }

    /// The text shown for this error.
    pub fn message(&self) -> (s: String)
        ensures
            s@ == self.text(),
    {
        match self {
            ProcessError::UnrecoverableUnknown => "Unrecoverable unknown error".to_owned(),
            ProcessError::PathNotDir => "Path is not a directory".to_owned(),
            ProcessError::MetadataFetchFailed => "Failed to fetch metadata".to_owned(),
            ProcessError::IterationBoundExceeded => "Iteration bound exceeded".to_owned(),
            ProcessError::OutOfPasses => "Out of recorded passes".to_owned(),
        }
    }
}

} // verus!
