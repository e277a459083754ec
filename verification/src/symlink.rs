use vstd::prelude::*;
use crate::error::CaptureError;
use crate::metadata::{Metadata, Probe};
use crate::path::TreePath;
use crate::revision::Revision;

verus! {

/// One symbolic link as last captured. The link's target is no part of the
/// record: it is looked up when the archive is written.
#[derive(Debug, PartialEq, Eq)]
pub struct SymlinkEntry {
    pub path: TreePath,
    pub metadata: Metadata,
    pub visit_revision: Revision,
}

/// A link record as a mathematical value.
pub ghost struct LinkModel {
    pub path: Seq<Seq<char>>,
    pub metadata: Metadata,
    pub revision: Revision,
}

impl View for SymlinkEntry {
    type V = LinkModel;

    open spec fn view(&self) -> LinkModel {
        LinkModel { path: self.path@, metadata: self.metadata, revision: self.visit_revision }
    }
}

/// The metadata that `probe` carries, or the reason it carries none: a
/// vanished path is a concurrent deletion, an unreadable one an I/O failure.
/// A link's modification time is not held against any fence.
pub open spec fn read(probe: Probe) -> Result<Metadata, CaptureError> {
    match probe {
        Probe::Found(metadata) => Ok(metadata),
        Probe::Vanished => Err(CaptureError::ConcurrentDeletion),
        Probe::Unreadable => Err(CaptureError::IoFailure),
    }
}

/// The record of the link at `path` as of `target`.
pub open spec fn link_stamped(path: Seq<Seq<char>>, probe: Probe, target: Revision) -> Result<
    LinkModel,
    CaptureError,
> {
    match read(probe) {
        Ok(metadata) => Ok(LinkModel { path, metadata, revision: target }),
        Err(e) => Err(e),
    }
}

impl Probe {
    /// The metadata this probe carries, or the reason it carries none.
    pub fn metadata(&self) -> (r: Result<Metadata, CaptureError>)
        ensures
            r == read(*self),
    {
        match self {
            Probe::Found(metadata) => Ok(*metadata),
            Probe::Vanished => Err(CaptureError::ConcurrentDeletion),
            Probe::Unreadable => Err(CaptureError::IoFailure),
        }
    }
}

impl SymlinkEntry {
    /// Captures a link seen for the first time.
    pub fn new(path: TreePath, probe: &Probe, visit_revision: Revision) -> (r: Result<
        SymlinkEntry,
        CaptureError,
    >)
        ensures
            match link_stamped(path@, *probe, visit_revision) {
                Ok(model) => r is Ok && r->Ok_0@ == model,
                Err(e) => r is Err && r->Err_0 == e,
            },
    {
        match probe.metadata() {
            Ok(metadata) => Ok(SymlinkEntry { path, metadata, visit_revision }),
            Err(e) => Err(e),
        }
    }

    /// Brings the record up to `visit_revision`: the metadata is replaced by
    /// what the probe carries and the record is stamped. On failure the record
    /// is left as it was.
    pub fn visit(&mut self, probe: &Probe, visit_revision: Revision) -> (r: Result<
        (),
        CaptureError,
    >)
        ensures
            match link_stamped(old(self)@.path, *probe, visit_revision) {
                Ok(model) => r == Ok::<(), CaptureError>(()) && final(self)@ == model,
                Err(e) => r == Err::<(), CaptureError>(e) && final(self)@ == old(self)@,
            },
    {
        match probe.metadata() {
            Ok(metadata) => {
                self.metadata = metadata;
                self.visit_revision = visit_revision;
                Ok(())
            },
            Err(e) => Err(e),
        }
    }
}

} // verus!
