use vstd::prelude::*;
use crate::codec::{encode, zstd_frame};
use crate::error::CaptureError;
use crate::metadata::{fenced, Metadata, Probe};
use crate::path::TreePath;
use crate::revision::Revision;

verus! {

/// The outcome of reading a file's content.
#[derive(Debug, PartialEq, Eq)]
pub enum Content {
    /// The whole content, as read.
    Read(Vec<u8>),
    /// The read failed and the path no longer exists.
    Vanished,
    /// The read failed although the path still exists.
    Unreadable,
    /// No read was attempted.
    Withheld,
}

/// One regular file as last captured: where it is, what the file system said
/// of it, when it was last confirmed, and its content in compressed form.
#[derive(Debug, PartialEq, Eq)]
pub struct WeakEntry {
    pub path: TreePath,
    pub metadata: Metadata,
    pub visit_revision: Revision,
    pub encoded_data: Vec<u8>,
}

/// A file record as a mathematical value.
pub ghost struct FileModel {
    pub path: Seq<Seq<char>>,
    pub metadata: Metadata,
    pub revision: Revision,
    pub data: Seq<u8>,
}

impl View for WeakEntry {
    type V = FileModel;

    open spec fn view(&self) -> FileModel {
        FileModel {
            path: self.path@,
            metadata: self.metadata,
            revision: self.visit_revision,
            data: self.encoded_data@,
        }
    }
}

/// The compressed form of `content` at `level`, or the reason there is none:
/// a vanished file is a concurrent deletion, a content that could not be read
/// or was not supplied an I/O failure, and a refusal of the encoder an encode
/// failure.
pub open spec fn encoded(content: Content, level: i32) -> Result<Seq<u8>, CaptureError> {
    match content {
        Content::Read(bytes) => match zstd_frame(bytes@, level) {
            Some(frame) => Ok(frame),
            None => Err(CaptureError::EncodeFailure),
        },
        Content::Vanished => Err(CaptureError::ConcurrentDeletion),
        Content::Unreadable => Err(CaptureError::IoFailure),
        Content::Withheld => Err(CaptureError::IoFailure),
    }
}

/// Whether a file last written at `modified` is known to be unchanged since
/// a record was confirmed at `confirmed`: its modification time lies strictly
/// before that instant.
pub open spec fn unchanged_since(modified: Revision, confirmed: Revision) -> bool {
    modified.nanos < confirmed.nanos
}

/// The record of a file first seen at `path`, captured as of `target`.
pub open spec fn file_created(
    path: Seq<Seq<char>>,
    probe: Probe,
    content: Content,
    target: Revision,
    level: i32,
) -> Result<FileModel, CaptureError> {
    match fenced(probe, target) {
        Err(e) => Err(e),
        Ok(metadata) => match encoded(content, level) {
            Err(e) => Err(e),
            Ok(frame) => Ok(FileModel { path, metadata, revision: target, data: frame }),
        },
    }
}

/// The record `file` after it has been brought up to `target`.
///
/// A probe that does not pass the fence fails the visit. A file unchanged
/// since the record was last confirmed keeps its metadata and data and is
/// only stamped anew, whatever `content` holds. Any other file is captured
/// afresh.
pub open spec fn file_visited(
    file: FileModel,
    probe: Probe,
    content: Content,
    target: Revision,
    level: i32,
) -> Result<FileModel, CaptureError> {
    match fenced(probe, target) {
        Err(e) => Err(e),
        Ok(metadata) => if unchanged_since(metadata.modified, file.revision) {
            Ok(FileModel { revision: target, ..file })
        } else {
            match encoded(content, level) {
                Err(e) => Err(e),
                Ok(frame) => Ok(FileModel { metadata, revision: target, data: frame, ..file }),
            }
        },
    }
}

impl Content {
    /// Compresses the content at `level`.
    pub fn encode(&self, level: i32) -> (r: Result<Vec<u8>, CaptureError>)
        ensures
            match encoded(*self, level) {
                Ok(frame) => r is Ok && r->Ok_0@ == frame,
                Err(e) => r == Err::<Vec<u8>, CaptureError>(e),
            },
    {
        match self {
            Content::Read(bytes) => match encode(bytes, level) {
                Some(frame) => Ok(frame),
                None => Err(CaptureError::EncodeFailure),
            },
            Content::Vanished => Err(CaptureError::ConcurrentDeletion),
            Content::Unreadable => Err(CaptureError::IoFailure),
            Content::Withheld => Err(CaptureError::IoFailure),
        }
    }
}

impl WeakEntry {
    /// Captures a file seen for the first time.
    ///
    /// `probe` is what the file system said of the file and `content` what a
    /// read of it gave. The record exists only if the probe passes the fence at
    /// `visit_revision` and the content could be compressed.
    pub fn new(
        path: TreePath,
        probe: &Probe,
        content: &Content,
        visit_revision: Revision,
        compression_level: i32,
    ) -> (r: Result<WeakEntry, CaptureError>)
        ensures
            match file_created(path@, *probe, *content, visit_revision, compression_level) {
                Ok(model) => r is Ok && r->Ok_0@ == model,
                Err(e) => r is Err && r->Err_0 == e,
            },
    {
        let metadata = match probe.fence(visit_revision) {
            Ok(metadata) => metadata,
            Err(e) => { return Err(e); },
        };
        let mut entry = WeakEntry {
            path,
            metadata,
            visit_revision,
            encoded_data: Vec::new(),
        };
        match entry.fvisit(content, compression_level) {
            Ok(()) => Ok(entry),
            Err(e) => Err(e),
        }
    }

    /// Whether a visit that finds the file last written at `modified` needs
    /// the file's content: it does unless the file is unchanged since the
    /// record was last confirmed.
    pub fn needs_content(&self, modified: Revision) -> (r: bool)
        ensures
            r == !unchanged_since(modified, self.visit_revision),
    {
        !modified.is_before(&self.visit_revision)
    }

    /// Brings the record up to `visit_revision`.
    ///
    /// On failure the record is left as it was.
    pub fn visit(
        &mut self,
        probe: &Probe,
        content: &Content,
        visit_revision: Revision,
        compression_level: i32,
    ) -> (r: Result<(), CaptureError>)
        ensures
            match file_visited(old(self)@, *probe, *content, visit_revision, compression_level) {
                Ok(model) => r == Ok::<(), CaptureError>(()) && final(self)@ == model,
                Err(e) => r == Err::<(), CaptureError>(e) && final(self)@ == old(self)@,
            },
    {
        let metadata = match probe.fence(visit_revision) {
            Ok(metadata) => metadata,
            Err(e) => { return Err(e); },
        };
        if metadata.modified.is_before(&self.visit_revision) {
            self.visit_revision = visit_revision;
            return Ok(());
        }
        match self.fvisit(content, compression_level) {
            Ok(()) => {
                self.metadata = metadata;
                self.visit_revision = visit_revision;
                Ok(())
            },
            Err(e) => Err(e),
        }
    }

    /// Replaces the stored data by the compressed form of `content`.
    ///
    /// On failure the record is left as it was.
    pub fn fvisit(&mut self, content: &Content, compression_level: i32) -> (r: Result<
        (),
        CaptureError,
    >)
        ensures
            match encoded(*content, compression_level) {
                Ok(frame) => r == Ok::<(), CaptureError>(()) && final(self)@ == (FileModel { data: frame, ..old(self)@ }),
                Err(e) => r == Err::<(), CaptureError>(e) && final(self)@ == old(self)@,
            },
    {
        match content.encode(compression_level) {
            Ok(frame) => {
                self.encoded_data = frame;
                Ok(())
            },
            Err(e) => Err(e),
        }
    }
}

} // verus!
