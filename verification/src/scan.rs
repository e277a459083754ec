use vstd::prelude::*;
use crate::file::Content;
use crate::metadata::Probe;

verus! {

/// What one pass observed of a directory: its own metadata and its listing.
#[derive(Debug)]
pub struct DirScan {
    pub probe: Probe,
    pub listing: Listing,
}

/// The outcome of reading a directory's listing.
#[derive(Debug)]
pub enum Listing {
    /// The entries, in the order in which the file system gave them.
    Entries(Vec<ScanEntry>),
    /// The read failed and the directory no longer exists.
    Vanished,
    /// The read failed although the directory still exists.
    Unreadable,
}

/// One entry of a listing: its name within the directory and what was
/// observed of it.
#[derive(Debug)]
pub struct ScanEntry {
    pub name: String,
    pub kind: ScanKind,
}

/// What an entry of a listing turned out to be.
#[derive(Debug)]
pub enum ScanKind {
    /// A directory, with what was observed of it in turn.
    Directory(DirScan),
    /// A regular file, with its metadata and, where it was read, its content.
    File(Probe, Content),
    /// A symbolic link, with its own metadata.
    Symlink(Probe),
    /// Something that is neither of these; such an entry is passed over.
    Other,
    /// The entry itself could not be read from the listing.
    Unlisted,
}

} // verus!
