use vstd::prelude::*;
use vstd::std_specs::convert::FromSpecImpl;
use crate::file::{FileModel, WeakEntry};
use crate::metadata::Metadata;
use crate::model::DirModel;
use crate::path::TreePath;
use crate::symlink::{LinkModel, SymlinkEntry};
use crate::visitor::{view_unfolded, Visitor};

verus! {

/// One thing to be written into the archive: where it was found, what the
/// file system said of it, and what kind of thing it is.
#[derive(Debug, PartialEq, Eq)]
pub struct Entry {
    pub path: TreePath,
    pub metadata: Metadata,
    pub entry_type: EntryType,
}

/// The kind of an entry, with the compressed content where it is a file.
#[derive(Debug, PartialEq, Eq)]
pub enum EntryType {
    File(Vec<u8>),
    Symlink,
    Directory,
}

/// The kind of an entry as a mathematical value.
pub ghost enum EntryKind {
    File(Seq<u8>),
    Symlink,
    Directory,
}

/// An entry as a mathematical value.
pub ghost struct EntryModel {
    pub path: Seq<Seq<char>>,
    pub metadata: Metadata,
    pub kind: EntryKind,
}

impl View for EntryType {
    type V = EntryKind;

    open spec fn view(&self) -> EntryKind {
        match self {
            EntryType::File(data) => EntryKind::File(data@),
            EntryType::Symlink => EntryKind::Symlink,
            EntryType::Directory => EntryKind::Directory,
        }
    }
}

impl View for Entry {
    type V = EntryModel;

    open spec fn view(&self) -> EntryModel {
        EntryModel { path: self.path@, metadata: self.metadata, kind: self.entry_type@ }
    }
}

/// The entry that stands for a file record.
pub open spec fn file_entry(file: FileModel) -> EntryModel {
    EntryModel { path: file.path, metadata: file.metadata, kind: EntryKind::File(file.data) }
}

/// The entry that stands for a link record.
pub open spec fn link_entry(link: LinkModel) -> EntryModel {
    EntryModel { path: link.path, metadata: link.metadata, kind: EntryKind::Symlink }
}

/// The entry that stands for a directory node itself.
pub open spec fn dir_entry(dir: DirModel) -> EntryModel {
    EntryModel { path: dir.origin, metadata: dir.metadata, kind: EntryKind::Directory }
}

/// The entries of `entries` as mathematical values, place by place.
pub open spec fn entry_models(entries: Seq<Entry>) -> Seq<EntryModel> {
    Seq::new(entries.len(), |i: int| entries[i]@)
}

impl From<WeakEntry> for Entry {
    fn from(value: WeakEntry) -> (r: Entry) {
        Entry {
            path: value.path,
            metadata: value.metadata,
            entry_type: EntryType::File(value.encoded_data),
        }
    }
}

impl FromSpecImpl<WeakEntry> for Entry {
    open spec fn obeys_from_spec() -> bool {
        true
    }

    open spec fn from_spec(value: WeakEntry) -> Entry {
        Entry {
            path: value.path,
            metadata: value.metadata,
            entry_type: EntryType::File(value.encoded_data),
        }
    }
}

impl From<SymlinkEntry> for Entry {
    fn from(value: SymlinkEntry) -> (r: Entry) {
        Entry { path: value.path, metadata: value.metadata, entry_type: EntryType::Symlink }
    }
}

impl FromSpecImpl<SymlinkEntry> for Entry {
    open spec fn obeys_from_spec() -> bool {
        true
    }

    open spec fn from_spec(value: SymlinkEntry) -> Entry {
        Entry { path: value.path, metadata: value.metadata, entry_type: EntryType::Symlink }
    }
}

impl Entry {
    /// The entry that stands for the directory of `visitor` itself.
    pub fn from_directory(visitor: &Visitor) -> (r: Entry)
        ensures
            r@ == dir_entry(visitor@),
    {
        proof {
            view_unfolded(*visitor);
        }
        Entry {
            path: visitor.origin.clone(),
            metadata: visitor.metadata,
            entry_type: EntryType::Directory,
        }
    }
}

} // verus!
