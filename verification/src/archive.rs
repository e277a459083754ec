use vstd::prelude::*;
use crate::path::TreePath;

verus! {

/// Type flag of a regular file in a tar header.
pub const FLAG_FILE: u8 = 48;

/// Type flag of a symbolic link in a tar header.
pub const FLAG_SYMLINK: u8 = 50;

/// Type flag of a directory in a tar header.
pub const FLAG_DIRECTORY: u8 = 53;

/// The least mode that a header cannot hold: its field takes seven octal digits.
pub const MODE_LIMIT: u32 = 0o10000000;

/// The least owner that a header cannot hold: its field takes 63 bits.
pub const ID_LIMIT: u64 = 0x8000_0000_0000_0000;

/// The numeric fields of one record's header.
#[derive(Clone, Copy, Debug, PartialEq, Eq, Structural)]
pub struct RecordHeader {
    /// What kind of record this is: one of the type flags of the tar format.
    pub typeflag: u8,
    /// Permission bits.
    pub mode: u32,
    /// Owning user.
    pub uid: u64,
    /// Owning group.
    pub gid: u64,
    /// Modification time in whole seconds since the Unix epoch.
    pub mtime: u64,
    /// Length of the payload that follows the header.
    pub size: u64,
}

/// Whether `name` can stand as one component of a path in a container: it is
/// not empty, is neither a single nor a double dot, and holds neither a slash
/// nor a NUL.
pub open spec fn plain_name(name: Seq<char>) -> bool {
    &&& name.len() > 0
    &&& name != "."@
    &&& name != ".."@
    &&& forall|i: int| 0 <= i < name.len() ==> name[i] != '/' && name[i] != '\0'
}

/// Whether a container holds `path` component for component as it is given:
/// it is the single dot, or it has at least one component and each is plain.
pub open spec fn storable_path(path: Seq<Seq<char>>) -> bool {
    path == seq!["."@] || (path.len() > 0 && forall|i: int|
        0 <= i < path.len() ==> plain_name(#[trigger] path[i]))
}

/// Whether a header holds the fields of `header` as they are given: the flag
/// is one of the three that the library writes, and mode and owners fit their
/// fields.
pub open spec fn storable_header(header: RecordHeader) -> bool {
    &&& header.typeflag == FLAG_FILE || header.typeflag == FLAG_SYMLINK || header.typeflag
        == FLAG_DIRECTORY
    &&& header.mode < MODE_LIMIT
    &&& header.uid < ID_LIMIT
    &&& header.gid < ID_LIMIT
}

/// One record as a container holds it.
pub ghost struct Stored {
    pub name: Seq<Seq<char>>,
    pub header: RecordHeader,
    pub data: Seq<u8>,
    pub link: Option<Seq<Seq<char>>>,
}

/// A tar container being built in memory, held in a `tar::Builder` over a
/// byte vector.
///
/// What is inside the builder is opaque here: all that is said of it is said
/// through `archived`, the records it has taken so far.
#[verifier::external_body]
pub struct Archive {
    inner: tar::Builder<Vec<u8>>,
}

/// The records that `archive` has taken so far, in order.
pub uninterp spec fn archived(archive: Archive) -> Seq<Stored>;

/// Whether a tar builder takes a record under the path `name`.
pub uninterp spec fn append_data_accepts(name: Seq<Seq<char>>) -> bool;

/// Whether a tar builder takes a link under the path `name` that points to `target`.
pub uninterp spec fn append_link_accepts(name: Seq<Seq<char>>, target: Seq<Seq<char>>) -> bool;

/// The bytes of the finished container that holds `records`, or `None` where
/// it cannot be finished.
pub uninterp spec fn container(records: Seq<Stored>) -> Option<Seq<u8>>;

/// A builder from `tar::Builder::new` over an empty byte vector: it holds no
/// record yet.
#[verifier::external_body]
pub(crate) fn new_archive() -> (archive: Archive)
    ensures
        archived(archive) == Seq::<Stored>::empty(),
{
    Archive { inner: tar::Builder::new(Vec::new()) }
}

/// Appends one record with `tar::Builder::append_data`.
///
/// The header is an old-style header that carries the fields of `header`.
/// Only a record that the header and the path can hold unchanged is handed
/// over: the fields fit, the size is the length of the payload, and the name
/// is one that the builder writes component for component. Whether the
/// builder takes the record is given a name and not stated. A record that was
/// taken stands last, with exactly these fields and this payload; of a
/// builder that refused nothing is said.
#[verifier::external_body]
pub(crate) fn append_data(archive: &mut Archive, name: &TreePath, header: &RecordHeader, data: &Vec<u8>) -> (taken: bool)
    requires
        storable_path(name@),
        storable_header(*header),
        header.size == data@.len(),
    ensures
        taken == append_data_accepts(name@),
        taken ==> archived(*final(archive)) == archived(*old(archive)).push(
            Stored { name: name@, header: *header, data: data@, link: None },
        ),
{
    let mut h = tar::Header::new_old();
    h.set_entry_type(tar::EntryType::new(header.typeflag));
    h.set_mode(header.mode);
    h.set_uid(header.uid);
    h.set_gid(header.gid);
    h.set_mtime(header.mtime);
    h.set_size(header.size);
    let path: std::path::PathBuf = name.components.iter().collect();
    archive.inner.append_data(&mut h, path, data.as_slice()).is_ok()
}

/// Appends one link with `tar::Builder::append_link`.
///
/// Only a link that the header and the two paths can hold unchanged is
/// handed over: the fields fit, the size is nothing, and name and target are
/// paths that the builder writes component for component. Whether the builder
/// takes the link is given a name and not stated. A link that was taken stands
/// last, with the fields of `header`, no payload and `target` as what it
/// points to; of a builder that refused nothing is said.
#[verifier::external_body]
pub(crate) fn append_link(archive: &mut Archive, name: &TreePath, header: &RecordHeader, target: &TreePath) -> (taken: bool)
    requires
        storable_path(name@),
        storable_path(target@),
        storable_header(*header),
        header.size == 0,
    ensures
        taken == append_link_accepts(name@, target@),
        taken ==> archived(*final(archive)) == archived(*old(archive)).push(
            Stored { name: name@, header: *header, data: Seq::empty(), link: Some(target@) },
        ),
{
    let mut h = tar::Header::new_old();
    h.set_entry_type(tar::EntryType::new(header.typeflag));
    h.set_mode(header.mode);
    h.set_uid(header.uid);
    h.set_gid(header.gid);
    h.set_mtime(header.mtime);
    h.set_size(header.size);
    let path: std::path::PathBuf = name.components.iter().collect();
    let to: std::path::PathBuf = target.components.iter().collect();
    archive.inner.append_link(&mut h, path, to).is_ok()
}

/// Finishes the container with `tar::Builder::into_inner` and hands out its bytes.
#[verifier::external_body]
pub(crate) fn into_bytes(archive: Archive) -> (bytes: Option<Vec<u8>>)
    ensures
        match bytes {
            Some(b) => container(archived(archive)) == Some(b@),
            None => container(archived(archive)) is None,
        },
{
    match archive.inner.into_inner() {
        Ok(bytes) => Some(bytes),
        Err(_) => None,
    }
}

/// Whether `name` can stand as one component of a path in a container.
pub fn is_plain_name(name: &String) -> (r: bool)
    ensures
        r == plain_name(name@),
{
    let dot = ".".to_owned();
    let dots = "..".to_owned();
    if name.as_str().is_empty() || *name == dot || *name == dots {
        return false;
    }
    let mut plain = true;
    for c in it: name.as_str().chars()
        invariant
            it.seq() == name@,
            plain == (forall|i: int| 0 <= i < it.index() ==> name@[i] != '/' && name@[i] != '\0'),
    {
        if c == '/' || c == '\0' {
            plain = false;
        }
    }
    plain
}

impl TreePath {
    /// Whether a container holds this path component for component as it is.
    pub fn is_storable(&self) -> (r: bool)
        ensures
            r == storable_path(self@),
    {
        let dot = ".".to_owned();
        if self.components.len() == 1 && self.components[0] == dot {
            assert(self@ =~= seq!["."@]);
            return true;
        }
        assert(self@ != seq!["."@]) by {
            if self@ == seq!["."@] {
                assert(seq!["."@].len() == 1);
                assert(seq!["."@][0] == "."@);
                assert(self@[0] == self.components@[0]@);
            }
        }
        if self.components.len() == 0 {
            return false;
        }
        let mut i: usize = 0;
        while i < self.components.len()
            invariant
                i <= self.components@.len(),
                self@ != seq!["."@],
                forall|k: int| 0 <= k < i ==> plain_name(#[trigger] self@[k]),
            decreases self.components@.len() - i,
        {
            if !is_plain_name(&self.components[i]) {
                assert(!plain_name(self@[i as int]));
                return false;
            }
            i = i + 1;
        }
        true
    }
}

impl RecordHeader {
    /// Whether a header holds these fields as they are.
    pub fn is_storable(&self) -> (r: bool)
        ensures
            r == storable_header(*self),
    {
        (self.typeflag == FLAG_FILE || self.typeflag == FLAG_SYMLINK || self.typeflag
            == FLAG_DIRECTORY) && self.mode < MODE_LIMIT && self.uid < ID_LIMIT && self.gid
            < ID_LIMIT
    }
}

} // verus!
