use vstd::prelude::*;
use crate::archive::{
    append_data, append_data_accepts, append_link, append_link_accepts, archived, container,
    into_bytes, new_archive, storable_header, storable_path, Archive, RecordHeader, Stored,
    FLAG_DIRECTORY, FLAG_FILE, FLAG_SYMLINK,
};
use crate::entry::{entry_models, Entry, EntryKind, EntryModel, EntryType};
use crate::metadata::Metadata;
use crate::model::{first_at, position, position_absent, position_found};
use crate::path::{find_relative_path, relative_to, TreePath};
use crate::revision::NANOS_PER_SECOND;

verus! {

/// Where a symbolic link was found to point when the archive was about to be
/// written: the link's own path and the path it resolves to.
#[derive(Debug, PartialEq, Eq)]
pub struct ResolvedLink {
    pub path: TreePath,
    pub target: TreePath,
}

/// What a record of the archive carries besides its name and metadata.
#[derive(Debug, PartialEq, Eq)]
pub enum RecordBody {
    /// A file's payload, stored as it is.
    File(Vec<u8>),
    /// Nothing: the record stands for a directory.
    Directory,
    /// The path a link points to, as seen from the capture root.
    Symlink(TreePath),
}

/// One record of the archive, named as seen from the capture root.
#[derive(Debug, PartialEq, Eq)]
pub struct Record {
    pub name: TreePath,
    pub metadata: Metadata,
    pub body: RecordBody,
}

/// The body of a record as a mathematical value.
pub ghost enum BodyModel {
    File(Seq<u8>),
    Directory,
    Symlink(Seq<Seq<char>>),
}

/// A record as a mathematical value.
pub ghost struct RecordModel {
    pub name: Seq<Seq<char>>,
    pub metadata: Metadata,
    pub body: BodyModel,
}

impl View for RecordBody {
    type V = BodyModel;

    open spec fn view(&self) -> BodyModel {
        match self {
            RecordBody::File(data) => BodyModel::File(data@),
            RecordBody::Directory => BodyModel::Directory,
            RecordBody::Symlink(target) => BodyModel::Symlink(target@),
        }
    }
}

impl View for Record {
    type V = RecordModel;

    open spec fn view(&self) -> RecordModel {
        RecordModel { name: self.name@, metadata: self.metadata, body: self.body@ }
    }
}

/// The records of `records` as mathematical values, place by place.
pub open spec fn record_models(records: Seq<Record>) -> Seq<RecordModel> {
    Seq::new(records.len(), |i: int| records[i]@)
}

/// The paths of the links in `links`, place by place.
pub open spec fn resolved_paths(links: Seq<ResolvedLink>) -> Seq<Seq<Seq<char>>> {
    Seq::new(links.len(), |i: int| links[i].path@)
}

/// Where the link at `path` points, going by the first of `links` that speaks of it.
pub open spec fn target_of(links: Seq<ResolvedLink>, path: Seq<Seq<char>>) -> Option<
    Seq<Seq<char>>,
> {
    match position(resolved_paths(links), path) {
        Some(k) => Some(links[k].target@),
        None => None,
    }
}

/// The name under which the archive holds `path`: the path as seen from
/// `origin`, and a single dot for `origin` itself.
pub open spec fn archive_name(origin: Seq<Seq<char>>, path: Seq<Seq<char>>) -> Seq<Seq<char>> {
    let relative = relative_to(origin, path);
    if relative.len() == 0 {
        seq!["."@]
    } else {
        relative
    }
}

/// The record that stands for `entry` in an archive of the tree at `origin`,
/// if it has one.
///
/// A file or a directory always has one. A link has one only if its target
/// is known and lies at or below `origin`; the record then names the target
/// as seen from `origin`.
pub open spec fn record_of(origin: Seq<Seq<char>>, entry: EntryModel, links: Seq<ResolvedLink>) -> Option<
    RecordModel,
> {
    let name = archive_name(origin, entry.path);
    match entry.kind {
        EntryKind::File(data) => Some(
            RecordModel { name, metadata: entry.metadata, body: BodyModel::File(data) },
        ),
        EntryKind::Directory => Some(
            RecordModel { name, metadata: entry.metadata, body: BodyModel::Directory },
        ),
        EntryKind::Symlink => match target_of(links, entry.path) {
            Some(target) => if origin.is_prefix_of(target) {
                Some(
                    RecordModel {
                        name,
                        metadata: entry.metadata,
                        body: BodyModel::Symlink(archive_name(origin, target)),
                    },
                )
            } else {
                None
            },
            None => None,
        },
    }
}

/// The records that stand for the first `n` of `entries`, in order.
pub open spec fn planned(
    origin: Seq<Seq<char>>,
    entries: Seq<EntryModel>,
    links: Seq<ResolvedLink>,
    n: nat,
) -> Seq<RecordModel>
    decreases n,
{
    if n == 0 || n > entries.len() {
        Seq::empty()
    } else {
        let before = planned(origin, entries, links, (n - 1) as nat);
        match record_of(origin, entries[n - 1], links) {
            Some(record) => before.push(record),
            None => before,
        }
    }
}

/// Whether every one of `entries` lies at or below `origin`.
pub open spec fn all_inside(origin: Seq<Seq<char>>, entries: Seq<EntryModel>) -> bool {
    forall|i: int| 0 <= i < entries.len() ==> origin.is_prefix_of(#[trigger] entries[i].path)
}

/// Whether every one of `entries` lies at or below `origin`.
pub fn entries_lie_inside(origin: &TreePath, entries: &Vec<Entry>) -> (r: bool)
    ensures
        r == all_inside(origin@, entry_models(entries@)),
{
    let mut i: usize = 0;
    while i < entries.len()
        invariant
            i <= entries@.len(),
            forall|k: int| 0 <= k < i ==> origin@.is_prefix_of(#[trigger] entry_models(entries@)[k].path),
        decreases entries@.len() - i,
    {
        if !entries[i].path.starts_with(origin) {
            assert(!origin@.is_prefix_of(entry_models(entries@)[i as int].path));
            return false;
        }
        i = i + 1;
    }
    true
}

/// The name under which the archive holds `path`.
pub fn name_in_archive(origin: &TreePath, path: &TreePath) -> (name: TreePath)
    requires
        origin@.is_prefix_of(path@),
    ensures
        name@ == archive_name(origin@, path@),
{
    let relative = find_relative_path(origin, path);
    if relative.len() == 0 {
        let mut components: Vec<String> = Vec::new();
        components.push(".".to_owned());
        let name = TreePath { components };
        assert(name@ =~= seq!["."@]);
        name
    } else {
        relative
    }
}

/// Looks up where the link at `path` points.
pub fn find_target<'a>(links: &'a Vec<ResolvedLink>, path: &TreePath) -> (r: Option<&'a TreePath>)
    ensures
        match target_of(links@, path@) {
            Some(target) => r is Some && r->Some_0@ == target,
            None => r is None,
        },
{
    let mut i: usize = 0;
    while i < links.len()
        invariant
            i <= links@.len(),
            forall|k: int| 0 <= k < i ==> resolved_paths(links@)[k] != path@,
        decreases links@.len() - i,
    {
        if links[i].path.same_as(path) {
            proof {
                assert(first_at(resolved_paths(links@), path@, i as int));
                position_found(resolved_paths(links@), path@, i as int);
            }
            return Some(&links[i].target);
        }
        i = i + 1;
    }
    proof {
        position_absent(resolved_paths(links@), path@);
    }
    None
}

/// Turns the flat list of a snapshot into the records of its archive.
///
/// Every entry must lie at or below `origin`: a traversal of `origin` gives
/// no other. A link whose target is unknown or lies outside `origin` is left
/// out, and nothing else is.
pub fn plan_archive(origin: &TreePath, entries: Vec<Entry>, links: &Vec<ResolvedLink>) -> (records:
    Vec<Record>)
    requires
        all_inside(origin@, entry_models(entries@)),
    ensures
        record_models(records@) == planned(
            origin@,
            entry_models(entries@),
            links@,
            entries@.len(),
        ),
{
    let mut records: Vec<Record> = Vec::new();
    let ghost models = entry_models(entries@);
    assert(record_models(records@) =~= planned(origin@, models, links@, 0));
    for entry in it: entries.into_iter()
        invariant
            it.seq() == entries@,
            models == entry_models(entries@),
            all_inside(origin@, models),
            record_models(records@) == planned(origin@, models, links@, it.index() as nat),
    {
        let ghost before = record_models(records@);
        assert(models[it.index() as int] == entry@);
        assert(origin@.is_prefix_of(models[it.index() as int].path));
        let name = name_in_archive(origin, &entry.path);
        match entry.entry_type {
            EntryType::File(data) => {
                records.push(Record { name, metadata: entry.metadata, body: RecordBody::File(data) });
                assert(record_models(records@) =~= before.push(
                    record_of(origin@, entry@, links@)->Some_0,
                ));
            },
            EntryType::Directory => {
                records.push(Record { name, metadata: entry.metadata, body: RecordBody::Directory });
                assert(record_models(records@) =~= before.push(
                    record_of(origin@, entry@, links@)->Some_0,
                ));
            },
            EntryType::Symlink => {
                match find_target(links, &entry.path) {
                    Some(target) => {
                        if target.starts_with(origin) {
                            let to = name_in_archive(origin, target);
                            records.push(
                                Record { name, metadata: entry.metadata, body: RecordBody::Symlink(to) },
                            );
                            assert(record_models(records@) =~= before.push(
                                record_of(origin@, entry@, links@)->Some_0,
                            ));
                        }
                    },
                    None => {},
                }
            },
        }
    }
    records
}

/// Why no archive came out.
#[derive(Clone, Copy, Debug, PartialEq, Eq, Structural)]
pub enum ArchiveError {
    /// A record holds what a container cannot hold as it is: a name or a
    /// target that is no plain path, or a mode or an owner too large for its
    /// field.
    Unstorable,
    /// The container refused a record.
    Refused,
    /// Every record was taken but the container could not be finished.
    Unfinished,
}

/// The payload of `record`: a file's data, and nothing for anything else.
pub open spec fn payload_of(record: RecordModel) -> Seq<u8> {
    match record.body {
        BodyModel::File(data) => data,
        _ => Seq::empty(),
    }
}

/// The header fields of `record`: its kind, the captured permissions and
/// owners, the captured modification time in whole seconds, and as size the
/// length of the payload.
pub open spec fn header_of(record: RecordModel) -> RecordHeader {
    RecordHeader {
        typeflag: match record.body {
            BodyModel::File(_) => FLAG_FILE,
            BodyModel::Directory => FLAG_DIRECTORY,
            BodyModel::Symlink(_) => FLAG_SYMLINK,
        },
        mode: record.metadata.mode,
        uid: record.metadata.uid,
        gid: record.metadata.gid,
        mtime: record.metadata.modified.nanos / NANOS_PER_SECOND,
        size: payload_of(record).len() as u64,
    }
}

/// `record` as the container holds it once it has taken it.
pub open spec fn stored_of(record: RecordModel) -> Stored {
    Stored {
        name: record.name,
        header: header_of(record),
        data: payload_of(record),
        link: match record.body {
            BodyModel::Symlink(target) => Some(target),
            _ => None,
        },
    }
}

/// Whether a container can hold `record` as it is: its name, and its target
/// where it is a link, are plain paths; its mode and owners fit their fields;
/// and the length of its payload can be written as a size.
pub open spec fn storable(record: RecordModel) -> bool {
    &&& storable_path(record.name)
    &&& storable_header(header_of(record))
    &&& header_of(record).size == payload_of(record).len()
    &&& record.body matches BodyModel::Symlink(target) ==> storable_path(target)
}

/// Whether the container takes `record`.
pub open spec fn accepted(record: RecordModel) -> bool {
    match record.body {
        BodyModel::Symlink(target) => append_link_accepts(record.name, target),
        _ => append_data_accepts(record.name),
    }
}

/// What the container holds after the first `n` of `records` were handed to
/// it in order, or why it does not hold them: the first record that cannot be
/// stored as it is, or that the container refuses, ends the writing.
pub open spec fn written(records: Seq<RecordModel>, n: nat) -> Result<Seq<Stored>, ArchiveError>
    decreases n,
{
    if n == 0 || n > records.len() {
        Ok(Seq::empty())
    } else {
        match written(records, (n - 1) as nat) {
            Err(e) => Err(e),
            Ok(before) => if !storable(records[n - 1]) {
                Err(ArchiveError::Unstorable)
            } else if !accepted(records[n - 1]) {
                Err(ArchiveError::Refused)
            } else {
                Ok(before.push(stored_of(records[n - 1])))
            },
        }
    }
}

/// The bytes of the archive that holds `records`, or the reason there is none.
pub open spec fn packed(records: Seq<RecordModel>) -> Result<Seq<u8>, ArchiveError> {
    match written(records, records.len()) {
        Err(e) => Err(e),
        Ok(stored) => match container(stored) {
            Some(bytes) => Ok(bytes),
            None => Err(ArchiveError::Unfinished),
        },
    }
}

impl Record {
    /// The header fields of this record.
    pub fn header(&self) -> (header: RecordHeader)
        ensures
            header == header_of(self@),
    {
        RecordHeader {
            typeflag: match &self.body {
                RecordBody::File(_) => FLAG_FILE,
                RecordBody::Directory => FLAG_DIRECTORY,
                RecordBody::Symlink(_) => FLAG_SYMLINK,
            },
            mode: self.metadata.mode,
            uid: self.metadata.uid,
            gid: self.metadata.gid,
            mtime: self.metadata.modified.seconds(),
            size: match &self.body {
                RecordBody::File(data) => data.len() as u64,
                _ => 0,
            },
        }
    }

    /// Whether a container can hold this record as it is.
    pub fn is_storable(&self) -> (r: bool)
        ensures
            r == storable(self@),
    {
        if !self.name.is_storable() || !self.header().is_storable() {
            return false;
        }
        match &self.body {
            RecordBody::Symlink(target) => target.is_storable(),
            RecordBody::File(data) => {
                let n = data.len();
                assert(data@.len() == n as u64);
                true
            },
            RecordBody::Directory => true,
        }
    }
}

/// Hands one record to the container, unless it cannot be stored as it is.
fn store(archive: &mut Archive, record: &Record) -> (r: Result<(), ArchiveError>)
    ensures
        r == (if !storable(record@) {
            Err::<(), ArchiveError>(ArchiveError::Unstorable)
        } else if !accepted(record@) {
            Err::<(), ArchiveError>(ArchiveError::Refused)
        } else {
            Ok::<(), ArchiveError>(())
        }),
        r is Ok ==> archived(*final(archive)) == archived(*old(archive)).push(stored_of(record@)),
{
    if !record.is_storable() {
        return Err(ArchiveError::Unstorable);
    }
    let header = record.header();
    let taken = match &record.body {
        RecordBody::File(data) => append_data(archive, &record.name, &header, data),
        RecordBody::Directory => {
            let nothing: Vec<u8> = Vec::new();
            append_data(archive, &record.name, &header, &nothing)
        },
        RecordBody::Symlink(target) => append_link(archive, &record.name, &header, target),
    };
    if taken {
        Ok(())
    } else {
        Err(ArchiveError::Refused)
    }
}

/// Writes `records` into one tar container, in order, and hands out its bytes.
///
/// A file's payload goes in as it is: the container compresses nothing. A
/// record is handed to the container only if the container can hold it as it
/// is; the first that cannot ends the writing.
pub fn write_archive(records: &Vec<Record>) -> (r: Result<Vec<u8>, ArchiveError>)
    ensures
        match packed(record_models(records@)) {
            Ok(bytes) => r is Ok && r->Ok_0@ == bytes,
            Err(e) => r is Err && r->Err_0 == e,
        },
{
    let mut archive = new_archive();
    let ghost models = record_models(records@);
    let mut i: usize = 0;
    while i < records.len()
        invariant
            i <= records@.len(),
            models == record_models(records@),
            written(models, i as nat) == Ok::<Seq<Stored>, ArchiveError>(archived(archive)),
        decreases records@.len() - i,
    {
        match store(&mut archive, &records[i]) {
            Ok(()) => {},
            Err(e) => {
                proof {
                    failed_stays_failed(models, (i + 1) as nat, records@.len() as nat);
                }
                return Err(e);
            },
        }
        i = i + 1;
    }
    match into_bytes(archive) {
        Some(bytes) => Ok(bytes),
        None => Err(ArchiveError::Unfinished),
    }
}

/// Once the writing has ended on a record, further records change nothing.
pub proof fn failed_stays_failed(records: Seq<RecordModel>, n: nat, m: nat)
    requires
        n <= m <= records.len(),
        written(records, n) is Err,
    ensures
        written(records, m) == written(records, n),
    decreases m,
{
    if m > n {
        failed_stays_failed(records, n, (m - 1) as nat);
    }
}

/// Writes the flat list of a snapshot of the tree at `origin` into one tar
/// container and hands out its bytes.
///
/// `links` says where the symbolic links among `entries` point. Every entry
/// must lie at or below `origin`: a traversal of `origin` gives no other.
pub fn create_tarball(origin: &TreePath, entries: Vec<Entry>, links: &Vec<ResolvedLink>) -> (r:
    Result<Vec<u8>, ArchiveError>)
    requires
        all_inside(origin@, entry_models(entries@)),
    ensures
        match packed(planned(origin@, entry_models(entries@), links@, entries@.len())) {
            Ok(bytes) => r is Ok && r->Ok_0@ == bytes,
            Err(e) => r is Err && r->Err_0 == e,
        },
{
    let records = plan_archive(origin, entries, links);
    write_archive(&records)
}

} // verus!
