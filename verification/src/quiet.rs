use vstd::prelude::*;
use crate::compile::{compiled, compiled_dirs, kept_files, kept_links};
use crate::entry::{EntryKind, EntryModel};
use crate::file::{encoded, file_created, FileModel};
use crate::metadata::{fenced, Metadata};
use crate::model::{
    bare, dir_paths, entered, file_paths, link_paths, position_absent, visited, walked, DirModel,
};
use crate::revision::Revision;
use crate::scan::{DirScan, Listing, ScanEntry, ScanKind};
use crate::symlink::{link_stamped, LinkModel};

verus! {

/// Whether no two of `entries` bear the same name.
pub open spec fn distinct_names(entries: Seq<ScanEntry>) -> bool {
    forall|i: int, j: int|
        0 <= i < j < entries.len() ==> (#[trigger] entries[i]).name@ != (#[trigger] entries[j]).name@
}

/// Whether `scan` shows a directory that nothing disturbed as of `target`:
/// its own probe passes the fence, its listing was read and names nothing
/// twice, and each of its entries is quiet in turn.
pub open spec fn quiet(scan: DirScan, target: Revision, level: i32) -> bool
    decreases scan, 0nat,
{
    &&& fenced(scan.probe, target) is Ok
    &&& match scan.listing {
        Listing::Entries(entries) => distinct_names(entries@) && quiet_entries(
            entries@,
            entries@.len(),
            target,
            level,
        ),
        _ => false,
    }
}

/// Whether each of the first `n` of `entries` is quiet.
pub open spec fn quiet_entries(entries: Seq<ScanEntry>, n: nat, target: Revision, level: i32) -> bool
    decreases entries, n,
{
    n == 0 || n > entries.len() || (quiet_entries(entries, (n - 1) as nat, target, level)
        && quiet_entry(entries[n - 1], target, level))
}

/// Whether `entry` is quiet: a file's probe passes the fence and its content
/// was read and can be compressed, a link's metadata was read, a directory is
/// quiet in turn, and the entry itself could be read from the listing.
pub open spec fn quiet_entry(entry: ScanEntry, target: Revision, level: i32) -> bool
    decreases entry, 0nat,
{
    match entry.kind {
        ScanKind::Directory(sub) => quiet(sub, target, level),
        ScanKind::File(probe, content) => fenced(probe, target) is Ok && encoded(content, level) is Ok,
        ScanKind::Symlink(probe) => probe is Found,
        ScanKind::Other => true,
        ScanKind::Unlisted => false,
    }
}

/// The entries of the regular files among the first `n` of `entries`, in
/// listing order: each under the directory's path with its name added, with
/// the metadata that was read and the content in compressed form.
pub open spec fn files_of(origin: Seq<Seq<char>>, entries: Seq<ScanEntry>, n: nat, level: i32) -> Seq<
    EntryModel,
>
    decreases n,
{
    if n == 0 || n > entries.len() {
        Seq::empty()
    } else {
        let before = files_of(origin, entries, (n - 1) as nat, level);
        match entries[n - 1].kind {
            ScanKind::File(probe, content) => before.push(
                EntryModel {
                    path: origin.push(entries[n - 1].name@),
                    metadata: probe->Found_0,
                    kind: EntryKind::File(encoded(content, level)->Ok_0),
                },
            ),
            _ => before,
        }
    }
}

/// The entries of the symbolic links among the first `n` of `entries`, in
/// listing order.
pub open spec fn links_of(origin: Seq<Seq<char>>, entries: Seq<ScanEntry>, n: nat) -> Seq<EntryModel>
    decreases n,
{
    if n == 0 || n > entries.len() {
        Seq::empty()
    } else {
        let before = links_of(origin, entries, (n - 1) as nat);
        match entries[n - 1].kind {
            ScanKind::Symlink(probe) => before.push(
                EntryModel {
                    path: origin.push(entries[n - 1].name@),
                    metadata: probe->Found_0,
                    kind: EntryKind::Symlink,
                },
            ),
            _ => before,
        }
    }
}

/// What the sub-directories among the first `n` of `entries` hold, one after
/// the other in listing order.
pub open spec fn dirs_of(origin: Seq<Seq<char>>, entries: Seq<ScanEntry>, n: nat, level: i32) -> Seq<
    EntryModel,
>
    decreases entries, n,
{
    if n == 0 || n > entries.len() {
        Seq::empty()
    } else {
        let before = dirs_of(origin, entries, (n - 1) as nat, level);
        match entries[n - 1].kind {
            ScanKind::Directory(sub) => before + snapshot_of(
                origin.push(entries[n - 1].name@),
                sub,
                level,
            ),
            _ => before,
        }
    }
}

/// What the file system holds at and below the directory at `origin`, going
/// by `scan`: the directory itself, then its regular files, then what its
/// sub-directories hold, then its symbolic links.
pub open spec fn snapshot_of(origin: Seq<Seq<char>>, scan: DirScan, level: i32) -> Seq<EntryModel>
    decreases scan, 0nat,
{
    match scan.listing {
        Listing::Entries(entries) => seq![
            EntryModel { path: origin, metadata: scan.probe->Found_0, kind: EntryKind::Directory },
        ] + files_of(origin, entries@, entries@.len(), level) + dirs_of(
            origin,
            entries@,
            entries@.len(),
            level,
        ) + links_of(origin, entries@, entries@.len()),
        _ => Seq::empty(),
    }
}

/// Whether `path` is the path of one of the first `n` of `entries` within
/// the directory at `origin`.
pub open spec fn listed_within(
    path: Seq<Seq<char>>,
    origin: Seq<Seq<char>>,
    entries: Seq<ScanEntry>,
    n: nat,
) -> bool {
    exists|j: int| 0 <= j < n && j < entries.len() && path == origin.push(#[trigger] entries[j].name@)
}

/// What the first `n` file records give does not depend on the records after them.
pub proof fn kept_files_of_prefix(a: Seq<FileModel>, b: Seq<FileModel>, n: nat, target: Revision)
    requires
        n <= a.len(),
        n <= b.len(),
        forall|i: int| 0 <= i < n ==> a[i] == b[i],
    ensures
        kept_files(a, n, target) == kept_files(b, n, target),
    decreases n,
{
    if n > 0 {
        kept_files_of_prefix(a, b, (n - 1) as nat, target);
    }
}

/// What the first `n` link records give does not depend on the records after them.
pub proof fn kept_links_of_prefix(a: Seq<LinkModel>, b: Seq<LinkModel>, n: nat, target: Revision)
    requires
        n <= a.len(),
        n <= b.len(),
        forall|i: int| 0 <= i < n ==> a[i] == b[i],
    ensures
        kept_links(a, n, target) == kept_links(b, n, target),
    decreases n,
{
    if n > 0 {
        kept_links_of_prefix(a, b, (n - 1) as nat, target);
    }
}

/// What the first `n` sub-directories give does not depend on the nodes after them.
pub proof fn compiled_dirs_of_prefix(a: Seq<DirModel>, b: Seq<DirModel>, n: nat, target: Revision)
    requires
        n <= a.len(),
        n <= b.len(),
        forall|i: int| 0 <= i < n ==> a[i] == b[i],
    ensures
        compiled_dirs(a, n, target) == compiled_dirs(b, n, target),
    decreases n,
{
    if n > 0 {
        compiled_dirs_of_prefix(a, b, (n - 1) as nat, target);
    }
}

/// What a walk from a bare node leaves behind when nothing disturbs it.
pub open spec fn walked_quietly(
    origin: Seq<Seq<char>>,
    metadata: Metadata,
    entries: Seq<ScanEntry>,
    n: nat,
    target: Revision,
    level: i32,
) -> bool {
    let out = walked(bare(origin, metadata), entries, n, target, level);
    let dir = out.state;
    &&& out.error is None
    &&& dir.origin == origin
    &&& dir.metadata == metadata
    &&& dir.revision is None
    &&& kept_files(dir.files, dir.files.len(), target) == files_of(origin, entries, n, level)
    &&& compiled_dirs(dir.dirs, dir.dirs.len(), target) == dirs_of(origin, entries, n, level)
    &&& kept_links(dir.links, dir.links.len(), target) == links_of(origin, entries, n)
    &&& forall|k: int|
        0 <= k < dir.files.len() ==> listed_within(
            #[trigger] file_paths(dir.files)[k],
            origin,
            entries,
            n,
        )
    &&& forall|k: int|
        0 <= k < dir.dirs.len() ==> listed_within(#[trigger] dir_paths(dir.dirs)[k], origin, entries, n)
    &&& forall|k: int|
        0 <= k < dir.links.len() ==> listed_within(
            #[trigger] link_paths(dir.links)[k],
            origin,
            entries,
            n,
        )
}

/// A path listed among the first `n - 1` entries is none of the `n`-th
/// entry's, where no name occurs twice.
proof fn earlier_path_differs(
    path: Seq<Seq<char>>,
    origin: Seq<Seq<char>>,
    entries: Seq<ScanEntry>,
    n: nat,
)
    requires
        0 < n <= entries.len(),
        distinct_names(entries),
        listed_within(path, origin, entries, (n - 1) as nat),
    ensures
        path != origin.push(entries[n - 1].name@),
        listed_within(path, origin, entries, n),
{
    let j = choose|j: int|
        0 <= j < n - 1 && j < entries.len() && path == origin.push(#[trigger] entries[j].name@);
    assert(entries[j].name@ != entries[n - 1].name@);
    if path == origin.push(entries[n - 1].name@) {
        assert(origin.push(entries[j].name@).last() == entries[j].name@);
        assert(origin.push(entries[n - 1].name@).last() == entries[n - 1].name@);
    }
}

/// A walk over a quiet listing, begun at a bare node, fails nowhere and
/// leaves exactly the records of what is listed, each stamped with the
/// target revision.
pub proof fn quiet_walk(
    origin: Seq<Seq<char>>,
    metadata: Metadata,
    entries: Seq<ScanEntry>,
    n: nat,
    target: Revision,
    level: i32,
)
    requires
        n <= entries.len(),
        distinct_names(entries),
        quiet_entries(entries, n, target, level),
    ensures
        walked_quietly(origin, metadata, entries, n, target, level),
    decreases entries, n,
{
    let start = bare(origin, metadata);
    if n == 0 {
        assert(walked(start, entries, 0, target, level).state == start);
    } else {
        quiet_walk(origin, metadata, entries, (n - 1) as nat, target, level);
        let before = walked(start, entries, (n - 1) as nat, target, level);
        let dir = before.state;
        let entry = entries[n - 1];
        let path = origin.push(entry.name@);
        let out = entered(dir, entry, target, level);
        assert(walked(start, entries, n, target, level) == out);
        assert(quiet_entry(entry, target, level));

        assert forall|k: int| 0 <= k < dir.files.len() implies file_paths(dir.files)[k] != path
            && listed_within(#[trigger] file_paths(dir.files)[k], origin, entries, n) by {
            earlier_path_differs(file_paths(dir.files)[k], origin, entries, n);
        }
        assert forall|k: int| 0 <= k < dir.dirs.len() implies dir_paths(dir.dirs)[k] != path
            && listed_within(#[trigger] dir_paths(dir.dirs)[k], origin, entries, n) by {
            earlier_path_differs(dir_paths(dir.dirs)[k], origin, entries, n);
        }
        assert forall|k: int| 0 <= k < dir.links.len() implies link_paths(dir.links)[k] != path
            && listed_within(#[trigger] link_paths(dir.links)[k], origin, entries, n) by {
            earlier_path_differs(link_paths(dir.links)[k], origin, entries, n);
        }
        position_absent(file_paths(dir.files), path);
        position_absent(dir_paths(dir.dirs), path);
        position_absent(link_paths(dir.links), path);
        assert(listed_within(path, origin, entries, n)) by {
            assert(path == origin.push(entries[n - 1].name@));
        }

        match entry.kind {
            ScanKind::Directory(sub) => {
                let inner = fenced(sub.probe, target)->Ok_0;
                first_pass_converges(path, inner, sub, target, level);
                let child = visited(bare(path, inner), sub, target, level);
                let dirs = dir.dirs.push(child.state);
                assert(out.state.dirs == dirs);
                compiled_dirs_of_prefix(dirs, dir.dirs, dir.dirs.len(), target);
                assert(compiled(child.state, target) == snapshot_of(path, sub, level));
                assert forall|k: int| 0 <= k < dirs.len() implies listed_within(
                    #[trigger] dir_paths(dirs)[k],
                    origin,
                    entries,
                    n,
                ) by {
                    if k < dir.dirs.len() {
                        assert(dir_paths(dirs)[k] == dir_paths(dir.dirs)[k]);
                    }
                }
            },
            ScanKind::File(probe, content) => {
                let file = file_created(path, probe, content, target, level)->Ok_0;
                let files = dir.files.push(file);
                assert(out.state.files == files);
                kept_files_of_prefix(files, dir.files, dir.files.len(), target);
                assert forall|k: int| 0 <= k < files.len() implies listed_within(
                    #[trigger] file_paths(files)[k],
                    origin,
                    entries,
                    n,
                ) by {
                    if k < dir.files.len() {
                        assert(file_paths(files)[k] == file_paths(dir.files)[k]);
                    }
                }
            },
            ScanKind::Symlink(probe) => {
                let link = link_stamped(path, probe, target)->Ok_0;
                let links = dir.links.push(link);
                assert(out.state.links == links);
                kept_links_of_prefix(links, dir.links, dir.links.len(), target);
                assert forall|k: int| 0 <= k < links.len() implies listed_within(
                    #[trigger] link_paths(links)[k],
                    origin,
                    entries,
                    n,
                ) by {
                    if k < dir.links.len() {
                        assert(link_paths(links)[k] == link_paths(dir.links)[k]);
                    }
                }
            },
            ScanKind::Other => {},
            ScanKind::Unlisted => {},
        }
    }
}

/// A first pass over a tree that nothing disturbs goes through, and what it
/// compiles to is exactly what the file system holds: the root, every
/// directory below it, every regular file with its content in compressed
/// form, and every symbolic link.
pub proof fn first_pass_converges(
    origin: Seq<Seq<char>>,
    metadata: Metadata,
    scan: DirScan,
    target: Revision,
    level: i32,
)
    requires
        quiet(scan, target, level),
    ensures
        visited(bare(origin, metadata), scan, target, level).error is None,
        visited(bare(origin, metadata), scan, target, level).state.origin == origin,
        compiled(visited(bare(origin, metadata), scan, target, level).state, target) == snapshot_of(
            origin,
            scan,
            level,
        ),
    decreases scan, 0nat,
{
    let seen = fenced(scan.probe, target)->Ok_0;
    assert(DirModel { metadata: seen, ..bare(origin, metadata) } == bare(origin, seen));
    match scan.listing {
        Listing::Entries(entries) => {
            quiet_walk(origin, seen, entries@, entries@.len(), target, level);
        },
        _ => {},
    }
}

} // verus!
