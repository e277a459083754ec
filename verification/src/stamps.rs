use vstd::prelude::*;
use crate::archiver::all_inside;
use crate::compile::{compiled, compiled_dirs, kept_files, kept_links};
use crate::file::FileModel;
use crate::metadata::{fenced, Metadata};
use crate::model::{
    bare, dir_paths, entered, file_paths, link_paths, listed, position, position_is_first, visited,
    walked, DirModel,
};
use crate::revision::Revision;
use crate::scan::{DirScan, Listing, ScanEntry, ScanKind};
use crate::symlink::LinkModel;

verus! {

/// Whether one of `files` lies at `path` and bears `target`.
pub open spec fn file_stamped(path: Seq<Seq<char>>, files: Seq<FileModel>, target: Revision) -> bool {
    exists|k: int| 0 <= k < files.len() && (#[trigger] files[k]).path == path && files[k].revision == target
}

/// Whether one of `links` lies at `path` and bears `target`.
pub open spec fn link_stamped_at(path: Seq<Seq<char>>, links: Seq<LinkModel>, target: Revision) -> bool {
    exists|k: int| 0 <= k < links.len() && (#[trigger] links[k]).path == path && links[k].revision == target
}

/// Whether anything cached at `path` in the tree of `dir` bears `target`:
/// the node itself, one of its files or links, or anything below one of its
/// sub-directories.
pub open spec fn stamped(path: Seq<Seq<char>>, dir: DirModel, target: Revision) -> bool
    decreases dir, 0nat,
{
    ||| (dir.revision == Some(target) && dir.origin == path)
    ||| file_stamped(path, dir.files, target)
    ||| link_stamped_at(path, dir.links, target)
    ||| stamped_below(path, dir.dirs, dir.dirs.len(), target)
}

/// Whether anything cached at `path` in one of the first `n` of `dirs` bears `target`.
pub open spec fn stamped_below(path: Seq<Seq<char>>, dirs: Seq<DirModel>, n: nat, target: Revision) -> bool
    decreases dirs, n,
{
    n > 0 && n <= dirs.len() && (stamped_below(path, dirs, (n - 1) as nat, target) || stamped(
        path,
        dirs[n - 1],
        target,
    ))
}

/// Whether `scan` shows something at `path` in the directory at `origin`:
/// the directory itself, one of the files or links of its listing, or
/// something shown in one of its sub-directories.
pub open spec fn shown(path: Seq<Seq<char>>, origin: Seq<Seq<char>>, scan: DirScan) -> bool
    decreases scan, 0nat,
{
    path == origin || match scan.listing {
        Listing::Entries(entries) => shown_among(path, origin, entries@, entries@.len()),
        _ => false,
    }
}

/// Whether one of the first `n` of `entries` shows something at `path`.
pub open spec fn shown_among(
    path: Seq<Seq<char>>,
    origin: Seq<Seq<char>>,
    entries: Seq<ScanEntry>,
    n: nat,
) -> bool
    decreases entries, n,
{
    n > 0 && n <= entries.len() && (shown_among(path, origin, entries, (n - 1) as nat) || shown_by(
        path,
        origin,
        entries[n - 1],
    ))
}

/// Whether `entry` shows something at `path`.
pub open spec fn shown_by(path: Seq<Seq<char>>, origin: Seq<Seq<char>>, entry: ScanEntry) -> bool
    decreases entry, 0nat,
{
    match entry.kind {
        ScanKind::Directory(sub) => shown(path, origin.push(entry.name@), sub),
        ScanKind::File(_, _) => path == origin.push(entry.name@),
        ScanKind::Symlink(_) => path == origin.push(entry.name@),
        _ => false,
    }
}

/// Whether nothing cached in the tree of `dir` bears `target`, but for the
/// node of `dir` itself, which may.
pub open spec fn unstamped(dir: DirModel, target: Revision) -> bool {
    forall|path: Seq<Seq<char>>| stamped(path, dir, target) ==> path == dir.origin
}

/// Something stamped in one of the first `n` sub-directories is stamped below.
pub proof fn below_from(path: Seq<Seq<char>>, dirs: Seq<DirModel>, n: nat, k: int, target: Revision)
    requires
        0 <= k < n <= dirs.len(),
        stamped(path, dirs[k], target),
    ensures
        stamped_below(path, dirs, n, target),
    decreases n,
{
    if k < n - 1 {
        below_from(path, dirs, (n - 1) as nat, k, target);
    }
}

/// Something stamped below is stamped in one of the sub-directories.
pub proof fn below_in(path: Seq<Seq<char>>, dirs: Seq<DirModel>, n: nat, target: Revision) -> (k: int)
    requires
        stamped_below(path, dirs, n, target),
    ensures
        0 <= k < n <= dirs.len(),
        stamped(path, dirs[k], target),
    decreases n,
{
    if stamped(path, dirs[n - 1], target) {
        n - 1
    } else {
        below_in(path, dirs, (n - 1) as nat, target)
    }
}

/// A visit stamps nothing but what its scan shows, stamps with no other
/// revision than its own, and leaves the node where it is.
pub proof fn visit_stamps_what_is_shown(
    path: Seq<Seq<char>>,
    at: Revision,
    dir: DirModel,
    scan: DirScan,
    target: Revision,
    level: i32,
)
    ensures
        visited(dir, scan, target, level).state.origin == dir.origin,
        stamped(path, visited(dir, scan, target, level).state, at) ==> stamped(path, dir, at) || (at
            == target && shown(path, dir.origin, scan)),
    decreases scan, 0nat,
{
    match fenced(scan.probe, target) {
        Err(_) => {},
        Ok(metadata) => {
            let seen = DirModel { metadata, ..dir };
            listing_stamps_what_is_shown(path, at, seen, scan.listing, target, level);
            assert(stamped(path, seen, at) == stamped(path, dir, at));
            let out = listed(seen, scan.listing, target, level);
            if out.error is None {
                let done = DirModel { revision: Some(target), ..out.state };
                if stamped(path, done, at) {
                    if !(at == target && path == dir.origin) {
                        assert(stamped(path, out.state, at));
                    }
                }
            }
        },
    }
}

/// Going through a listing stamps nothing but what the listing shows.
pub proof fn listing_stamps_what_is_shown(
    path: Seq<Seq<char>>,
    at: Revision,
    dir: DirModel,
    listing: Listing,
    target: Revision,
    level: i32,
)
    ensures
        listed(dir, listing, target, level).state.origin == dir.origin,
        listed(dir, listing, target, level).state.revision == dir.revision,
        stamped(path, listed(dir, listing, target, level).state, at) ==> stamped(path, dir, at) || (at
            == target && (listing matches Listing::Entries(entries) && shown_among(
            path,
            dir.origin,
            entries@,
            entries@.len(),
        ))),
    decreases listing, 0nat,
{
    match listing {
        Listing::Entries(entries) => {
            walk_stamps_what_is_shown(path, at, dir, entries@, entries@.len(), target, level);
        },
        _ => {},
    }
}

/// A walk over the first `n` entries stamps nothing but what they show.
pub proof fn walk_stamps_what_is_shown(
    path: Seq<Seq<char>>,
    at: Revision,
    dir: DirModel,
    entries: Seq<ScanEntry>,
    n: nat,
    target: Revision,
    level: i32,
)
    requires
        n <= entries.len(),
    ensures
        walked(dir, entries, n, target, level).state.origin == dir.origin,
        walked(dir, entries, n, target, level).state.revision == dir.revision,
        stamped(path, walked(dir, entries, n, target, level).state, at) ==> stamped(path, dir, at) || (
        at == target && shown_among(path, dir.origin, entries, n)),
    decreases entries, n,
{
    if n > 0 {
        walk_stamps_what_is_shown(path, at, dir, entries, (n - 1) as nat, target, level);
        let before = walked(dir, entries, (n - 1) as nat, target, level);
        if before.error is None {
            entry_stamps_what_is_shown(path, at, before.state, entries[n - 1], target, level);
        }
    }
}

/// Dealing with one entry stamps nothing but what the entry shows.
pub proof fn entry_stamps_what_is_shown(
    path: Seq<Seq<char>>,
    at: Revision,
    dir: DirModel,
    entry: ScanEntry,
    target: Revision,
    level: i32,
)
    ensures
        entered(dir, entry, target, level).state.origin == dir.origin,
        entered(dir, entry, target, level).state.revision == dir.revision,
        stamped(path, entered(dir, entry, target, level).state, at) ==> stamped(path, dir, at) || (at
            == target && shown_by(path, dir.origin, entry)),
    decreases entry, 0nat,
{
    let own = dir.origin.push(entry.name@);
    let after = entered(dir, entry, target, level).state;
    match entry.kind {
        ScanKind::Directory(sub) => {
            match position(dir_paths(dir.dirs), own) {
                Some(k) => {
                    position_is_first(dir_paths(dir.dirs), own);
                    assert(dir_paths(dir.dirs)[k] == own);
                    visit_stamps_what_is_shown(path, at, dir.dirs[k], sub, target, level);
                    if stamped_below(path, after.dirs, after.dirs.len(), at) {
                        let j = below_in(path, after.dirs, after.dirs.len(), at);
                        if j != k {
                            assert(after.dirs[j] == dir.dirs[j]);
                            below_from(path, dir.dirs, dir.dirs.len(), j, at);
                        } else {
                            if stamped(path, dir.dirs[k], at) {
                                below_from(path, dir.dirs, dir.dirs.len(), k, at);
                            }
                        }
                    }
                },
                None => {
                    match fenced(sub.probe, target) {
                        Err(_) => {},
                        Ok(metadata) => {
                            let fresh = bare(own, metadata);
                            visit_stamps_what_is_shown(path, at, fresh, sub, target, level);
                            if stamped_below(path, after.dirs, after.dirs.len(), at) {
                                let j = below_in(path, after.dirs, after.dirs.len(), at);
                                if j < dir.dirs.len() {
                                    assert(after.dirs[j] == dir.dirs[j]);
                                    below_from(path, dir.dirs, dir.dirs.len(), j, at);
                                } else {
                                    if stamped(path, fresh, at) {
                                        assert(!file_stamped(path, fresh.files, at));
                                        assert(!link_stamped_at(path, fresh.links, at));
                                        assert(!stamped_below(path, fresh.dirs, 0, at));
                                    }
                                }
                            }
                        },
                    }
                },
            }
        },
        ScanKind::File(probe, content) => {
            match position(file_paths(dir.files), own) {
                Some(k) => {
                    position_is_first(file_paths(dir.files), own);
                    assert(file_paths(dir.files)[k] == own);
                    if file_stamped(path, after.files, at) {
                        let j = choose|j: int|
                            0 <= j < after.files.len() && (#[trigger] after.files[j]).path == path
                                && after.files[j].revision == at;
                        if j != k && after.files != dir.files {
                            assert(after.files[j] == dir.files[j]);
                        }
                    }
                },
                None => {
                    if file_stamped(path, after.files, at) {
                        let j = choose|j: int|
                            0 <= j < after.files.len() && (#[trigger] after.files[j]).path == path
                                && after.files[j].revision == at;
                        if j < dir.files.len() && after.files != dir.files {
                            assert(after.files[j] == dir.files[j]);
                        }
                    }
                },
            }
        },
        ScanKind::Symlink(probe) => {
            match position(link_paths(dir.links), own) {
                Some(k) => {
                    position_is_first(link_paths(dir.links), own);
                    assert(link_paths(dir.links)[k] == own);
                    if link_stamped_at(path, after.links, at) {
                        let j = choose|j: int|
                            0 <= j < after.links.len() && (#[trigger] after.links[j]).path == path
                                && after.links[j].revision == at;
                        if j != k && after.links != dir.links {
                            assert(after.links[j] == dir.links[j]);
                        }
                    }
                },
                None => {
                    if link_stamped_at(path, after.links, at) {
                        let j = choose|j: int|
                            0 <= j < after.links.len() && (#[trigger] after.links[j]).path == path
                                && after.links[j].revision == at;
                        if j < dir.links.len() && after.links != dir.links {
                            assert(after.links[j] == dir.links[j]);
                        }
                    }
                },
            }
        },
        ScanKind::Other => {},
        ScanKind::Unlisted => {},
    }
}

/// Every entry that the first `n` file records give lies at the path of a
/// record that bears the target revision.
pub proof fn kept_files_are_stamped(files: Seq<FileModel>, n: nat, target: Revision, i: int)
    requires
        n <= files.len(),
        0 <= i < kept_files(files, n, target).len(),
    ensures
        file_stamped(kept_files(files, n, target)[i].path, files, target),
    decreases n,
{
    let before = kept_files(files, (n - 1) as nat, target);
    if i < before.len() {
        kept_files_are_stamped(files, (n - 1) as nat, target, i);
    } else {
        assert(files[n - 1].revision == target);
    }
}

/// Every entry that the first `n` link records give lies at the path of a
/// record that bears the target revision.
pub proof fn kept_links_are_stamped(links: Seq<LinkModel>, n: nat, target: Revision, i: int)
    requires
        n <= links.len(),
        0 <= i < kept_links(links, n, target).len(),
    ensures
        link_stamped_at(kept_links(links, n, target)[i].path, links, target),
    decreases n,
{
    let before = kept_links(links, (n - 1) as nat, target);
    if i < before.len() {
        kept_links_are_stamped(links, (n - 1) as nat, target, i);
    } else {
        assert(links[n - 1].revision == target);
    }
}

/// Every entry that a tree compiles to lies at a path where something
/// cached bears the target revision.
pub proof fn compiled_is_stamped(dir: DirModel, target: Revision, i: int)
    requires
        0 <= i < compiled(dir, target).len(),
    ensures
        stamped(compiled(dir, target)[i].path, dir, target),
    decreases dir, 0nat,
{
    let files = kept_files(dir.files, dir.files.len(), target);
    let below = compiled_dirs(dir.dirs, dir.dirs.len(), target);
    let links = kept_links(dir.links, dir.links.len(), target);
    if i == 0 {
    } else if i < 1 + files.len() {
        kept_files_are_stamped(dir.files, dir.files.len(), target, i - 1);
    } else if i < 1 + files.len() + below.len() {
        compiled_dirs_are_stamped(dir.dirs, dir.dirs.len(), target, i - 1 - files.len());
    } else {
        kept_links_are_stamped(dir.links, dir.links.len(), target, i - 1 - files.len() - below.len());
    }
}

/// Every entry that the first `n` sub-directories compile to lies at a path
/// where something cached below bears the target revision.
pub proof fn compiled_dirs_are_stamped(dirs: Seq<DirModel>, n: nat, target: Revision, i: int)
    requires
        n <= dirs.len(),
        0 <= i < compiled_dirs(dirs, n, target).len(),
    ensures
        stamped_below(compiled_dirs(dirs, n, target)[i].path, dirs, n, target),
    decreases dirs, n,
{
    let before = compiled_dirs(dirs, (n - 1) as nat, target);
    if i < before.len() {
        compiled_dirs_are_stamped(dirs, (n - 1) as nat, target, i);
    } else {
        compiled_is_stamped(dirs[n - 1], target, i - before.len());
    }
}

/// Whatever a pass compiles to was shown by its scan, provided nothing in
/// the cache bore the pass's revision before: what was cached earlier and is
/// no longer listed, such as a file deleted since, is left out.
pub proof fn compiled_is_shown(dir: DirModel, scan: DirScan, target: Revision, level: i32, i: int)
    requires
        unstamped(dir, target),
        0 <= i < compiled(visited(dir, scan, target, level).state, target).len(),
    ensures
        shown(compiled(visited(dir, scan, target, level).state, target)[i].path, dir.origin, scan),
{
    let after = visited(dir, scan, target, level).state;
    let path = compiled(after, target)[i].path;
    compiled_is_stamped(after, target, i);
    visit_stamps_what_is_shown(path, target, dir, scan, target, level);
    if stamped(path, dir, target) {
        assert(path == dir.origin);
    }
}

/// A node with nothing cached below it and no pass behind it is unstamped.
pub proof fn bare_is_unstamped(origin: Seq<Seq<char>>, metadata: Metadata, target: Revision)
    ensures
        unstamped(bare(origin, metadata), target),
{
    let dir = bare(origin, metadata);
    assert forall|path: Seq<Seq<char>>| stamped(path, dir, target) implies path == dir.origin by {
        assert(!file_stamped(path, dir.files, target));
        assert(!link_stamped_at(path, dir.links, target));
        assert(!stamped_below(path, dir.dirs, 0, target));
    }
}

/// Whatever a scan shows lies at or below the directory it is a scan of.
pub proof fn shown_lies_inside(path: Seq<Seq<char>>, origin: Seq<Seq<char>>, scan: DirScan)
    requires
        shown(path, origin, scan),
    ensures
        origin.is_prefix_of(path),
    decreases scan, 0nat,
{
    if path != origin {
        match scan.listing {
            Listing::Entries(entries) => {
                shown_among_lies_inside(path, origin, entries@, entries@.len());
            },
            _ => {},
        }
    }
}

/// Whatever the first `n` entries of a listing show lies below the directory listed.
pub proof fn shown_among_lies_inside(
    path: Seq<Seq<char>>,
    origin: Seq<Seq<char>>,
    entries: Seq<ScanEntry>,
    n: nat,
)
    requires
        shown_among(path, origin, entries, n),
    ensures
        origin.is_prefix_of(path),
    decreases entries, n,
{
    assert(n > 0 && n <= entries.len());
    if shown_among(path, origin, entries, (n - 1) as nat) {
        shown_among_lies_inside(path, origin, entries, (n - 1) as nat);
    } else {
        let entry = entries[n - 1];
        let own = origin.push(entry.name@);
        assert(shown_by(path, origin, entry));
        assert(origin.is_prefix_of(own)) by {
            assert(own.subrange(0, origin.len() as int) =~= origin);
        }
        match entry.kind {
            ScanKind::Directory(sub) => {
                shown_lies_inside(path, own, sub);
                assert(origin =~= path.subrange(0, origin.len() as int)) by {
                    assert(own =~= path.subrange(0, own.len() as int));
                    assert forall|k: int| 0 <= k < origin.len() implies origin[k] == path.subrange(
                        0,
                        origin.len() as int,
                    )[k] by {
                        assert(own[k] == path.subrange(0, own.len() as int)[k]);
                    }
                }
            },
            _ => {},
        }
    }
}

/// Whether everything cached in the tree of `dir` lies at or below the
/// directory of `dir`.
pub open spec fn rooted(dir: DirModel) -> bool {
    forall|path: Seq<Seq<char>>, at: Revision|
        stamped(path, dir, at) ==> dir.origin.is_prefix_of(path)
}

/// A node with nothing cached below it is rooted.
pub proof fn bare_is_rooted(origin: Seq<Seq<char>>, metadata: Metadata)
    ensures
        rooted(bare(origin, metadata)),
{
    let dir = bare(origin, metadata);
    assert forall|path: Seq<Seq<char>>, at: Revision| stamped(path, dir, at) implies dir.origin.is_prefix_of(
        path,
    ) by {
        assert(!file_stamped(path, dir.files, at));
        assert(!link_stamped_at(path, dir.links, at));
        assert(!stamped_below(path, dir.dirs, 0, at));
        assert(path.subrange(0, path.len() as int) =~= path);
    }
}

/// A visit caches nothing outside the directory it visits.
pub proof fn visit_keeps_rooted(dir: DirModel, scan: DirScan, target: Revision, level: i32)
    requires
        rooted(dir),
    ensures
        rooted(visited(dir, scan, target, level).state),
{
    let after = visited(dir, scan, target, level).state;
    assert forall|path: Seq<Seq<char>>, at: Revision| stamped(path, after, at) implies after.origin.is_prefix_of(
        path,
    ) by {
        visit_stamps_what_is_shown(path, at, dir, scan, target, level);
        if !stamped(path, dir, at) {
            shown_lies_inside(path, dir.origin, scan);
        }
    }
}

/// Whatever a rooted tree compiles to lies at or below its root: the flat
/// list of a snapshot is one that an archive of that root can be written
/// from.
pub proof fn compiled_lies_inside(dir: DirModel, target: Revision)
    requires
        rooted(dir),
    ensures
        all_inside(dir.origin, compiled(dir, target)),
{
    let entries = compiled(dir, target);
    assert forall|i: int| 0 <= i < entries.len() implies dir.origin.is_prefix_of(
        #[trigger] entries[i].path,
    ) by {
        compiled_is_stamped(dir, target, i);
    }
}

/// Whether no record in the tree of `dir` bears a revision after `limit`.
pub open spec fn bounded(dir: DirModel, limit: Revision) -> bool {
    forall|path: Seq<Seq<char>>, at: Revision| stamped(path, dir, at) ==> at.nanos <= limit.nanos
}

/// A visit stamps with its own revision only: a tree whose stamps lie at or
/// before that revision is left with such stamps.
pub proof fn visit_keeps_bounded(
    dir: DirModel,
    scan: DirScan,
    target: Revision,
    level: i32,
    limit: Revision,
)
    requires
        bounded(dir, limit),
        limit.nanos <= target.nanos,
    ensures
        bounded(visited(dir, scan, target, level).state, target),
{
    let after = visited(dir, scan, target, level).state;
    assert forall|path: Seq<Seq<char>>, at: Revision| stamped(path, after, at) implies at.nanos
        <= target.nanos by {
        visit_stamps_what_is_shown(path, at, dir, scan, target, level);
    }
}

/// A tree whose stamps all lie before `target` holds nothing that bears `target`.
pub proof fn earlier_is_unstamped(dir: DirModel, limit: Revision, target: Revision)
    requires
        bounded(dir, limit),
        limit.nanos < target.nanos,
    ensures
        unstamped(dir, target),
        bounded(dir, target),
{
}

/// A node with nothing cached below it and no pass behind it bears no
/// revision at all.
pub proof fn bare_is_bounded(origin: Seq<Seq<char>>, metadata: Metadata, limit: Revision)
    ensures
        bounded(bare(origin, metadata), limit),
{
    let dir = bare(origin, metadata);
    assert forall|path: Seq<Seq<char>>, at: Revision| stamped(path, dir, at) implies at.nanos
        <= limit.nanos by {
        assert(!file_stamped(path, dir.files, at));
        assert(!link_stamped_at(path, dir.links, at));
        assert(!stamped_below(path, dir.dirs, 0, at));
    }
}

} // verus!
