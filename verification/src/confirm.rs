use vstd::prelude::*;
use crate::file::{file_created, file_visited};
use crate::metadata::fenced;
use crate::model::{
    bare, dir_paths, entered, file_paths, link_paths, listed, position, position_is_first, visited,
    walked, DirModel,
};
use crate::revision::Revision;
use crate::scan::{DirScan, Listing, ScanEntry, ScanKind};
use crate::stamps::{
    below_from, below_in, file_stamped, link_stamped_at, listing_stamps_what_is_shown, shown,
    shown_among, shown_by, stamped, stamped_below, unstamped, visit_stamps_what_is_shown,
    walk_stamps_what_is_shown,
};
use crate::symlink::link_stamped;

verus! {

/// What bears the revision of a visit before the visit bears it after.
pub proof fn visit_keeps_stamps(
    path: Seq<Seq<char>>,
    dir: DirModel,
    scan: DirScan,
    target: Revision,
    level: i32,
)
    requires
        stamped(path, dir, target),
    ensures
        stamped(path, visited(dir, scan, target, level).state, target),
    decreases scan, 0nat,
{
    match fenced(scan.probe, target) {
        Err(_) => {},
        Ok(metadata) => {
            let seen = DirModel { metadata, ..dir };
            assert(stamped(path, seen, target));
            listing_keeps_stamps(path, seen, scan.listing, target, level);
            listing_stamps_what_is_shown(path, target, seen, scan.listing, target, level);
        },
    }
}

/// What bears the revision of a pass before a listing is gone through bears it after.
pub proof fn listing_keeps_stamps(
    path: Seq<Seq<char>>,
    dir: DirModel,
    listing: Listing,
    target: Revision,
    level: i32,
)
    requires
        stamped(path, dir, target),
    ensures
        stamped(path, listed(dir, listing, target, level).state, target),
    decreases listing, 0nat,
{
    match listing {
        Listing::Entries(entries) => {
            walk_keeps_stamps(path, dir, entries@, entries@.len(), target, level);
        },
        _ => {},
    }
}

/// What bears the revision of a pass before a walk bears it after.
pub proof fn walk_keeps_stamps(
    path: Seq<Seq<char>>,
    dir: DirModel,
    entries: Seq<ScanEntry>,
    n: nat,
    target: Revision,
    level: i32,
)
    requires
        stamped(path, dir, target),
        n <= entries.len(),
    ensures
        stamped(path, walked(dir, entries, n, target, level).state, target),
    decreases entries, n,
{
    if n > 0 {
        walk_keeps_stamps(path, dir, entries, (n - 1) as nat, target, level);
        let before = walked(dir, entries, (n - 1) as nat, target, level);
        if before.error is None {
            entry_keeps_stamps(path, before.state, entries[n - 1], target, level);
        }
    }
}

/// What bears the revision of a pass before an entry is dealt with bears it after.
pub proof fn entry_keeps_stamps(
    path: Seq<Seq<char>>,
    dir: DirModel,
    entry: ScanEntry,
    target: Revision,
    level: i32,
)
    requires
        stamped(path, dir, target),
    ensures
        stamped(path, entered(dir, entry, target, level).state, target),
    decreases entry, 0nat,
{
    let own = dir.origin.push(entry.name@);
    let after = entered(dir, entry, target, level).state;
    match entry.kind {
        ScanKind::Directory(sub) => {
            match position(dir_paths(dir.dirs), own) {
                Some(k) => {
                    position_is_first(dir_paths(dir.dirs), own);
                    if stamped_below(path, dir.dirs, dir.dirs.len(), target) {
                        let j = below_in(path, dir.dirs, dir.dirs.len(), target);
                        if j != k {
                            assert(after.dirs[j] == dir.dirs[j]);
                        } else {
                            visit_keeps_stamps(path, dir.dirs[k], sub, target, level);
                        }
                        below_from(path, after.dirs, after.dirs.len(), j, target);
                    }
                },
                None => {
                    match fenced(sub.probe, target) {
                        Err(_) => {},
                        Ok(metadata) => {
                            if stamped_below(path, dir.dirs, dir.dirs.len(), target) {
                                let j = below_in(path, dir.dirs, dir.dirs.len(), target);
                                assert(after.dirs[j] == dir.dirs[j]);
                                below_from(path, after.dirs, after.dirs.len(), j, target);
                            }
                        },
                    }
                },
            }
        },
        ScanKind::File(probe, content) => {
            if file_stamped(path, dir.files, target) {
                let j = choose|j: int|
                    0 <= j < dir.files.len() && (#[trigger] dir.files[j]).path == path
                        && dir.files[j].revision == target;
                match position(file_paths(dir.files), own) {
                    Some(k) => {
                        position_is_first(file_paths(dir.files), own);
                        if file_visited(dir.files[k], probe, content, target, level) is Ok {
                            assert(after.files[j].path == path && after.files[j].revision == target);
                        }
                    },
                    None => {
                        if file_created(own, probe, content, target, level) is Ok {
                            assert(after.files[j] == dir.files[j]);
                        }
                    },
                }
            }
        },
        ScanKind::Symlink(probe) => {
            if link_stamped_at(path, dir.links, target) {
                let j = choose|j: int|
                    0 <= j < dir.links.len() && (#[trigger] dir.links[j]).path == path
                        && dir.links[j].revision == target;
                if link_stamped(own, probe, target) is Ok {
                    match position(link_paths(dir.links), own) {
                        Some(k) => {
                            position_is_first(link_paths(dir.links), own);
                            assert(link_paths(dir.links)[k] == own);
                            assert(after.links[j].path == path && after.links[j].revision == target);
                        },
                        None => {
                            assert(after.links[j] == dir.links[j]);
                        },
                    }
                }
            }
        },
        ScanKind::Other => {},
        ScanKind::Unlisted => {},
    }
}

/// A visit that goes through leaves everything that its scan shows stamped
/// with its revision.
pub proof fn visit_stamps_all_shown(
    path: Seq<Seq<char>>,
    dir: DirModel,
    scan: DirScan,
    target: Revision,
    level: i32,
)
    requires
        visited(dir, scan, target, level).error is None,
        shown(path, dir.origin, scan),
    ensures
        stamped(path, visited(dir, scan, target, level).state, target),
    decreases scan, 0nat,
{
    let metadata = fenced(scan.probe, target)->Ok_0;
    let seen = DirModel { metadata, ..dir };
    let out = listed(seen, scan.listing, target, level);
    listing_stamps_what_is_shown(path, target, seen, scan.listing, target, level);
    if path != dir.origin {
        listing_stamps_all_shown(path, seen, scan.listing, target, level);
        assert(stamped(path, out.state, target));
    }
}

/// A listing gone through without failure leaves everything that it shows
/// stamped with the revision of the pass.
pub proof fn listing_stamps_all_shown(
    path: Seq<Seq<char>>,
    dir: DirModel,
    listing: Listing,
    target: Revision,
    level: i32,
)
    requires
        listed(dir, listing, target, level).error is None,
        listing matches Listing::Entries(entries) && shown_among(
            path,
            dir.origin,
            entries@,
            entries@.len(),
        ),
    ensures
        stamped(path, listed(dir, listing, target, level).state, target),
    decreases listing, 0nat,
{
    match listing {
        Listing::Entries(entries) => {
            walk_stamps_all_shown(path, dir, entries@, entries@.len(), target, level);
        },
        _ => {},
    }
}

/// A walk without failure leaves everything that its entries show stamped
/// with the revision of the pass.
pub proof fn walk_stamps_all_shown(
    path: Seq<Seq<char>>,
    dir: DirModel,
    entries: Seq<ScanEntry>,
    n: nat,
    target: Revision,
    level: i32,
)
    requires
        n <= entries.len(),
        walked(dir, entries, n, target, level).error is None,
        shown_among(path, dir.origin, entries, n),
    ensures
        stamped(path, walked(dir, entries, n, target, level).state, target),
    decreases entries, n,
{
    let before = walked(dir, entries, (n - 1) as nat, target, level);
    walk_stamps_what_is_shown(path, target, dir, entries, (n - 1) as nat, target, level);
    if shown_among(path, dir.origin, entries, (n - 1) as nat) {
        walk_stamps_all_shown(path, dir, entries, (n - 1) as nat, target, level);
        entry_keeps_stamps(path, before.state, entries[n - 1], target, level);
    } else {
        entry_stamps_all_shown(path, before.state, entries[n - 1], target, level);
    }
}

/// An entry dealt with without failure leaves everything that it shows
/// stamped with the revision of the pass.
pub proof fn entry_stamps_all_shown(
    path: Seq<Seq<char>>,
    dir: DirModel,
    entry: ScanEntry,
    target: Revision,
    level: i32,
)
    requires
        entered(dir, entry, target, level).error is None,
        shown_by(path, dir.origin, entry),
    ensures
        stamped(path, entered(dir, entry, target, level).state, target),
    decreases entry, 0nat,
{
    let own = dir.origin.push(entry.name@);
    let after = entered(dir, entry, target, level).state;
    match entry.kind {
        ScanKind::Directory(sub) => {
            match position(dir_paths(dir.dirs), own) {
                Some(k) => {
                    position_is_first(dir_paths(dir.dirs), own);
                    assert(dir_paths(dir.dirs)[k] == own);
                    visit_stamps_all_shown(path, dir.dirs[k], sub, target, level);
                    below_from(path, after.dirs, after.dirs.len(), k, target);
                },
                None => {
                    let metadata = fenced(sub.probe, target)->Ok_0;
                    let fresh = bare(own, metadata);
                    visit_stamps_what_is_shown(path, target, fresh, sub, target, level);
                    visit_stamps_all_shown(path, fresh, sub, target, level);
                    below_from(path, after.dirs, after.dirs.len(), dir.dirs.len() as int, target);
                },
            }
        },
        ScanKind::File(probe, content) => {
            match position(file_paths(dir.files), own) {
                Some(k) => {
                    position_is_first(file_paths(dir.files), own);
                    assert(file_paths(dir.files)[k] == own);
                    assert(after.files[k].path == path && after.files[k].revision == target);
                },
                None => {
                    let last = dir.files.len() as int;
                    assert(after.files[last].path == path && after.files[last].revision == target);
                },
            }
        },
        ScanKind::Symlink(probe) => {
            match position(link_paths(dir.links), own) {
                Some(k) => {
                    position_is_first(link_paths(dir.links), own);
                    assert(after.links[k].path == path && after.links[k].revision == target);
                },
                None => {
                    let last = dir.links.len() as int;
                    assert(after.links[last].path == path && after.links[last].revision == target);
                },
            }
        },
        ScanKind::Other => {},
        ScanKind::Unlisted => {},
    }
}

/// After a pass that goes through, over a tree in which nothing below the
/// root bore the pass's revision before, the paths that bear that revision
/// are exactly the paths that the scan shows: every object listed was
/// confirmed, and nothing else was.
pub proof fn converged_pass_confirms_what_is_shown(
    path: Seq<Seq<char>>,
    dir: DirModel,
    scan: DirScan,
    target: Revision,
    level: i32,
)
    requires
        unstamped(dir, target),
        visited(dir, scan, target, level).error is None,
    ensures
        stamped(path, visited(dir, scan, target, level).state, target) <==> shown(
            path,
            dir.origin,
            scan,
        ),
{
    visit_stamps_what_is_shown(path, target, dir, scan, target, level);
    if shown(path, dir.origin, scan) {
        visit_stamps_all_shown(path, dir, scan, target, level);
    }
}

} // verus!
