use vstd::prelude::*;
use crate::file::{file_created, file_visited};
use crate::metadata::{fenced, Metadata};
use crate::model::{
    all_well_formed, bare, dir_paths, entered, file_paths, first_at, link_paths, listed,
    no_duplicates, position, position_is_first, visited, walked, DirModel,
};
use crate::revision::Revision;
use crate::scan::{DirScan, Listing, ScanEntry, ScanKind};
use crate::symlink::link_stamped;

verus! {

/// Each of the first `n` nodes of a well-formed sequence is well-formed.
pub proof fn well_formed_at(dirs: Seq<DirModel>, n: nat, k: int)
    requires
        n <= dirs.len(),
        all_well_formed(dirs, n),
        0 <= k < n,
    ensures
        dirs[k].well_formed(),
    decreases n,
{
    if k < n - 1 {
        well_formed_at(dirs, (n - 1) as nat, k);
    }
}

/// A sequence whose first `n` nodes are each well-formed is well-formed up to `n`.
pub proof fn well_formed_all(dirs: Seq<DirModel>, n: nat)
    requires
        n <= dirs.len(),
        forall|k: int| 0 <= k < n ==> (#[trigger] dirs[k]).well_formed(),
    ensures
        all_well_formed(dirs, n),
    decreases n,
{
    if n > 0 {
        well_formed_all(dirs, (n - 1) as nat);
    }
}

/// A node with nothing cached below it is well-formed.
pub proof fn bare_is_well_formed(origin: Seq<Seq<char>>, metadata: Metadata)
    ensures
        bare(origin, metadata).well_formed(),
{
}

/// A visit leaves a well-formed node well-formed, and where it is.
pub proof fn visit_keeps_well_formed(dir: DirModel, scan: DirScan, target: Revision, level: i32)
    requires
        dir.well_formed(),
    ensures
        visited(dir, scan, target, level).state.well_formed(),
        visited(dir, scan, target, level).state.origin == dir.origin,
    decreases scan, 0nat,
{
    match fenced(scan.probe, target) {
        Err(_) => {},
        Ok(metadata) => {
            let seen = DirModel { metadata, ..dir };
            assert(seen.well_formed());
            listing_keeps_well_formed(seen, scan.listing, target, level);
            let out = listed(seen, scan.listing, target, level);
            assert((DirModel { revision: Some(target), ..out.state }).well_formed());
        },
    }
}

/// Going through a listing leaves a well-formed node well-formed.
pub proof fn listing_keeps_well_formed(dir: DirModel, listing: Listing, target: Revision, level: i32)
    requires
        dir.well_formed(),
    ensures
        listed(dir, listing, target, level).state.well_formed(),
        listed(dir, listing, target, level).state.origin == dir.origin,
    decreases listing, 0nat,
{
    match listing {
        Listing::Entries(entries) => {
            walk_keeps_well_formed(dir, entries@, entries@.len(), target, level);
        },
        _ => {},
    }
}

/// A walk leaves a well-formed node well-formed.
pub proof fn walk_keeps_well_formed(
    dir: DirModel,
    entries: Seq<ScanEntry>,
    n: nat,
    target: Revision,
    level: i32,
)
    requires
        dir.well_formed(),
        n <= entries.len(),
    ensures
        walked(dir, entries, n, target, level).state.well_formed(),
        walked(dir, entries, n, target, level).state.origin == dir.origin,
    decreases entries, n,
{
    if n > 0 {
        walk_keeps_well_formed(dir, entries, (n - 1) as nat, target, level);
        let before = walked(dir, entries, (n - 1) as nat, target, level);
        if before.error is None {
            entry_keeps_well_formed(before.state, entries[n - 1], target, level);
        }
    }
}

/// Dealing with one entry leaves a well-formed node well-formed: a record is
/// added only under a path that has none yet, and a record that is brought
/// up to date stays under its path.
pub proof fn entry_keeps_well_formed(dir: DirModel, entry: ScanEntry, target: Revision, level: i32)
    requires
        dir.well_formed(),
    ensures
        entered(dir, entry, target, level).state.well_formed(),
        entered(dir, entry, target, level).state.origin == dir.origin,
    decreases entry, 0nat,
{
    let own = dir.origin.push(entry.name@);
    let after = entered(dir, entry, target, level).state;
    match entry.kind {
        ScanKind::Directory(sub) => {
            match position(dir_paths(dir.dirs), own) {
                Some(k) => {
                    position_is_first(dir_paths(dir.dirs), own);
                    well_formed_at(dir.dirs, dir.dirs.len(), k);
                    visit_keeps_well_formed(dir.dirs[k], sub, target, level);
                    assert(dir_paths(after.dirs) =~= dir_paths(dir.dirs));
                    assert forall|j: int| 0 <= j < after.dirs.len() implies (#[trigger] after.dirs[j]).well_formed() by {
                        if j != k {
                            well_formed_at(dir.dirs, dir.dirs.len(), j);
                        }
                    }
                    well_formed_all(after.dirs, after.dirs.len());
                },
                None => {
                    match fenced(sub.probe, target) {
                        Err(_) => {},
                        Ok(metadata) => {
                            let fresh = bare(own, metadata);
                            visit_keeps_well_formed(fresh, sub, target, level);
                            assert(dir_paths(after.dirs) =~= dir_paths(dir.dirs).push(own));
                            added_is_no_duplicate(dir_paths(dir.dirs), own);
                            assert forall|j: int| 0 <= j < after.dirs.len() implies (#[trigger] after.dirs[j]).well_formed() by {
                                if j < dir.dirs.len() {
                                    well_formed_at(dir.dirs, dir.dirs.len(), j);
                                }
                            }
                            well_formed_all(after.dirs, after.dirs.len());
                        },
                    }
                },
            }
        },
        ScanKind::File(probe, content) => {
            match position(file_paths(dir.files), own) {
                Some(k) => {
                    position_is_first(file_paths(dir.files), own);
                    if file_visited(dir.files[k], probe, content, target, level) is Ok {
                        assert(file_paths(after.files) =~= file_paths(dir.files));
                    }
                },
                None => {
                    if file_created(own, probe, content, target, level) is Ok {
                        assert(file_paths(after.files) =~= file_paths(dir.files).push(own));
                        added_is_no_duplicate(file_paths(dir.files), own);
                    }
                },
            }
        },
        ScanKind::Symlink(probe) => {
            if link_stamped(own, probe, target) is Ok {
                match position(link_paths(dir.links), own) {
                    Some(k) => {
                        position_is_first(link_paths(dir.links), own);
                        assert(link_paths(after.links) =~= link_paths(dir.links));
                    },
                    None => {
                        assert(link_paths(after.links) =~= link_paths(dir.links).push(own));
                        added_is_no_duplicate(link_paths(dir.links), own);
                    },
                }
            }
        },
        ScanKind::Other => {},
        ScanKind::Unlisted => {},
    }
}

/// A path that has no position among paths without duplicates can be added
/// without making one.
pub proof fn added_is_no_duplicate(paths: Seq<Seq<Seq<char>>>, path: Seq<Seq<char>>)
    requires
        no_duplicates(paths),
        position(paths, path) is None,
    ensures
        no_duplicates(paths.push(path)),
{
    let all = paths.push(path);
    assert forall|i: int, j: int| 0 <= i < j < all.len() implies all[i] != all[j] by {
        if j == paths.len() {
            if all[i] == path {
                least_holder(paths, path, i);
            }
        }
    }
}

/// A path that some place of `paths` holds has a position.
pub proof fn least_holder(paths: Seq<Seq<Seq<char>>>, path: Seq<Seq<char>>, i: int)
    requires
        0 <= i < paths.len(),
        paths[i] == path,
    ensures
        position(paths, path) is Some,
    decreases i,
{
    if exists|k: int| 0 <= k < i && paths[k] == path {
        let k = choose|k: int| 0 <= k < i && paths[k] == path;
        least_holder(paths, path, k);
    } else {
        assert(first_at(paths, path, i));
    }
}

} // verus!
