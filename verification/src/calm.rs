use vstd::prelude::*;
use crate::file::{encoded, file_created, file_visited, unchanged_since};
use crate::metadata::fenced;
use crate::model::{
    bare, dir_paths, entered, file_paths, first_at, position, position_absent, position_found,
    position_is_first, visited, walked, DirModel,
};
use crate::confirm::visit_stamps_all_shown;
use crate::quiet::{distinct_names, quiet, quiet_entries, quiet_entry};
use crate::revision::Revision;
use crate::scan::{DirScan, Listing, ScanEntry, ScanKind};
use crate::stamps::{shown, stamped, visit_stamps_what_is_shown};
use crate::symlink::link_stamped;
use crate::unique::least_holder;

verus! {

/// Whether a pass at `target` over what `scan` observed meets nothing that
/// fails it, going by what `dir` has cached: the directory's probe passes the
/// fence, its listing was read and names nothing twice, and each entry is
/// calm in turn.
pub open spec fn calm(dir: DirModel, scan: DirScan, target: Revision, level: i32) -> bool
    decreases scan, 0nat,
{
    &&& fenced(scan.probe, target) is Ok
    &&& match scan.listing {
        Listing::Entries(entries) => distinct_names(entries@) && calm_entries(
            dir,
            entries@,
            entries@.len(),
            target,
            level,
        ),
        _ => false,
    }
}

/// Whether each of the first `n` of `entries` is calm.
pub open spec fn calm_entries(
    dir: DirModel,
    entries: Seq<ScanEntry>,
    n: nat,
    target: Revision,
    level: i32,
) -> bool
    decreases entries, n,
{
    n == 0 || n > entries.len() || (calm_entries(dir, entries, (n - 1) as nat, target, level)
        && calm_entry(dir, entries[n - 1], target, level))
}

/// Whether `entry` is calm.
///
/// A file's probe passes the fence, and its content either can be compressed
/// or is not needed, because `dir` holds a record of the file since which it
/// is unchanged. A link's metadata was read. A sub-directory is calm in turn,
/// going by the node cached for it or, where there is none, by a node with
/// nothing cached. The entry itself could be read from the listing.
pub open spec fn calm_entry(dir: DirModel, entry: ScanEntry, target: Revision, level: i32) -> bool
    decreases entry, 0nat,
{
    let path = dir.origin.push(entry.name@);
    match entry.kind {
        ScanKind::Directory(sub) => match position(dir_paths(dir.dirs), path) {
            Some(k) => calm(dir.dirs[k], sub, target, level),
            None => fenced(sub.probe, target) is Ok && calm(
                bare(path, fenced(sub.probe, target)->Ok_0),
                sub,
                target,
                level,
            ),
        },
        ScanKind::File(probe, content) => fenced(probe, target) is Ok && (encoded(content, level) is Ok
            || (position(file_paths(dir.files), path) matches Some(k) && unchanged_since(
            fenced(probe, target)->Ok_0.modified,
            dir.files[k].revision,
        ))),
        ScanKind::Symlink(probe) => probe is Found,
        ScanKind::Other => true,
        ScanKind::Unlisted => false,
    }
}

/// A path keeps its position where paths are only added that differ from it.
pub proof fn position_kept(a: Seq<Seq<Seq<char>>>, b: Seq<Seq<Seq<char>>>, path: Seq<Seq<char>>)
    requires
        a.len() <= b.len(),
        forall|i: int| 0 <= i < a.len() ==> a[i] == b[i],
        forall|i: int| a.len() <= i < b.len() ==> b[i] != path,
    ensures
        position(b, path) == position(a, path),
{
    if position(a, path) is Some {
        position_is_first(a, path);
        let k = position(a, path)->Some_0;
        assert(first_at(b, path, k));
        position_found(b, path, k);
    } else {
        assert forall|i: int| 0 <= i < b.len() implies b[i] != path by {
            if i < a.len() && a[i] == path {
                least_holder(a, path, i);
            }
        }
        position_absent(b, path);
    }
}

/// What is cached under `path` after an entry of another name was dealt with
/// is what was cached under it before.
pub open spec fn untouched(path: Seq<Seq<char>>, before: DirModel, after: DirModel) -> bool {
    &&& after.origin == before.origin
    &&& position(file_paths(after.files), path) == position(file_paths(before.files), path)
    &&& position(file_paths(before.files), path) matches Some(k) ==> after.files[k]
        == before.files[k]
    &&& position(dir_paths(after.dirs), path) == position(dir_paths(before.dirs), path)
    &&& position(dir_paths(before.dirs), path) matches Some(k) ==> after.dirs[k] == before.dirs[k]
}

/// Dealing with an entry leaves alone what is cached under the path of any
/// other name.
pub proof fn other_entry_leaves_untouched(
    path: Seq<Seq<char>>,
    dir: DirModel,
    entry: ScanEntry,
    target: Revision,
    level: i32,
)
    requires
        path != dir.origin.push(entry.name@),
    ensures
        untouched(path, dir, entered(dir, entry, target, level).state),
{
    let own = dir.origin.push(entry.name@);
    let after = entered(dir, entry, target, level).state;
    match entry.kind {
        ScanKind::Directory(sub) => {
            match position(dir_paths(dir.dirs), own) {
                Some(k) => {
                    position_is_first(dir_paths(dir.dirs), own);
                    visit_stamps_what_is_shown(path, target, dir.dirs[k], sub, target, level);
                    assert(dir_paths(after.dirs) =~= dir_paths(dir.dirs));
                    if position(dir_paths(dir.dirs), path) is Some {
                        position_is_first(dir_paths(dir.dirs), path);
                    }
                },
                None => {
                    if fenced(sub.probe, target) is Ok {
                        let fresh = bare(own, fenced(sub.probe, target)->Ok_0);
                        visit_stamps_what_is_shown(path, target, fresh, sub, target, level);
                        position_kept(dir_paths(dir.dirs), dir_paths(after.dirs), path);
                        if position(dir_paths(dir.dirs), path) is Some {
                            position_is_first(dir_paths(dir.dirs), path);
                        }
                    }
                },
            }
        },
        ScanKind::File(probe, content) => {
            match position(file_paths(dir.files), own) {
                Some(k) => {
                    position_is_first(file_paths(dir.files), own);
                    if file_visited(dir.files[k], probe, content, target, level) is Ok {
                        assert(file_paths(after.files) =~= file_paths(dir.files));
                    }
                    if position(file_paths(dir.files), path) is Some {
                        position_is_first(file_paths(dir.files), path);
                    }
                },
                None => {
                    if file_created(own, probe, content, target, level) is Ok {
                        position_kept(file_paths(dir.files), file_paths(after.files), path);
                    }
                    if position(file_paths(dir.files), path) is Some {
                        position_is_first(file_paths(dir.files), path);
                    }
                },
            }
        },
        _ => {},
    }
}

/// A walk over entries none of which bears the last name of `path` leaves
/// alone what is cached under `path`.
pub proof fn walk_leaves_untouched(
    path: Seq<Seq<char>>,
    dir: DirModel,
    entries: Seq<ScanEntry>,
    n: nat,
    target: Revision,
    level: i32,
)
    requires
        n <= entries.len(),
        forall|j: int| 0 <= j < n ==> path != dir.origin.push(#[trigger] entries[j].name@),
    ensures
        untouched(path, dir, walked(dir, entries, n, target, level).state),
    decreases n,
{
    if n > 0 {
        walk_leaves_untouched(path, dir, entries, (n - 1) as nat, target, level);
        let before = walked(dir, entries, (n - 1) as nat, target, level);
        if before.error is None {
            assert(path != dir.origin.push(entries[n - 1].name@));
            other_entry_leaves_untouched(path, before.state, entries[n - 1], target, level);
        }
    }
}

/// A calm pass goes through, whatever is cached: the visit fails nowhere, and
/// the node bears the revision of the pass afterwards.
pub proof fn calm_pass_converges(dir: DirModel, scan: DirScan, target: Revision, level: i32)
    requires
        calm(dir, scan, target, level),
    ensures
        visited(dir, scan, target, level).error is None,
        visited(dir, scan, target, level).state.revision == Some(target),
    decreases scan, 0nat,
{
    let metadata = fenced(scan.probe, target)->Ok_0;
    let seen = DirModel { metadata, ..dir };
    match scan.listing {
        Listing::Entries(entries) => {
            calm_for(dir, seen, entries@, entries@.len(), target, level);
            calm_walk_converges(seen, entries@, entries@.len(), target, level);
        },
        _ => {},
    }
}

/// Whether entries are calm does not depend on the node's own metadata.
proof fn calm_for(
    dir: DirModel,
    seen: DirModel,
    entries: Seq<ScanEntry>,
    n: nat,
    target: Revision,
    level: i32,
)
    requires
        n <= entries.len(),
        calm_entries(dir, entries, n, target, level),
        seen == (DirModel { metadata: seen.metadata, ..dir }),
    ensures
        calm_entries(seen, entries, n, target, level),
    decreases n,
{
    if n > 0 {
        calm_for(dir, seen, entries, (n - 1) as nat, target, level);
        assert(calm_entry(dir, entries[n - 1], target, level));
        assert(calm_entry(seen, entries[n - 1], target, level));
    }
}

/// A walk over calm entries fails nowhere.
pub proof fn calm_walk_converges(
    dir: DirModel,
    entries: Seq<ScanEntry>,
    n: nat,
    target: Revision,
    level: i32,
)
    requires
        n <= entries.len(),
        distinct_names(entries),
        calm_entries(dir, entries, n, target, level),
    ensures
        walked(dir, entries, n, target, level).error is None,
    decreases entries, n,
{
    if n > 0 {
        calm_walk_converges(dir, entries, (n - 1) as nat, target, level);
        let before = walked(dir, entries, (n - 1) as nat, target, level).state;
        let entry = entries[n - 1];
        let path = dir.origin.push(entry.name@);
        assert forall|j: int| 0 <= j < n - 1 implies path != dir.origin.push(
            #[trigger] entries[j].name@,
        ) by {
            assert(entries[j].name@ != entries[n - 1].name@);
            if path == dir.origin.push(entries[j].name@) {
                assert(dir.origin.push(entries[j].name@).last() == entries[j].name@);
                assert(path.last() == entry.name@);
            }
        }
        walk_leaves_untouched(path, dir, entries, (n - 1) as nat, target, level);
        assert(untouched(path, dir, before));
        assert(calm_entry(dir, entry, target, level));
        assert(walked(dir, entries, n, target, level) == entered(before, entry, target, level));
        match entry.kind {
            ScanKind::Directory(sub) => {
                match position(dir_paths(dir.dirs), path) {
                    Some(k) => {
                        calm_pass_converges(dir.dirs[k], sub, target, level);
                        assert(before.dirs[k] == dir.dirs[k]);
                    },
                    None => {
                        calm_pass_converges(
                            bare(path, fenced(sub.probe, target)->Ok_0),
                            sub,
                            target,
                            level,
                        );
                    },
                }
            },
            ScanKind::File(probe, content) => {
                match position(file_paths(dir.files), path) {
                    Some(k) => {
                        assert(before.files[k] == dir.files[k]);
                        assert(file_visited(before.files[k], probe, content, target, level) is Ok);
                    },
                    None => {
                        assert(encoded(content, level) is Ok);
                        assert(file_created(path, probe, content, target, level) is Ok);
                    },
                }
            },
            ScanKind::Symlink(probe) => {
                assert(link_stamped(path, probe, target) is Ok);
            },
            ScanKind::Other => {},
            ScanKind::Unlisted => {},
        }
    }
}

/// A calm pass confirms all that its scan shows, whatever is cached: the
/// visit goes through, the node bears the revision of the pass, and so does
/// everything shown at and below it, each sub-directory's node included.
pub proof fn calm_pass_confirms_what_is_shown(
    path: Seq<Seq<char>>,
    dir: DirModel,
    scan: DirScan,
    target: Revision,
    level: i32,
)
    requires
        calm(dir, scan, target, level),
        shown(path, dir.origin, scan),
    ensures
        visited(dir, scan, target, level).error is None,
        visited(dir, scan, target, level).state.revision == Some(target),
        stamped(path, visited(dir, scan, target, level).state, target),
{
    calm_pass_converges(dir, scan, target, level);
    visit_stamps_all_shown(path, dir, scan, target, level);
}

/// A scan that is quiet, with every file's content at hand, is calm whatever
/// is cached.
pub proof fn quiet_is_calm(dir: DirModel, scan: DirScan, target: Revision, level: i32)
    requires
        quiet(scan, target, level),
    ensures
        calm(dir, scan, target, level),
    decreases scan, 0nat,
{
    match scan.listing {
        Listing::Entries(entries) => {
            quiet_entries_are_calm(dir, entries@, entries@.len(), target, level);
        },
        _ => {},
    }
}

/// Entries that are quiet are calm whatever is cached.
pub proof fn quiet_entries_are_calm(
    dir: DirModel,
    entries: Seq<ScanEntry>,
    n: nat,
    target: Revision,
    level: i32,
)
    requires
        n <= entries.len(),
        quiet_entries(entries, n, target, level),
    ensures
        calm_entries(dir, entries, n, target, level),
    decreases entries, n,
{
    if n > 0 {
        quiet_entries_are_calm(dir, entries, (n - 1) as nat, target, level);
        let entry = entries[n - 1];
        assert(quiet_entry(entry, target, level));
        let path = dir.origin.push(entry.name@);
        match entry.kind {
            ScanKind::Directory(sub) => {
                assert(quiet(sub, target, level));
                match position(dir_paths(dir.dirs), path) {
                    Some(k) => {
                        quiet_is_calm(dir.dirs[k], sub, target, level);
                    },
                    None => {
                        quiet_is_calm(bare(path, fenced(sub.probe, target)->Ok_0), sub, target, level);
                    },
                }
            },
            _ => {},
        }
        assert(calm_entry(dir, entry, target, level));
    }
}

} // verus!
