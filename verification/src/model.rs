use vstd::prelude::*;
use crate::error::CaptureError;
use crate::file::{file_created, file_visited, FileModel};
use crate::metadata::{fenced, Metadata};
use crate::revision::Revision;
use crate::scan::{DirScan, Listing, ScanEntry, ScanKind};
use crate::symlink::{link_stamped, LinkModel};

verus! {

/// A directory node with everything cached below it, as a mathematical value.
///
/// The revision is that of the last pass that went through the node's whole
/// listing without failure, if there was one.
pub ghost struct DirModel {
    pub origin: Seq<Seq<char>>,
    pub metadata: Metadata,
    pub revision: Option<Revision>,
    pub files: Seq<FileModel>,
    pub dirs: Seq<DirModel>,
    pub links: Seq<LinkModel>,
}

/// Where a pass over a directory left its node, and why it stopped early if it did.
pub ghost struct DirOutcome {
    pub state: DirModel,
    pub error: Option<CaptureError>,
}

/// Whether `i` is the first place of `paths` that holds `path`.
pub open spec fn first_at(paths: Seq<Seq<Seq<char>>>, path: Seq<Seq<char>>, i: int) -> bool {
    &&& 0 <= i < paths.len()
    &&& paths[i] == path
    &&& forall|k: int| 0 <= k < i ==> paths[k] != path
}

/// The first place of `paths` that holds `path`, if any does.
pub open spec fn position(paths: Seq<Seq<Seq<char>>>, path: Seq<Seq<char>>) -> Option<int> {
    if exists|i: int| first_at(paths, path, i) {
        Some(choose|i: int| first_at(paths, path, i))
    } else {
        None
    }
}

/// The paths of `files`, place by place.
pub open spec fn file_paths(files: Seq<FileModel>) -> Seq<Seq<Seq<char>>> {
    Seq::new(files.len(), |i: int| files[i].path)
}

/// The paths of `dirs`, place by place.
pub open spec fn dir_paths(dirs: Seq<DirModel>) -> Seq<Seq<Seq<char>>> {
    Seq::new(dirs.len(), |i: int| dirs[i].origin)
}

/// The paths of `links`, place by place.
pub open spec fn link_paths(links: Seq<LinkModel>) -> Seq<Seq<Seq<char>>> {
    Seq::new(links.len(), |i: int| links[i].path)
}

/// Whether no path occurs twice in `paths`.
pub open spec fn no_duplicates(paths: Seq<Seq<Seq<char>>>) -> bool {
    forall|i: int, j: int| 0 <= i < j < paths.len() ==> paths[i] != paths[j]
}

impl DirModel {
    /// Whether the node and every node below it hold at most one record
    /// under each path: one file, one sub-directory, one link.
    pub open spec fn well_formed(self) -> bool
        decreases self, 0nat,
    {
        &&& no_duplicates(file_paths(self.files))
        &&& no_duplicates(dir_paths(self.dirs))
        &&& no_duplicates(link_paths(self.links))
        &&& all_well_formed(self.dirs, self.dirs.len())
    }
}

/// Whether each of the first `n` of `dirs` is well-formed.
pub open spec fn all_well_formed(dirs: Seq<DirModel>, n: nat) -> bool
    decreases dirs, n,
{
    n == 0 || n > dirs.len() || (all_well_formed(dirs, (n - 1) as nat) && dirs[n - 1].well_formed())
}

/// A node for the directory at `origin` with nothing cached below it and no
/// pass behind it.
pub open spec fn bare(origin: Seq<Seq<char>>, metadata: Metadata) -> DirModel {
    DirModel {
        origin,
        metadata,
        revision: None,
        files: Seq::empty(),
        dirs: Seq::empty(),
        links: Seq::empty(),
    }
}

/// The node `dir` after a visit at `target` that observed `scan`.
///
/// The directory's own probe is held against the fence first. Then the
/// listing is gone through; only if that ends without failure is the node
/// stamped with `target`.
pub open spec fn visited(dir: DirModel, scan: DirScan, target: Revision, level: i32) -> DirOutcome
    decreases scan, 0nat,
{
    match fenced(scan.probe, target) {
        Err(e) => DirOutcome { state: dir, error: Some(e) },
        Ok(metadata) => {
            let out = listed(DirModel { metadata, ..dir }, scan.listing, target, level);
            if out.error is None {
                DirOutcome { state: DirModel { revision: Some(target), ..out.state }, error: None }
            } else {
                out
            }
        },
    }
}

/// The node `dir` after its listing was gone through: a listing that could
/// not be read fails the pass, as a deletion if the directory is gone and as
/// an I/O failure if it is still there.
pub open spec fn listed(dir: DirModel, listing: Listing, target: Revision, level: i32) -> DirOutcome
    decreases listing, 0nat,
{
    match listing {
        Listing::Vanished => DirOutcome { state: dir, error: Some(CaptureError::ConcurrentDeletion) },
        Listing::Unreadable => DirOutcome { state: dir, error: Some(CaptureError::IoFailure) },
        Listing::Entries(entries) => walked(dir, entries@, entries@.len(), target, level),
    }
}

/// The node `dir` after the first `n` of `entries` were gone through in
/// order, stopping at the first that fails.
pub open spec fn walked(
    dir: DirModel,
    entries: Seq<ScanEntry>,
    n: nat,
    target: Revision,
    level: i32,
) -> DirOutcome
    decreases entries, n,
{
    if n == 0 || n > entries.len() {
        DirOutcome { state: dir, error: None }
    } else {
        let before = walked(dir, entries, (n - 1) as nat, target, level);
        if before.error is Some {
            before
        } else {
            entered(before.state, entries[n - 1], target, level)
        }
    }
}

/// The node `dir` after one entry of its listing was dealt with.
///
/// The entry's path is the directory's own with the entry's name added. A
/// record cached under that path is brought up to `target`; where there is
/// none a new one is made and kept. A sub-directory met for the first time
/// gets a node with no pass behind it, which is visited like any other and
/// kept with whatever that visit got done, also where it failed.
/// An entry of another kind is passed over, and one that could not be read
/// from the listing fails the pass as a concurrent modification.
pub open spec fn entered(dir: DirModel, entry: ScanEntry, target: Revision, level: i32) -> DirOutcome
    decreases entry, 0nat,
{
    let path = dir.origin.push(entry.name@);
    match entry.kind {
        ScanKind::Directory(sub) => match position(dir_paths(dir.dirs), path) {
            Some(k) => {
                let out = visited(dir.dirs[k], sub, target, level);
                DirOutcome {
                    state: DirModel { dirs: dir.dirs.update(k, out.state), ..dir },
                    error: out.error,
                }
            },
            None => match fenced(sub.probe, target) {
                Err(e) => DirOutcome { state: dir, error: Some(e) },
                Ok(metadata) => {
                    let out = visited(bare(path, metadata), sub, target, level);
                    DirOutcome {
                        state: DirModel { dirs: dir.dirs.push(out.state), ..dir },
                        error: out.error,
                    }
                },
            },
        },
        ScanKind::File(probe, content) => match position(file_paths(dir.files), path) {
            Some(k) => match file_visited(dir.files[k], probe, content, target, level) {
                Ok(file) => DirOutcome {
                    state: DirModel { files: dir.files.update(k, file), ..dir },
                    error: None,
                },
                Err(e) => DirOutcome { state: dir, error: Some(e) },
            },
            None => match file_created(path, probe, content, target, level) {
                Ok(file) => DirOutcome {
                    state: DirModel { files: dir.files.push(file), ..dir },
                    error: None,
                },
                Err(e) => DirOutcome { state: dir, error: Some(e) },
            },
        },
        ScanKind::Symlink(probe) => match link_stamped(path, probe, target) {
            Ok(link) => match position(link_paths(dir.links), path) {
                Some(k) => DirOutcome {
                    state: DirModel { links: dir.links.update(k, link), ..dir },
                    error: None,
                },
                None => DirOutcome {
                    state: DirModel { links: dir.links.push(link), ..dir },
                    error: None,
                },
            },
            Err(e) => DirOutcome { state: dir, error: Some(e) },
        },
        ScanKind::Other => DirOutcome { state: dir, error: None },
        ScanKind::Unlisted => DirOutcome {
            state: dir,
            error: Some(CaptureError::ConcurrentModification),
        },
    }
}

/// If `i` is the first place of `paths` that holds `path`, it is the position of `path`.
pub proof fn position_found(paths: Seq<Seq<Seq<char>>>, path: Seq<Seq<char>>, i: int)
    requires
        first_at(paths, path, i),
    ensures
        position(paths, path) == Some(i),
{
    let j = choose|j: int| first_at(paths, path, j);
    assert(first_at(paths, path, j));
    if j < i {
        assert(paths[j] != path);
    }
    if i < j {
        assert(paths[i] != path);
    }
}

/// If no place of `paths` holds `path`, `path` has no position.
pub proof fn position_absent(paths: Seq<Seq<Seq<char>>>, path: Seq<Seq<char>>)
    requires
        forall|k: int| 0 <= k < paths.len() ==> paths[k] != path,
    ensures
        position(paths, path) is None,
{
    if exists|i: int| first_at(paths, path, i) {
        let i = choose|i: int| first_at(paths, path, i);
        assert(paths[i] != path);
    }
}

/// The position of `path`, where it has one, is the first place that holds it.
pub proof fn position_is_first(paths: Seq<Seq<Seq<char>>>, path: Seq<Seq<char>>)
    requires
        position(paths, path) is Some,
    ensures
        first_at(paths, path, position(paths, path)->Some_0),
{
}

} // verus!
