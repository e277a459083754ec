use vstd::prelude::*;
use crate::error::CaptureError;
use crate::file::WeakEntry;
use crate::metadata::{fenced, Metadata, Probe};
use crate::model::{
    bare, dir_paths, entered, file_paths, first_at, link_paths, listed, position, position_absent,
    position_found, visited, walked, DirModel,
};
use crate::path::TreePath;
use crate::revision::Revision;
use crate::scan::{DirScan, Listing, ScanEntry, ScanKind};
use crate::symlink::SymlinkEntry;
use crate::unique::{
    bare_is_well_formed, entry_keeps_well_formed, listing_keeps_well_formed,
    visit_keeps_well_formed,
};

verus! {

/// One directory of the tree being captured, with the records of everything
/// that was ever found in it. The records outlive a failed pass, so that the
/// next pass reads again only what has changed. The node's revision is that
/// of the last pass that went through its whole listing, if there was one.
#[derive(Debug)]
pub struct Visitor {
    pub origin: TreePath,
    pub metadata: Metadata,
    pub revision: Option<Revision>,
    pub entries: Vec<WeakEntry>,
    pub sub_visitors: Vec<Visitor>,
    pub links: Vec<SymlinkEntry>,
}

impl View for Visitor {
    type V = DirModel;

    open spec fn view(&self) -> DirModel {
        self.model()
    }
}

impl Visitor {
    /// The node and everything cached below it as a mathematical value.
    pub open spec fn model(&self) -> DirModel
        decreases self,
    {
        DirModel {
            origin: self.origin@,
            metadata: self.metadata,
            revision: self.revision,
            files: Seq::new(self.entries@.len(), |i: int| self.entries@[i]@),
            dirs: Seq::new(
                self.sub_visitors@.len(),
                |i: int|
                    if 0 <= i < self.sub_visitors@.len() {
                        self.sub_visitors@[i].model()
                    } else {
                        arbitrary()
                    },
            ),
            links: Seq::new(self.links@.len(), |i: int| self.links@[i]@),
        }
    }
}

/// What a pass reports for the way it ended.
pub open spec fn status(error: Option<CaptureError>) -> Result<(), CaptureError> {
    match error {
        None => Ok(()),
        Some(e) => Err(e),
    }
}

/// The place of a record as a machine index.
pub open spec fn place(i: Option<int>) -> Option<usize> {
    match i {
        Some(k) => Some(k as usize),
        None => None,
    }
}

/// What the view of a node holds, field by field.
pub proof fn view_unfolded(v: Visitor)
    ensures
        v@.origin == v.origin@,
        v@.metadata == v.metadata,
        v@.revision == v.revision,
        v@.files.len() == v.entries@.len(),
        v@.dirs.len() == v.sub_visitors@.len(),
        v@.links.len() == v.links@.len(),
        forall|i: int| 0 <= i < v.entries@.len() ==> v@.files[i] == v.entries@[i]@,
        forall|i: int| 0 <= i < v.sub_visitors@.len() ==> v@.dirs[i] == v.sub_visitors@[i]@,
        forall|i: int| 0 <= i < v.links@.len() ==> v@.links[i] == v.links@[i]@,
{
    reveal_with_fuel(Visitor::model, 2);
}

impl Visitor {
    /// A node for the directory at `path`, with nothing cached below it and
    /// no pass behind it, provided the directory's probe passes the fence at
    /// `revision`.
    pub fn create(path: TreePath, probe: &Probe, revision: Revision) -> (r: Result<
        Visitor,
        CaptureError,
    >)
        ensures
            match fenced(*probe, revision) {
                Ok(metadata) => r is Ok && r->Ok_0@ == bare(path@, metadata),
                Err(e) => r is Err && r->Err_0 == e,
            },
            r matches Ok(visitor) ==> visitor@.well_formed(),
    {
        match probe.fence(revision) {
            Ok(metadata) => {
                proof {
                    bare_is_well_formed(path@, metadata);
                }
                let visitor = Visitor {
                    origin: path,
                    metadata,
                    revision: None,
                    entries: Vec::new(),
                    sub_visitors: Vec::new(),
                    links: Vec::new(),
                };
                assert(visitor@.files =~= Seq::empty());
                assert(visitor@.dirs =~= Seq::empty());
                assert(visitor@.links =~= Seq::empty());
                Ok(visitor)
            },
            Err(e) => Err(e),
        }
    }

    /// The place of the file record cached under `path`, if there is one.
    pub fn find_entry(&self, path: &TreePath) -> (r: Option<usize>)
        ensures
            r == place(position(file_paths(self@.files), path@)),
            r matches Some(k) ==> first_at(file_paths(self@.files), path@, k as int),
            r matches Some(k) ==> k < self.entries@.len(),
    {
        let mut i: usize = 0;
        while i < self.entries.len()
            invariant
                i <= self.entries@.len(),
                forall|k: int| 0 <= k < i ==> file_paths(self@.files)[k] != path@,
            decreases self.entries@.len() - i,
        {
            if self.entries[i].path.same_as(path) {
                proof {
                    assert(first_at(file_paths(self@.files), path@, i as int));
                    position_found(file_paths(self@.files), path@, i as int);
                }
                return Some(i);
            }
            i = i + 1;
        }
        proof {
            position_absent(file_paths(self@.files), path@);
        }
        None
    }

    /// The place of the sub-directory node cached under `path`, if there is one.
    pub fn find_sub_visitor(&self, path: &TreePath) -> (r: Option<usize>)
        ensures
            r == place(position(dir_paths(self@.dirs), path@)),
            r matches Some(k) ==> first_at(dir_paths(self@.dirs), path@, k as int),
            r matches Some(k) ==> k < self.sub_visitors@.len(),
    {
        let mut i: usize = 0;
        while i < self.sub_visitors.len()
            invariant
                i <= self.sub_visitors@.len(),
                forall|k: int| 0 <= k < i ==> dir_paths(self@.dirs)[k] != path@,
            decreases self.sub_visitors@.len() - i,
        {
            proof {
                view_unfolded(*self);
                view_unfolded(self.sub_visitors@[i as int]);
            }
            if self.sub_visitors[i].origin.same_as(path) {
                proof {
                    assert(first_at(dir_paths(self@.dirs), path@, i as int));
                    position_found(dir_paths(self@.dirs), path@, i as int);
                }
                return Some(i);
            }
            i = i + 1;
        }
        proof {
            position_absent(dir_paths(self@.dirs), path@);
        }
        None
    }

    /// The place of the link record cached under `path`, if there is one.
    pub fn find_link(&self, path: &TreePath) -> (r: Option<usize>)
        ensures
            r == place(position(link_paths(self@.links), path@)),
            r matches Some(k) ==> first_at(link_paths(self@.links), path@, k as int),
            r matches Some(k) ==> k < self.links@.len(),
    {
        let mut i: usize = 0;
        while i < self.links.len()
            invariant
                i <= self.links@.len(),
                forall|k: int| 0 <= k < i ==> link_paths(self@.links)[k] != path@,
            decreases self.links@.len() - i,
        {
            if self.links[i].path.same_as(path) {
                proof {
                    assert(first_at(link_paths(self@.links), path@, i as int));
                    position_found(link_paths(self@.links), path@, i as int);
                }
                return Some(i);
            }
            i = i + 1;
        }
        proof {
            position_absent(link_paths(self@.links), path@);
        }
        None
    }
}

/// Once a pass has failed it stays where it is: going on to further entries
/// changes neither the node nor the failure.
pub proof fn walked_stays_failed(
    dir: DirModel,
    entries: Seq<ScanEntry>,
    n: nat,
    m: nat,
    target: Revision,
    level: i32,
)
    requires
        n <= m <= entries.len(),
        walked(dir, entries, n, target, level).error is Some,
    ensures
        walked(dir, entries, m, target, level) == walked(dir, entries, n, target, level),
    decreases m,
{
    if m > n {
        walked_stays_failed(dir, entries, n, (m - 1) as nat, target, level);
    }
}

/// Two nodes that differ at most in their own metadata and revision hold the
/// same records.
pub proof fn same_records(a: Visitor, b: Visitor)
    requires
        a.origin == b.origin,
        a.entries == b.entries,
        a.sub_visitors == b.sub_visitors,
        a.links == b.links,
    ensures
        a@ == (DirModel { metadata: a.metadata, revision: a.revision, ..b@ }),
{
    view_unfolded(a);
    view_unfolded(b);
    assert(a@.files =~= b@.files);
    assert(a@.dirs =~= b@.dirs);
    assert(a@.links =~= b@.links);
}

impl Visitor {
    /// Brings this node and everything below it up to `visit_revision`, going
    /// by what `scan` observed.
    ///
    /// The pass ends at the first failure; what was confirmed before it stays
    /// cached. Only a pass without failure stamps the node.
    pub fn visit(&mut self, scan: &DirScan, visit_revision: Revision, compression_level: i32) -> (r:
        Result<(), CaptureError>)
        ensures
            final(self)@ == visited(old(self)@, *scan, visit_revision, compression_level).state,
            r == status(visited(old(self)@, *scan, visit_revision, compression_level).error),
            old(self)@.well_formed() ==> final(self)@.well_formed(),
        decreases scan, 0nat,
    {
        proof {
            if old(self)@.well_formed() {
                visit_keeps_well_formed(old(self)@, *scan, visit_revision, compression_level);
            }
        }
        let metadata = match scan.probe.fence(visit_revision) {
            Ok(metadata) => metadata,
            Err(e) => { return Err(e); },
        };
        self.metadata = metadata;
        proof {
            same_records(*self, *old(self));
        }
        match self.fvisit(&scan.listing, visit_revision, compression_level) {
            Ok(()) => {
                let ghost before = *self;
                self.revision = Some(visit_revision);
                proof {
                    same_records(*self, before);
                }
                Ok(())
            },
            Err(e) => Err(e),
        }
    }

    /// Goes through `listing` entry by entry, in order, and ends at the first
    /// entry that fails.
    pub fn fvisit(&mut self, listing: &Listing, visit_revision: Revision, compression_level: i32) -> (r:
        Result<(), CaptureError>)
        ensures
            final(self)@ == listed(old(self)@, *listing, visit_revision, compression_level).state,
            r == status(listed(old(self)@, *listing, visit_revision, compression_level).error),
            old(self)@.well_formed() ==> final(self)@.well_formed(),
        decreases listing, 0nat,
    {
        proof {
            if old(self)@.well_formed() {
                listing_keeps_well_formed(old(self)@, *listing, visit_revision, compression_level);
            }
        }
        match listing {
            Listing::Vanished => Err(CaptureError::ConcurrentDeletion),
            Listing::Unreadable => Err(CaptureError::IoFailure),
            Listing::Entries(entries) => {
                let mut i: usize = 0;
                while i < entries.len()
                    invariant
                        i <= entries@.len(),
                        *listing == Listing::Entries(*entries),
                        old(self)@.well_formed() ==> listed(
                            old(self)@,
                            *listing,
                            visit_revision,
                            compression_level,
                        ).state.well_formed(),
                        walked(old(self)@, entries@, i as nat, visit_revision, compression_level).error is None,
                        self@ == walked(
                            old(self)@,
                            entries@,
                            i as nat,
                            visit_revision,
                            compression_level,
                        ).state,
                    decreases entries@.len() - i,
                {
                    match self.enter(&entries[i], visit_revision, compression_level) {
                        Ok(()) => {},
                        Err(e) => {
                            proof {
                                walked_stays_failed(
                                    old(self)@,
                                    entries@,
                                    (i + 1) as nat,
                                    entries@.len(),
                                    visit_revision,
                                    compression_level,
                                );
                            }
                            return Err(e);
                        },
                    }
                    i = i + 1;
                }
                Ok(())
            },
        }
    }

    /// Deals with one entry of the listing.
    pub fn enter(&mut self, entry: &ScanEntry, visit_revision: Revision, compression_level: i32) -> (r:
        Result<(), CaptureError>)
        ensures
            final(self)@ == entered(old(self)@, *entry, visit_revision, compression_level).state,
            r == status(entered(old(self)@, *entry, visit_revision, compression_level).error),
            old(self)@.well_formed() ==> final(self)@.well_formed(),
        decreases entry, 0nat,
    {
        proof {
            view_unfolded(*self);
            if old(self)@.well_formed() {
                entry_keeps_well_formed(old(self)@, *entry, visit_revision, compression_level);
            }
        }
        let path = self.origin.join(&entry.name);
        match &entry.kind {
            ScanKind::Directory(sub) => match self.find_sub_visitor(&path) {
                Some(k) => {
                    let ghost before = self.sub_visitors@[k as int]@;
                    let child = &mut self.sub_visitors[k];
                    let r = child.visit(sub, visit_revision, compression_level);
                    proof {
                        view_unfolded(*self);
                        assert(self@.dirs =~= old(self)@.dirs.update(
                            k as int,
                            visited(before, *sub, visit_revision, compression_level).state,
                        ));
                        assert(self@.files =~= old(self)@.files);
                        assert(self@.links =~= old(self)@.links);
                    }
                    r
                },
                None => match Visitor::create(path, &sub.probe, visit_revision) {
                    Err(e) => Err(e),
                    Ok(mut child) => {
                        let r = child.visit(sub, visit_revision, compression_level);
                        let ghost kept = child@;
                        self.sub_visitors.push(child);
                        proof {
                            view_unfolded(*self);
                            assert(self@.dirs =~= old(self)@.dirs.push(kept));
                            assert(self@.files =~= old(self)@.files);
                            assert(self@.links =~= old(self)@.links);
                        }
                        r
                    },
                },
            },
            ScanKind::File(probe, content) => match self.find_entry(&path) {
                Some(k) => {
                    let ghost before = self.entries@[k as int]@;
                    let file = &mut self.entries[k];
                    let r = file.visit(probe, content, visit_revision, compression_level);
                    proof {
                        view_unfolded(*self);
                        assert(old(self)@.files[k as int] == before);
                        assert(self@.files =~= old(self)@.files.update(k as int, self.entries@[k as int]@));
                        if r is Err {
                            assert(self@.files =~= old(self)@.files);
                        }
                        assert(self@.dirs =~= old(self)@.dirs);
                        assert(self@.links =~= old(self)@.links);
                    }
                    r
                },
                None => match WeakEntry::new(path, probe, content, visit_revision, compression_level) {
                    Ok(file) => {
                        let ghost kept = file@;
                        self.entries.push(file);
                        proof {
                            view_unfolded(*self);
                            assert(self@.files =~= old(self)@.files.push(kept));
                            assert(self@.dirs =~= old(self)@.dirs);
                            assert(self@.links =~= old(self)@.links);
                        }
                        Ok(())
                    },
                    Err(e) => Err(e),
                },
            },
            ScanKind::Symlink(probe) => match self.find_link(&path) {
                Some(k) => {
                    let ghost before = self.links@[k as int]@;
                    let link = &mut self.links[k];
                    let r = link.visit(probe, visit_revision);
                    proof {
                        view_unfolded(*self);
                        assert(old(self)@.links[k as int] == before);
                        assert(self@.links =~= old(self)@.links.update(k as int, self.links@[k as int]@));
                        if r is Err {
                            assert(self@.links =~= old(self)@.links);
                        }
                        assert(self@.dirs =~= old(self)@.dirs);
                        assert(self@.files =~= old(self)@.files);
                    }
                    r
                },
                None => match SymlinkEntry::new(path, probe, visit_revision) {
                    Ok(link) => {
                        let ghost kept = link@;
                        self.links.push(link);
                        proof {
                            view_unfolded(*self);
                            assert(self@.links =~= old(self)@.links.push(kept));
                            assert(self@.dirs =~= old(self)@.dirs);
                            assert(self@.files =~= old(self)@.files);
                        }
                        Ok(())
                    },
                    Err(e) => Err(e),
                },
            },
            ScanKind::Other => Ok(()),
            ScanKind::Unlisted => Err(CaptureError::ConcurrentModification),
        }
    }
}

} // verus!
