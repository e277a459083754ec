use vstd::prelude::*;
use crate::archiver::all_inside;
use crate::compile::compiled;
use crate::entry::{entry_models, Entry, EntryModel};
use crate::error::{CaptureError, ProcessError};
use crate::laws::{deciding_scan, snapshot_holds_what_last_pass_showed, snapshot_lies_inside};
use crate::stamps::shown;
use crate::metadata::{fenced, Probe};
use crate::model::{bare, visited, DirModel};
use crate::path::TreePath;
use crate::revision::Revision;
use crate::scan::DirScan;
use crate::visitor::Visitor;

verus! {

/// What the driver does after a pass.
#[derive(Clone, Copy, Debug, PartialEq, Eq, Structural)]
pub enum Step {
    /// The pass went through: the tree is consistent as of its revision.
    Converged,
    /// The pass met a change under its feet: another pass is due, at a later revision.
    Retry,
    /// The snapshot is given up.
    Abort(ProcessError),
}

/// What is due after a pass that ended with `error`, when `iterations`
/// retries have been made and `max_iterations` are allowed.
///
/// A failure that no retry can cure ends the snapshot at once, however many
/// retries are left. A failure that a retry may cure ends it only when the
/// retries are used up.
pub open spec fn decided(error: Option<CaptureError>, iterations: int, max_iterations: int) -> Step {
    match error {
        None => Step::Converged,
        Some(e) => if !e.retryable() {
            Step::Abort(ProcessError::UnrecoverableUnknown)
        } else if iterations >= max_iterations {
            Step::Abort(ProcessError::IterationBoundExceeded)
        } else {
            Step::Retry
        },
    }
}

/// Decides what is due after a pass that ended with `outcome`.
pub fn next_step(outcome: &Result<(), CaptureError>, iterations: i32, max_iterations: i32) -> (step:
    Step)
    ensures
        step == decided(
            match *outcome {
                Ok(_) => None,
                Err(e) => Some(e),
            },
            iterations as int,
            max_iterations as int,
        ),
{
    match outcome {
        Ok(_) => Step::Converged,
        Err(e) => {
            if !e.is_retryable() {
                Step::Abort(ProcessError::UnrecoverableUnknown)
            } else if iterations >= max_iterations {
                Step::Abort(ProcessError::IterationBoundExceeded)
            } else {
                Step::Retry
            }
        },
    }
}

/// How far a snapshot has come.
#[derive(Clone, Copy, Debug, PartialEq, Eq, Structural)]
pub enum Phase {
    /// No pass has decided the snapshot yet: a pass is due.
    Running,
    /// The last pass went through: the snapshot can be compiled.
    Converged,
    /// The snapshot was given up: there is nothing to compile.
    Aborted(ProcessError),
}

/// A snapshot under way: the tree as cached so far, the revision the next
/// pass will claim, the count of retries made, and how far it has come.
#[derive(Debug)]
pub struct Snapshot {
    pub visitor: Visitor,
    pub revision: Revision,
    pub iterations: i32,
    pub max_iterations: i32,
    pub compression_level: i32,
    pub phase: Phase,
}

/// A snapshot under way as a mathematical value.
pub ghost struct SnapshotModel {
    pub dir: DirModel,
    pub revision: Revision,
    pub iterations: int,
    pub max_iterations: int,
    pub compression_level: i32,
    pub phase: Phase,
}

impl View for Snapshot {
    type V = SnapshotModel;

    open spec fn view(&self) -> SnapshotModel {
        SnapshotModel {
            dir: self.visitor@,
            revision: self.revision,
            iterations: self.iterations as int,
            max_iterations: self.max_iterations as int,
            compression_level: self.compression_level,
            phase: self.phase,
        }
    }
}

/// The snapshot at its start: nothing cached, no retry made, the first pass
/// due at `started`. There is none where the root is no directory or its
/// probe does not pass the fence.
pub open spec fn begun(
    root: Seq<Seq<char>>,
    is_dir: bool,
    probe: Probe,
    started: Revision,
    max_iterations: int,
    compression_level: i32,
) -> Result<SnapshotModel, ProcessError> {
    if !is_dir {
        Err(ProcessError::PathNotDir)
    } else {
        match fenced(probe, started) {
            Err(_) => Err(ProcessError::MetadataFetchFailed),
            Ok(metadata) => Ok(
                SnapshotModel {
                    dir: bare(root, metadata),
                    revision: started,
                    iterations: 0,
                    max_iterations,
                    compression_level,
                    phase: Phase::Running,
                },
            ),
        }
    }
}

/// What is due after a pass of `snapshot` that observed `scan`. A snapshot
/// that is already decided takes no further pass: what was decided stands.
pub open spec fn step_after(snapshot: SnapshotModel, scan: DirScan) -> Step {
    match snapshot.phase {
        Phase::Running => decided(
            visited(snapshot.dir, scan, snapshot.revision, snapshot.compression_level).error,
            snapshot.iterations,
            snapshot.max_iterations,
        ),
        Phase::Converged => Step::Converged,
        Phase::Aborted(e) => Step::Abort(e),
    }
}

/// The snapshot after a pass that observed `scan` and ended at `now`.
///
/// A snapshot that is already decided is left as it is. Otherwise the tree is
/// as the pass left it; where a retry is due, one more retry is counted and
/// the next pass will claim `now`, and else the snapshot is decided.
pub open spec fn attempted(snapshot: SnapshotModel, scan: DirScan, now: Revision) -> SnapshotModel {
    let dir = visited(snapshot.dir, scan, snapshot.revision, snapshot.compression_level).state;
    match snapshot.phase {
        Phase::Running => match step_after(snapshot, scan) {
            Step::Retry => SnapshotModel {
                dir,
                revision: now,
                iterations: snapshot.iterations + 1,
                ..snapshot
            },
            Step::Converged => SnapshotModel { dir, phase: Phase::Converged, ..snapshot },
            Step::Abort(e) => SnapshotModel { dir, phase: Phase::Aborted(e), ..snapshot },
        },
        _ => snapshot,
    }
}

/// Whether each pass from place `from` on ended strictly after the revision
/// it claimed, the first of them claiming `revision`: time passes while a
/// pass runs.
pub open spec fn advancing(revision: Revision, attempts: Seq<Attempt>, from: nat) -> bool
    decreases attempts.len() - from,
{
    from >= attempts.len() || (revision.nanos < attempts[from as int].ended.nanos && advancing(
        attempts[from as int].ended,
        attempts,
        from + 1,
    ))
}

impl Snapshot {
    /// Starts a snapshot of the directory at `root`.
    ///
    /// `is_dir` says whether `root` is a directory, `probe` what the file
    /// system said of it, and `started` the instant the first pass is to claim.
    pub fn begin(
        root: TreePath,
        is_dir: bool,
        probe: &Probe,
        started: Revision,
        max_iterations: i32,
        compression_level: i32,
    ) -> (r: Result<Snapshot, ProcessError>)
        ensures
            match begun(root@, is_dir, *probe, started, max_iterations as int, compression_level) {
                Ok(model) => r is Ok && r->Ok_0@ == model,
                Err(e) => r is Err && r->Err_0 == e,
            },
            r matches Ok(snapshot) ==> snapshot@.dir.well_formed(),
    {
        if !is_dir {
            return Err(ProcessError::PathNotDir);
        }
        match Visitor::create(root, probe, started) {
            Ok(visitor) => Ok(
                Snapshot {
                    visitor,
                    revision: started,
                    iterations: 0,
                    max_iterations,
                    compression_level,
                    phase: Phase::Running,
                },
            ),
            Err(_) => Err(ProcessError::MetadataFetchFailed),
        }
    }

    /// Runs one pass over what `scan` observed and decides what is due.
    ///
    /// `now` is the instant at which the observation ended, which lies after
    /// the revision that the pass claimed; it becomes the revision of the next
    /// pass where a retry is due. A snapshot that is already decided is left
    /// as it is, and what was decided is given again.
    pub fn attempt(&mut self, scan: &DirScan, now: Revision) -> (step: Step)
        requires
            old(self).revision.nanos < now.nanos,
        ensures
            step == step_after(old(self)@, *scan),
            final(self)@ == attempted(old(self)@, *scan, now),
            old(self)@.dir.well_formed() ==> final(self)@.dir.well_formed(),
    {
        match self.phase {
            Phase::Converged => { return Step::Converged; },
            Phase::Aborted(e) => { return Step::Abort(e); },
            Phase::Running => {},
        }
        let outcome = self.visitor.visit(scan, self.revision, self.compression_level);
        let step = next_step(&outcome, self.iterations, self.max_iterations);
        match step {
            Step::Retry => {
                self.iterations = self.iterations + 1;
                self.revision = now;
            },
            Step::Converged => {
                self.phase = Phase::Converged;
            },
            Step::Abort(e) => {
                self.phase = Phase::Aborted(e);
            },
        }
        step
    }

    /// The flat list of what the tree holds as of the revision of the pass
    /// that converged. A snapshot that no pass has brought to convergence has
    /// no list: nothing partial is handed out.
    pub fn finish(self) -> (entries: Option<Vec<Entry>>)
        ensures
            match self@.phase {
                Phase::Converged => entries is Some && entry_models(entries->Some_0@) == compiled(
                    self@.dir,
                    self@.revision,
                ),
                _ => entries is None,
            },
    {
        match self.phase {
            Phase::Converged => {
                let mut entries: Vec<Entry> = Vec::new();
                let revision = self.revision;
                self.visitor.compile(revision, &mut entries);
                assert(entry_models(entries@) =~= compiled(self@.dir, self@.revision));
                Some(entries)
            },
            _ => None,
        }
    }
}

/// One pass as it was observed: what the walk saw, and the instant at which
/// it ended.
#[derive(Debug)]
pub struct Attempt {
    pub scan: DirScan,
    pub ended: Revision,
}

/// Whether each pass of `attempts` ended strictly after the revision it
/// claimed, the first of them claiming `started`.
pub fn recorded_in_order(started: Revision, attempts: &Vec<Attempt>) -> (r: bool)
    ensures
        r == advancing(started, attempts@, 0),
{
    let mut revision = started;
    let mut i: usize = 0;
    while i < attempts.len()
        invariant
            i <= attempts@.len(),
            advancing(started, attempts@, 0) == advancing(revision, attempts@, i as nat),
        decreases attempts@.len() - i,
    {
        if !attempts[i].ended.is_after(&revision) {
            return false;
        }
        revision = attempts[i].ended;
        i = i + 1;
    }
    true
}

/// The result of a snapshot that stands at `snapshot` and has the passes of
/// `attempts` from place `from` on before it.
///
/// Each pass either converges, and the result is the flat list of the tree as
/// of that pass's revision; or ends the snapshot; or calls for a retry, which
/// takes the next pass. A retry for which no pass is left on record ends the
/// replay with an error of its own.
pub open spec fn replayed(snapshot: SnapshotModel, attempts: Seq<Attempt>, from: nat) -> Result<
    Seq<EntryModel>,
    ProcessError,
>
    decreases attempts.len() - from,
{
    if from >= attempts.len() {
        Err(ProcessError::OutOfPasses)
    } else {
        let next = attempted(snapshot, attempts[from as int].scan, attempts[from as int].ended);
        match step_after(snapshot, attempts[from as int].scan) {
            Step::Converged => Ok(compiled(next.dir, next.revision)),
            Step::Abort(e) => Err(e),
            Step::Retry => replayed(next, attempts, from + 1),
        }
    }
}

/// The result of a whole snapshot of the directory at `root`.
pub open spec fn processed(
    root: Seq<Seq<char>>,
    is_dir: bool,
    probe: Probe,
    started: Revision,
    attempts: Seq<Attempt>,
    max_iterations: int,
    compression_level: i32,
) -> Result<Seq<EntryModel>, ProcessError> {
    match begun(root, is_dir, probe, started, max_iterations, compression_level) {
        Err(e) => Err(e),
        Ok(snapshot) => replayed(snapshot, attempts, 0),
    }
}

/// Takes a snapshot of the directory at `directory_path` from the passes
/// recorded in `attempts`.
///
/// The first pass claims `started`; each later pass claims the instant at
/// which the pass before it ended, which must lie strictly after the revision
/// that pass claimed. The passes are taken in order until one converges or
/// the snapshot is given up. A record that ends while a retry is due and
/// allowed gives `OutOfPasses`. Every entry of the list lies at or below
/// `directory_path`, so that an archive of it can be written, and was shown
/// by the pass that converged: what an earlier pass cached and that pass no
/// longer found is left out.
pub fn process_directory(
    directory_path: TreePath,
    is_dir: bool,
    probe: &Probe,
    started: Revision,
    attempts: &Vec<Attempt>,
    max_iterations: i32,
    compression_level: i32,
) -> (r: Result<Vec<Entry>, ProcessError>)
    requires
        advancing(started, attempts@, 0),
    ensures
        match processed(
            directory_path@,
            is_dir,
            *probe,
            started,
            attempts@,
            max_iterations as int,
            compression_level,
        ) {
            Ok(entries) => r is Ok && entry_models(r->Ok_0@) == entries,
            Err(e) => r is Err && r->Err_0 == e,
        },
        r matches Ok(entries) ==> all_inside(directory_path@, entry_models(entries@)),
        r matches Ok(entries) ==> forall|i: int|
            0 <= i < entries@.len() ==> shown(
                #[trigger] entry_models(entries@)[i].path,
                directory_path@,
                deciding_scan(
                    directory_path@,
                    is_dir,
                    *probe,
                    started,
                    attempts@,
                    max_iterations as int,
                    compression_level,
                ),
            ),
{
    proof {
        if processed(
            directory_path@,
            is_dir,
            *probe,
            started,
            attempts@,
            max_iterations as int,
            compression_level,
        ) is Ok {
            snapshot_lies_inside(
                directory_path@,
                is_dir,
                *probe,
                started,
                attempts@,
                max_iterations as int,
                compression_level,
            );
            let held = processed(
                directory_path@,
                is_dir,
                *probe,
                started,
                attempts@,
                max_iterations as int,
                compression_level,
            )->Ok_0;
            assert forall|i: int| 0 <= i < held.len() implies shown(
                #[trigger] held[i].path,
                directory_path@,
                deciding_scan(
                    directory_path@,
                    is_dir,
                    *probe,
                    started,
                    attempts@,
                    max_iterations as int,
                    compression_level,
                ),
            ) by {
                snapshot_holds_what_last_pass_showed(
                    directory_path@,
                    *probe,
                    started,
                    attempts@,
                    max_iterations as int,
                    compression_level,
                    i,
                );
            }
        }
    }
    let ghost goal = processed(
        directory_path@,
        is_dir,
        *probe,
        started,
        attempts@,
        max_iterations as int,
        compression_level,
    );
    let mut snapshot = match Snapshot::begin(
        directory_path,
        is_dir,
        probe,
        started,
        max_iterations,
        compression_level,
    ) {
        Ok(snapshot) => snapshot,
        Err(e) => { return Err(e); },
    };
    let mut i: usize = 0;
    while i < attempts.len()
        invariant
            i <= attempts@.len(),
            snapshot@.phase is Running,
            advancing(snapshot.revision, attempts@, i as nat),
            goal == replayed(snapshot@, attempts@, i as nat),
            goal == processed(
                directory_path@,
                is_dir,
                *probe,
                started,
                attempts@,
                max_iterations as int,
                compression_level,
            ),
            goal matches Ok(entries) ==> all_inside(directory_path@, entries),
            goal matches Ok(entries) ==> forall|i: int|
                0 <= i < entries.len() ==> shown(
                    #[trigger] entries[i].path,
                    directory_path@,
                    deciding_scan(
                        directory_path@,
                        is_dir,
                        *probe,
                        started,
                        attempts@,
                        max_iterations as int,
                        compression_level,
                    ),
                ),
        decreases attempts@.len() - i,
    {
        match snapshot.attempt(&attempts[i].scan, attempts[i].ended) {
            Step::Converged => {
                return match snapshot.finish() {
                    Some(entries) => Ok(entries),
                    None => Err(ProcessError::UnrecoverableUnknown),
                };
            },
            Step::Abort(e) => {
                return Err(e);
            },
            Step::Retry => {},
        }
        i = i + 1;
    }
    Err(ProcessError::OutOfPasses)
}

} // verus!
