use vstd::prelude::*;
use crate::below::{link_shown, nothing_lies_below_a_link};
use crate::calm::{calm, calm_pass_converges};
use crate::compile::compiled;
use crate::archiver::{
    all_inside, archive_name, packed, planned, record_of, target_of, BodyModel, ResolvedLink,
};
use crate::driver::{
    advancing, attempted, begun, decided, processed, replayed, step_after, Attempt, SnapshotModel,
    Step,
};
use crate::entry::EntryModel;
use crate::error::{CaptureError, ProcessError};
use crate::file::{encoded, file_created, file_visited, unchanged_since, Content, FileModel};
use crate::metadata::{fenced, Metadata, Probe};
use crate::model::{listed, visited, DirModel};
use crate::scan::{DirScan, Listing};
use crate::symlink::read;
use crate::quiet::{first_pass_converges, quiet, snapshot_of};
use crate::revision::Revision;
use crate::stamps::{
    bare_is_bounded, bare_is_rooted, bare_is_unstamped, bounded, compiled_is_shown,
    compiled_lies_inside, earlier_is_unstamped, rooted, shown, unstamped, visit_keeps_bounded,
    visit_keeps_rooted, visit_stamps_what_is_shown,
};

verus! {

/// A file that is unchanged since its record was last confirmed is not
/// captured again when it is revisited at a later revision: whatever the
/// content handed in, also none at all, the visit succeeds and leaves the
/// record with the metadata and data it had, stamped with the new revision.
pub proof fn cache_hit_keeps_record(
    file: FileModel,
    metadata: Metadata,
    content: Content,
    target: Revision,
    level: i32,
)
    requires
        unchanged_since(metadata.modified, file.revision),
        file.revision.nanos < target.nanos,
    ensures
        file_visited(file, Probe::Found(metadata), content, target, level) == Ok::<
            FileModel,
            CaptureError,
        >(FileModel { revision: target, ..file }),
{
}

/// A file that has vanished fails its capture in a way that a retry may cure,
/// whether it is met for the first time or revisited.
pub proof fn vanished_file_is_retryable(
    file: FileModel,
    content: Content,
    target: Revision,
    level: i32,
)
    ensures
        file_visited(file, Probe::Vanished, content, target, level) == Err::<FileModel, CaptureError>(
            CaptureError::ConcurrentDeletion,
        ),
        file_created(file.path, Probe::Vanished, content, target, level) == Err::<
            FileModel,
            CaptureError,
        >(CaptureError::ConcurrentDeletion),
        CaptureError::ConcurrentDeletion.retryable(),
{
}

/// Nothing that has vanished ends a snapshot for good: a directory, a
/// listing, a link or a content that is gone fails the pass in a way that a
/// retry may cure.
pub proof fn vanished_is_always_retryable(target: Revision, level: i32)
    ensures
        fenced(Probe::Vanished, target) == Err::<Metadata, CaptureError>(
            CaptureError::ConcurrentDeletion,
        ),
        read(Probe::Vanished) == Err::<Metadata, CaptureError>(
            CaptureError::ConcurrentDeletion,
        ),
        encoded(Content::Vanished, level) == Err::<Seq<u8>, CaptureError>(
            CaptureError::ConcurrentDeletion,
        ),
        forall|dir: DirModel|
            (#[trigger] listed(dir, Listing::Vanished, target, level)).error
                == Some(CaptureError::ConcurrentDeletion),
        forall|iterations: int, max_iterations: int|
            iterations < max_iterations ==> #[trigger] decided(
                Some(CaptureError::ConcurrentDeletion),
                iterations,
                max_iterations,
            ) == Step::Retry,
{
}

/// A file that is still there but cannot be read fails its capture in a way
/// that no retry can cure, whether it is met for the first time or revisited.
pub proof fn unreadable_file_is_fatal(
    file: FileModel,
    content: Content,
    target: Revision,
    level: i32,
)
    ensures
        file_visited(file, Probe::Unreadable, content, target, level) == Err::<
            FileModel,
            CaptureError,
        >(CaptureError::IoFailure),
        file_created(file.path, Probe::Unreadable, content, target, level) == Err::<
            FileModel,
            CaptureError,
        >(CaptureError::IoFailure),
        !CaptureError::IoFailure.retryable(),
{
}

/// A pass that fails in a way that no retry can cure ends the snapshot at
/// once as unrecoverable, however many retries were made or are allowed.
pub proof fn fatal_failure_aborts(error: CaptureError, iterations: int, max_iterations: int)
    requires
        !error.retryable(),
    ensures
        decided(Some(error), iterations, max_iterations) == Step::Abort(
            ProcessError::UnrecoverableUnknown,
        ),
{
}

/// The snapshot after the first `n` of `attempts` were each taken as a pass.
pub open spec fn after_passes(snapshot: SnapshotModel, attempts: Seq<Attempt>, n: nat) -> SnapshotModel
    decreases n,
{
    if n == 0 || n > attempts.len() {
        snapshot
    } else {
        attempted(
            after_passes(snapshot, attempts, (n - 1) as nat),
            attempts[n - 1].scan,
            attempts[n - 1].ended,
        )
    }
}

/// Whether each of the first `n` of `attempts`, taken in turn from
/// `snapshot` on, fails in a way that a retry may cure.
pub open spec fn always_disturbed(snapshot: SnapshotModel, attempts: Seq<Attempt>, n: nat) -> bool {
    forall|k: nat|
        k < n && k < attempts.len() ==> {
            let before = #[trigger] after_passes(snapshot, attempts, k);
            let error = visited(
                before.dir,
                attempts[k as int].scan,
                before.revision,
                before.compression_level,
            ).error;
            error is Some && error->Some_0.retryable()
        }
}

/// With `n` retries allowed and every pass disturbed, the first `n` passes
/// each call for a retry, the pass after them ends the snapshot as one that
/// ran out of retries, and exactly `n` retries have been counted by then.
pub proof fn retries_are_bounded(snapshot: SnapshotModel, attempts: Seq<Attempt>, n: nat)
    requires
        snapshot.phase is Running,
        snapshot.iterations == 0,
        snapshot.max_iterations == n,
        attempts.len() > n,
        always_disturbed(snapshot, attempts, n + 1),
    ensures
        forall|k: nat|
            k < n ==> step_after(
                #[trigger] after_passes(snapshot, attempts, k),
                attempts[k as int].scan,
            ) == Step::Retry,
        step_after(after_passes(snapshot, attempts, n), attempts[n as int].scan) == Step::Abort(
            ProcessError::IterationBoundExceeded,
        ),
        after_passes(snapshot, attempts, n + 1).iterations == n,
        replayed(snapshot, attempts, 0) == Err::<Seq<EntryModel>, ProcessError>(
            ProcessError::IterationBoundExceeded,
        ),
{
    assert forall|k: nat| k <= n implies {
        let s = #[trigger] after_passes(snapshot, attempts, k);
        &&& s.phase is Running
        &&& s.iterations == k
        &&& s.max_iterations == n
        &&& s.compression_level == snapshot.compression_level
    } by {
        counted(snapshot, attempts, n, k);
    }
    counted(snapshot, attempts, n, n);
    assert(always_disturbed(snapshot, attempts, n + 1));
    let last = after_passes(snapshot, attempts, n);
    assert(step_after(last, attempts[n as int].scan) == Step::Abort(
        ProcessError::IterationBoundExceeded,
    ));
    assert forall|k: nat| k < n implies step_after(
        #[trigger] after_passes(snapshot, attempts, k),
        attempts[k as int].scan,
    ) == Step::Retry by {
        counted(snapshot, attempts, n, k);
    }
    replay_from(snapshot, attempts, n, 0);
}

/// While every pass is disturbed and retries are left, each pass counts one retry.
proof fn counted(snapshot: SnapshotModel, attempts: Seq<Attempt>, n: nat, k: nat)
    requires
        snapshot.phase is Running,
        snapshot.iterations == 0,
        snapshot.max_iterations == n,
        attempts.len() > n,
        always_disturbed(snapshot, attempts, n + 1),
        k <= n,
    ensures
        after_passes(snapshot, attempts, k).phase is Running,
        after_passes(snapshot, attempts, k).iterations == k,
        after_passes(snapshot, attempts, k).max_iterations == n,
        after_passes(snapshot, attempts, k).compression_level == snapshot.compression_level,
    decreases k,
{
    if k > 0 {
        counted(snapshot, attempts, n, (k - 1) as nat);
        let before = after_passes(snapshot, attempts, (k - 1) as nat);
        assert(step_after(before, attempts[k - 1].scan) == Step::Retry);
    }
}

/// A replay that stands before pass `k` of a run in which every pass is
/// disturbed ends as one that ran out of retries.
proof fn replay_from(snapshot: SnapshotModel, attempts: Seq<Attempt>, n: nat, k: nat)
    requires
        snapshot.phase is Running,
        snapshot.iterations == 0,
        snapshot.max_iterations == n,
        attempts.len() > n,
        always_disturbed(snapshot, attempts, n + 1),
        k <= n,
    ensures
        replayed(after_passes(snapshot, attempts, k), attempts, k) == Err::<
            Seq<EntryModel>,
            ProcessError,
        >(ProcessError::IterationBoundExceeded),
    decreases n - k,
{
    counted(snapshot, attempts, n, k);
    let here = after_passes(snapshot, attempts, k);
    if k < n {
        assert(step_after(here, attempts[k as int].scan) == Step::Retry);
        replay_from(snapshot, attempts, n, k + 1);
        assert(after_passes(snapshot, attempts, k + 1) == attempted(
            here,
            attempts[k as int].scan,
            attempts[k as int].ended,
        ));
    } else {
        assert(step_after(here, attempts[k as int].scan) == Step::Abort(
            ProcessError::IterationBoundExceeded,
        ));
    }
}

/// A link whose target lies outside the capture root has no record in the archive.
pub proof fn escaping_link_has_no_record(
    origin: Seq<Seq<char>>,
    entry: EntryModel,
    links: Seq<ResolvedLink>,
)
    requires
        entry.kind is Symlink,
        target_of(links, entry.path) matches Some(target) && !origin.is_prefix_of(target),
    ensures
        record_of(origin, entry, links) is None,
{
}

/// Every link record of an archive points to a path at or below the capture
/// root, named as seen from that root.
pub proof fn planned_links_stay_inside(
    origin: Seq<Seq<char>>,
    entries: Seq<EntryModel>,
    links: Seq<ResolvedLink>,
    n: nat,
)
    ensures
        forall|i: int|
            0 <= i < planned(origin, entries, links, n).len() ==> (#[trigger] planned(
                origin,
                entries,
                links,
                n,
            )[i].body matches BodyModel::Symlink(to) ==> exists|target: Seq<Seq<char>>|
                origin.is_prefix_of(target) && to == archive_name(origin, target)),
    decreases n,
{
    if n == 0 || n > entries.len() {
    } else {
        planned_links_stay_inside(origin, entries, links, (n - 1) as nat);
        let before = planned(origin, entries, links, (n - 1) as nat);
        let all = planned(origin, entries, links, n);
        assert forall|i: int| 0 <= i < all.len() implies (#[trigger] all[i].body matches BodyModel::Symlink(
            to,
        ) ==> exists|target: Seq<Seq<char>>|
            origin.is_prefix_of(target) && to == archive_name(origin, target)) by {
            if i < before.len() {
                assert(all[i] == before[i]);
            } else {
                let entry = entries[n - 1];
                if entry.kind is Symlink {
                    let target = target_of(links, entry.path)->Some_0;
                    assert(origin.is_prefix_of(target));
                }
            }
        }
    }
}

/// A snapshot whose first pass nothing disturbs converges on that pass, and
/// its flat list is exactly what the file system holds.
pub proof fn undisturbed_snapshot(
    root: Seq<Seq<char>>,
    probe: Probe,
    started: Revision,
    attempts: Seq<Attempt>,
    max_iterations: int,
    level: i32,
)
    requires
        attempts.len() > 0,
        fenced(probe, started) is Ok,
        quiet(attempts[0].scan, started, level),
    ensures
        processed(root, true, probe, started, attempts, max_iterations, level) == Ok::<
            Seq<EntryModel>,
            ProcessError,
        >(snapshot_of(root, attempts[0].scan, level)),
{
    let metadata = fenced(probe, started)->Ok_0;
    first_pass_converges(root, metadata, attempts[0].scan, started, level);
}

/// The place of the pass that decides a snapshot which stands at `snapshot`
/// and has the passes of `attempts` from place `from` on before it.
pub open spec fn deciding_pass(snapshot: SnapshotModel, attempts: Seq<Attempt>, from: nat) -> nat
    decreases attempts.len() - from,
{
    if from >= attempts.len() {
        from
    } else {
        match step_after(snapshot, attempts[from as int].scan) {
            Step::Retry => deciding_pass(
                attempted(snapshot, attempts[from as int].scan, attempts[from as int].ended),
                attempts,
                from + 1,
            ),
            _ => from,
        }
    }
}

/// Whatever a snapshot ends up holding was shown by the pass that converged,
/// provided each retry claimed a strictly later revision than the pass before
/// it: what an earlier pass cached and the last one no longer found, such as
/// a file deleted in between, is left out.
pub proof fn replay_holds_what_last_pass_showed(
    snapshot: SnapshotModel,
    attempts: Seq<Attempt>,
    from: nat,
    i: int,
)
    requires
        snapshot.phase is Running,
        bounded(snapshot.dir, snapshot.revision),
        unstamped(snapshot.dir, snapshot.revision),
        advancing(snapshot.revision, attempts, from),
        replayed(snapshot, attempts, from) is Ok,
        0 <= i < replayed(snapshot, attempts, from)->Ok_0.len(),
    ensures
        deciding_pass(snapshot, attempts, from) < attempts.len(),
        shown(
            replayed(snapshot, attempts, from)->Ok_0[i].path,
            snapshot.dir.origin,
            attempts[deciding_pass(snapshot, attempts, from) as int].scan,
        ),
    decreases attempts.len() - from,
{
    let scan = attempts[from as int].scan;
    let next = attempted(snapshot, scan, attempts[from as int].ended);
    match step_after(snapshot, scan) {
        Step::Converged => {
            compiled_is_shown(snapshot.dir, scan, snapshot.revision, snapshot.compression_level, i);
        },
        Step::Retry => {
            visit_keeps_bounded(
                snapshot.dir,
                scan,
                snapshot.revision,
                snapshot.compression_level,
                snapshot.revision,
            );
            earlier_is_unstamped(next.dir, snapshot.revision, next.revision);
            visit_stamps_what_is_shown(
                Seq::empty(),
                snapshot.revision,
                snapshot.dir,
                scan,
                snapshot.revision,
                snapshot.compression_level,
            );
            replay_holds_what_last_pass_showed(next, attempts, from + 1, i);
        },
        Step::Abort(_) => {},
    }
}

/// What the pass that decides a whole snapshot observed.
pub open spec fn deciding_scan(
    root: Seq<Seq<char>>,
    is_dir: bool,
    probe: Probe,
    started: Revision,
    attempts: Seq<Attempt>,
    max_iterations: int,
    level: i32,
) -> DirScan {
    attempts[deciding_pass(
        begun(root, is_dir, probe, started, max_iterations, level)->Ok_0,
        attempts,
        0,
    ) as int].scan
}

/// Whatever a whole snapshot ends up holding was shown by the pass that
/// converged, provided each retry claimed a strictly later revision than the
/// pass before it.
pub proof fn snapshot_holds_what_last_pass_showed(
    root: Seq<Seq<char>>,
    probe: Probe,
    started: Revision,
    attempts: Seq<Attempt>,
    max_iterations: int,
    level: i32,
    i: int,
)
    requires
        advancing(started, attempts, 0),
        processed(root, true, probe, started, attempts, max_iterations, level) is Ok,
        0 <= i < processed(root, true, probe, started, attempts, max_iterations, level)->Ok_0.len(),
    ensures
        begun(root, true, probe, started, max_iterations, level) is Ok,
        deciding_pass(begun(root, true, probe, started, max_iterations, level)->Ok_0, attempts, 0)
            < attempts.len(),
        shown(
            processed(root, true, probe, started, attempts, max_iterations, level)->Ok_0[i].path,
            root,
            attempts[deciding_pass(
                begun(root, true, probe, started, max_iterations, level)->Ok_0,
                attempts,
                0,
            ) as int].scan,
        ),
{
    let metadata = fenced(probe, started)->Ok_0;
    bare_is_bounded(root, metadata, started);
    bare_is_unstamped(root, metadata, started);
    let snapshot = begun(root, true, probe, started, max_iterations, level)->Ok_0;
    replay_holds_what_last_pass_showed(snapshot, attempts, 0, i);
}

/// Whatever a replay ends up holding lies at or below the root of its tree.
pub proof fn replay_lies_inside(snapshot: SnapshotModel, attempts: Seq<Attempt>, from: nat)
    requires
        rooted(snapshot.dir),
        replayed(snapshot, attempts, from) is Ok,
    ensures
        all_inside(snapshot.dir.origin, replayed(snapshot, attempts, from)->Ok_0),
    decreases attempts.len() - from,
{
    let scan = attempts[from as int].scan;
    let next = attempted(snapshot, scan, attempts[from as int].ended);
    visit_keeps_rooted(snapshot.dir, scan, snapshot.revision, snapshot.compression_level);
    visit_stamps_what_is_shown(
        Seq::empty(),
        snapshot.revision,
        snapshot.dir,
        scan,
        snapshot.revision,
        snapshot.compression_level,
    );
    match step_after(snapshot, scan) {
        Step::Converged => {
            compiled_lies_inside(next.dir, next.revision);
        },
        Step::Retry => {
            replay_lies_inside(next, attempts, from + 1);
        },
        Step::Abort(_) => {},
    }
}

/// Whatever a snapshot ends up holding lies at or below the capture root: an
/// archive of that root can be written from it.
pub proof fn snapshot_lies_inside(
    root: Seq<Seq<char>>,
    is_dir: bool,
    probe: Probe,
    started: Revision,
    attempts: Seq<Attempt>,
    max_iterations: int,
    level: i32,
)
    requires
        processed(root, is_dir, probe, started, attempts, max_iterations, level) is Ok,
    ensures
        all_inside(
            root,
            processed(root, is_dir, probe, started, attempts, max_iterations, level)->Ok_0,
        ),
{
    let metadata = fenced(probe, started)->Ok_0;
    bare_is_rooted(root, metadata);
    let snapshot = begun(root, is_dir, probe, started, max_iterations, level)->Ok_0;
    replay_lies_inside(snapshot, attempts, 0);
}

/// An entry that has no record leaves the plan of an archive as it would be
/// without the entry.
pub proof fn entry_without_record_changes_nothing(
    origin: Seq<Seq<char>>,
    entries: Seq<EntryModel>,
    links: Seq<ResolvedLink>,
    i: int,
    n: nat,
)
    requires
        0 <= i < entries.len(),
        record_of(origin, entries[i], links) is None,
        n <= entries.len(),
    ensures
        n <= i ==> planned(origin, entries, links, n) == planned(origin, entries.remove(i), links, n),
        n > i ==> planned(origin, entries, links, n) == planned(
            origin,
            entries.remove(i),
            links,
            (n - 1) as nat,
        ),
    decreases n,
{
    if n > 0 {
        entry_without_record_changes_nothing(origin, entries, links, i, (n - 1) as nat);
        let rest = entries.remove(i);
        if n - 1 < i {
            assert(rest[n - 1] == entries[n - 1]);
        } else if n - 1 > i {
            assert(rest[n - 2] == entries[n - 1]);
        }
    }
}

/// A link whose target lies outside the capture root neither shows in the
/// archive nor fails it: the archive is the one that would be written if the
/// link were not there.
pub proof fn escaping_link_is_as_if_absent(
    origin: Seq<Seq<char>>,
    entries: Seq<EntryModel>,
    links: Seq<ResolvedLink>,
    i: int,
)
    requires
        0 <= i < entries.len(),
        entries[i].kind is Symlink,
        target_of(links, entries[i].path) matches Some(target) && !origin.is_prefix_of(target),
    ensures
        packed(planned(origin, entries, links, entries.len())) == packed(
            planned(origin, entries.remove(i), links, entries.remove(i).len()),
        ),
{
    entry_without_record_changes_nothing(origin, entries, links, i, entries.len());
}

/// While each pass is disturbed and a retry is left for it, each pass costs
/// one retry and leaves the snapshot running.
proof fn retried(snapshot: SnapshotModel, attempts: Seq<Attempt>, k: nat)
    requires
        snapshot.phase is Running,
        snapshot.iterations == 0,
        k <= snapshot.max_iterations,
        k <= attempts.len(),
        always_disturbed(snapshot, attempts, k),
    ensures
        after_passes(snapshot, attempts, k).phase is Running,
        after_passes(snapshot, attempts, k).iterations == k,
        after_passes(snapshot, attempts, k).max_iterations == snapshot.max_iterations,
        after_passes(snapshot, attempts, k).compression_level == snapshot.compression_level,
        replayed(snapshot, attempts, 0) == replayed(after_passes(snapshot, attempts, k), attempts, k),
    decreases k,
{
    if k > 0 {
        retried(snapshot, attempts, (k - 1) as nat);
        let before = after_passes(snapshot, attempts, (k - 1) as nat);
        assert(step_after(before, attempts[k - 1].scan) == Step::Retry);
    }
}

/// Passes that are disturbed cost retries and nothing else: where `k` passes
/// fail in a way that a retry may cure, as when a file is deleted while it is
/// being captured, and as many retries are allowed, a calm pass after them
/// brings the snapshot to convergence on what that pass leaves.
pub proof fn disturbed_passes_cost_only_retries(
    snapshot: SnapshotModel,
    attempts: Seq<Attempt>,
    k: nat,
)
    requires
        snapshot.phase is Running,
        snapshot.iterations == 0,
        k <= snapshot.max_iterations,
        k < attempts.len(),
        always_disturbed(snapshot, attempts, k),
        calm(
            after_passes(snapshot, attempts, k).dir,
            attempts[k as int].scan,
            after_passes(snapshot, attempts, k).revision,
            snapshot.compression_level,
        ),
    ensures
        replayed(snapshot, attempts, 0) == Ok::<Seq<EntryModel>, ProcessError>(
            compiled(
                visited(
                    after_passes(snapshot, attempts, k).dir,
                    attempts[k as int].scan,
                    after_passes(snapshot, attempts, k).revision,
                    snapshot.compression_level,
                ).state,
                after_passes(snapshot, attempts, k).revision,
            ),
        ),
{
    retried(snapshot, attempts, k);
    let here = after_passes(snapshot, attempts, k);
    calm_pass_converges(here.dir, attempts[k as int].scan, here.revision, here.compression_level);
    assert(step_after(here, attempts[k as int].scan) == Step::Converged);
}

/// A snapshot of a tree that nothing disturbs holds nothing at or below the
/// path of a symbolic link but the link itself, wherever the link points: no
/// file and no listing is captured through it.
pub proof fn nothing_is_captured_through_a_link(
    root: Seq<Seq<char>>,
    probe: Probe,
    started: Revision,
    attempts: Seq<Attempt>,
    max_iterations: int,
    level: i32,
    path: Seq<Seq<char>>,
    i: int,
)
    requires
        attempts.len() > 0,
        fenced(probe, started) is Ok,
        quiet(attempts[0].scan, started, level),
        link_shown(path, root, attempts[0].scan),
        processed(root, true, probe, started, attempts, max_iterations, level) is Ok,
        0 <= i < processed(root, true, probe, started, attempts, max_iterations, level)->Ok_0.len(),
        path.is_prefix_of(
            processed(root, true, probe, started, attempts, max_iterations, level)->Ok_0[i].path,
        ),
    ensures
        processed(root, true, probe, started, attempts, max_iterations, level)->Ok_0[i].path == path,
        processed(root, true, probe, started, attempts, max_iterations, level)->Ok_0[i].kind is Symlink,
{
    undisturbed_snapshot(root, probe, started, attempts, max_iterations, level);
    nothing_lies_below_a_link(path, root, attempts[0].scan, started, level, i);
}

} // verus!
