use sit::driver::{next_step, process_directory, recorded_in_order, Attempt, Phase, Snapshot, Step};
use sit::entry::EntryType;
use sit::error::{CaptureError, ProcessError};
use sit::file::Content;
use sit::metadata::{Metadata, Probe};
use sit::path::TreePath;
use sit::revision::Revision;
use sit::scan::{DirScan, Listing, ScanEntry, ScanKind};

fn root_path() -> TreePath {
    TreePath { components: vec!["/".to_string(), "data".to_string()] }
}

fn below_root(name: &str) -> TreePath {
    TreePath { components: vec!["/".to_string(), "data".to_string(), name.to_string()] }
}

fn stat(modified: u64) -> Metadata {
    Metadata { size: 1, mode: 0o644, uid: 0, gid: 0, modified: Revision::at(modified) }
}

fn one_file(name: &str, modified: u64, content: &str) -> DirScan {
    DirScan {
        probe: Probe::Found(stat(1)),
        listing: Listing::Entries(vec![ScanEntry {
            name: name.to_string(),
            kind: ScanKind::File(Probe::Found(stat(modified)), Content::Read(content.as_bytes().to_vec())),
        }]),
    }
}

/// A pass during which the file is written to once more: its modification time
/// is always ahead of the revision the pass claims.
fn touched(ended: u64) -> Attempt {
    Attempt { scan: one_file("busy", ended + 1_000, "x"), ended: Revision::at(ended) }
}

#[test]
fn decision_after_a_pass() {
    assert_eq!(next_step(&Ok(()), 0, 5), Step::Converged);
    assert_eq!(next_step(&Ok(()), 9, 5), Step::Converged);
    assert_eq!(next_step(&Err(CaptureError::ConcurrentModification), 0, 5), Step::Retry);
    assert_eq!(next_step(&Err(CaptureError::ConcurrentDeletion), 4, 5), Step::Retry);
    assert_eq!(
        next_step(&Err(CaptureError::ConcurrentDeletion), 5, 5),
        Step::Abort(ProcessError::IterationBoundExceeded)
    );
    assert_eq!(
        next_step(&Err(CaptureError::ConcurrentModification), 0, -1),
        Step::Abort(ProcessError::IterationBoundExceeded)
    );
    assert_eq!(next_step(&Err(CaptureError::IoFailure), 0, 5), Step::Abort(ProcessError::UnrecoverableUnknown));
    assert_eq!(next_step(&Err(CaptureError::EncodeFailure), 5, 5), Step::Abort(ProcessError::UnrecoverableUnknown));
}

#[test]
fn root_must_be_a_directory() {
    let r = process_directory(root_path(), false, &Probe::Found(stat(1)), Revision::at(10), &vec![], 5, 3);
    assert_eq!(r.err(), Some(ProcessError::PathNotDir));
}

#[test]
fn root_metadata_must_be_had() {
    for probe in [Probe::Vanished, Probe::Unreadable, Probe::Found(stat(11))] {
        let r = process_directory(root_path(), true, &probe, Revision::at(10), &vec![], 5, 3);
        assert_eq!(r.err(), Some(ProcessError::MetadataFetchFailed));
    }
}

#[test]
fn quiet_root_converges_at_once() {
    let attempts = vec![Attempt { scan: one_file("a", 5, "hello"), ended: Revision::at(20) }];
    let entries = process_directory(root_path(), true, &Probe::Found(stat(1)), Revision::at(10), &attempts, 0, 3).unwrap();
    assert_eq!(entries.len(), 2);
    assert_eq!(entries[0].path, root_path());
    assert_eq!(entries[0].entry_type, EntryType::Directory);
    assert_eq!(entries[1].path, below_root("a"));
    match &entries[1].entry_type {
        EntryType::File(data) => assert_eq!(zstd::stream::decode_all(&data[..]).unwrap(), b"hello".to_vec()),
        other => panic!("not a file: {:?}", other),
    }
}

#[test]
fn retry_takes_the_later_revision() {
    // First pass at 10 sees the file written at 15; it ended at 20, and the
    // second pass, claiming 20, takes it.
    let attempts = vec![
        Attempt { scan: one_file("a", 15, "v2"), ended: Revision::at(20) },
        Attempt { scan: one_file("a", 15, "v2"), ended: Revision::at(30) },
    ];
    let entries = process_directory(root_path(), true, &Probe::Found(stat(1)), Revision::at(10), &attempts, 1, 3).unwrap();
    assert_eq!(entries.len(), 2);
    assert_eq!(entries[1].metadata, stat(15));
}

#[test]
fn retries_end_at_the_bound() {
    let n = 3;
    let attempts: Vec<Attempt> = (0..10).map(|k| touched(100 + 10 * k)).collect();
    let r = process_directory(root_path(), true, &Probe::Found(stat(1)), Revision::at(10), &attempts, n, 3);
    assert_eq!(r.err(), Some(ProcessError::IterationBoundExceeded));

    // Step by step: exactly n passes call for a retry, the pass after them gives up.
    let mut snapshot = Snapshot::begin(root_path(), true, &Probe::Found(stat(1)), Revision::at(10), n, 3).unwrap();
    for k in 0..n {
        assert_eq!(snapshot.iterations, k);
        assert_eq!(snapshot.attempt(&attempts[k as usize].scan, attempts[k as usize].ended), Step::Retry);
        assert_eq!(snapshot.revision, attempts[k as usize].ended);
    }
    assert_eq!(snapshot.iterations, n);
    assert_eq!(
        snapshot.attempt(&attempts[n as usize].scan, attempts[n as usize].ended),
        Step::Abort(ProcessError::IterationBoundExceeded)
    );
    assert_eq!(snapshot.iterations, n);
}

#[test]
fn no_retry_allowed_gives_up_after_one_pass() {
    let attempts = vec![touched(100), touched(200)];
    let r = process_directory(root_path(), true, &Probe::Found(stat(1)), Revision::at(10), &attempts, 0, 3);
    assert_eq!(r.err(), Some(ProcessError::IterationBoundExceeded));
}

#[test]
fn record_that_ends_early_is_out_of_passes() {
    let r = process_directory(root_path(), true, &Probe::Found(stat(1)), Revision::at(10), &vec![touched(100)], 5, 3);
    assert_eq!(r.err(), Some(ProcessError::OutOfPasses));
    let r = process_directory(root_path(), true, &Probe::Found(stat(1)), Revision::at(10), &vec![], 5, 3);
    assert_eq!(r.err(), Some(ProcessError::OutOfPasses));
    // With the bound reached on the last pass on record it is the bound that ends the run.
    let r = process_directory(root_path(), true, &Probe::Found(stat(1)), Revision::at(10), &vec![touched(100)], 0, 3);
    assert_eq!(r.err(), Some(ProcessError::IterationBoundExceeded));
}

#[test]
fn unreadable_file_aborts_without_retry() {
    let locked = DirScan {
        probe: Probe::Found(stat(1)),
        listing: Listing::Entries(vec![ScanEntry {
            name: "secret".to_string(),
            kind: ScanKind::File(Probe::Unreadable, Content::Withheld),
        }]),
    };
    let attempts = vec![
        Attempt { scan: locked, ended: Revision::at(20) },
        Attempt { scan: one_file("secret", 5, "open now"), ended: Revision::at(30) },
    ];
    let r = process_directory(root_path(), true, &Probe::Found(stat(1)), Revision::at(10), &attempts, 5, 3);
    assert_eq!(r.err(), Some(ProcessError::UnrecoverableUnknown));
}

#[test]
fn unreadable_file_is_fatal_even_with_no_retry_left() {
    let locked = DirScan {
        probe: Probe::Found(stat(1)),
        listing: Listing::Entries(vec![ScanEntry {
            name: "secret".to_string(),
            kind: ScanKind::File(Probe::Found(stat(5)), Content::Unreadable),
        }]),
    };
    let attempts = vec![Attempt { scan: locked, ended: Revision::at(20) }];
    let r = process_directory(root_path(), true, &Probe::Found(stat(1)), Revision::at(10), &attempts, 0, 3);
    assert_eq!(r.err(), Some(ProcessError::UnrecoverableUnknown));
}

#[test]
fn deleted_file_costs_a_retry_and_is_left_out() {
    let both = DirScan {
        probe: Probe::Found(stat(1)),
        listing: Listing::Entries(vec![
            ScanEntry { name: "stays".to_string(), kind: ScanKind::File(Probe::Found(stat(5)), Content::Read(b"s".to_vec())) },
            ScanEntry { name: "goes".to_string(), kind: ScanKind::File(Probe::Vanished, Content::Withheld) },
        ]),
    };
    let after = DirScan {
        probe: Probe::Found(stat(15)),
        listing: Listing::Entries(vec![ScanEntry {
            name: "stays".to_string(),
            kind: ScanKind::File(Probe::Found(stat(5)), Content::Withheld),
        }]),
    };
    let attempts = vec![Attempt { scan: both, ended: Revision::at(20) }, Attempt { scan: after, ended: Revision::at(30) }];
    let entries = process_directory(root_path(), true, &Probe::Found(stat(1)), Revision::at(10), &attempts, 5, 3).unwrap();
    let paths: Vec<TreePath> = entries.into_iter().map(|e| e.path).collect();
    assert_eq!(paths, vec![root_path(), below_root("stays")]);
}

#[test]
fn snapshot_finish_compiles_at_the_last_revision() {
    let mut snapshot = Snapshot::begin(root_path(), true, &Probe::Found(stat(1)), Revision::at(10), 5, 3).unwrap();
    assert_eq!(snapshot.attempt(&one_file("a", 15, "x"), Revision::at(20)), Step::Retry);
    assert_eq!(snapshot.attempt(&one_file("a", 15, "x"), Revision::at(30)), Step::Converged);
    assert_eq!(snapshot.revision, Revision::at(20));
    assert_eq!(snapshot.iterations, 1);
    assert_eq!(snapshot.phase, Phase::Converged);
    // Decided is decided: a further pass changes nothing.
    assert_eq!(snapshot.attempt(&one_file("b", 500, "late"), Revision::at(40)), Step::Converged);
    assert_eq!(snapshot.revision, Revision::at(20));
    assert_eq!(snapshot.finish().unwrap().len(), 2);
}

#[test]
fn nothing_is_handed_out_before_convergence() {
    let snapshot = Snapshot::begin(root_path(), true, &Probe::Found(stat(1)), Revision::at(10), 5, 3).unwrap();
    assert_eq!(snapshot.phase, Phase::Running);
    assert!(snapshot.finish().is_none());

    let mut snapshot = Snapshot::begin(root_path(), true, &Probe::Found(stat(1)), Revision::at(10), 5, 3).unwrap();
    assert_eq!(snapshot.attempt(&one_file("a", 15, "x"), Revision::at(20)), Step::Retry);
    assert!(snapshot.finish().is_none());
}

#[test]
fn nothing_is_handed_out_after_an_abort() {
    let two = DirScan {
        probe: Probe::Found(stat(1)),
        listing: Listing::Entries(vec![
            ScanEntry { name: "ok".to_string(), kind: ScanKind::File(Probe::Found(stat(5)), Content::Read(b"s".to_vec())) },
            ScanEntry { name: "secret".to_string(), kind: ScanKind::File(Probe::Unreadable, Content::Withheld) },
        ]),
    };
    let mut snapshot = Snapshot::begin(root_path(), true, &Probe::Found(stat(1)), Revision::at(10), 5, 3).unwrap();
    assert_eq!(snapshot.attempt(&two, Revision::at(20)), Step::Abort(ProcessError::UnrecoverableUnknown));
    assert_eq!(snapshot.phase, Phase::Aborted(ProcessError::UnrecoverableUnknown));
    // A later quiet pass does not revive it.
    assert_eq!(snapshot.attempt(&one_file("ok", 5, "s"), Revision::at(30)), Step::Abort(ProcessError::UnrecoverableUnknown));
    assert!(snapshot.finish().is_none());
}

#[test]
fn record_is_in_order_when_each_pass_ends_later() {
    assert!(recorded_in_order(Revision::at(10), &vec![]));
    assert!(recorded_in_order(Revision::at(10), &vec![touched(11), touched(12)]));
    assert!(!recorded_in_order(Revision::at(10), &vec![touched(10)]));
    assert!(!recorded_in_order(Revision::at(10), &vec![touched(20), touched(20)]));
    assert!(!recorded_in_order(Revision::at(10), &vec![touched(20), touched(15), touched(30)]));
}
