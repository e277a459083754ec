use std::io::Read;

use sit::archive::{is_plain_name, RecordHeader, FLAG_DIRECTORY, FLAG_FILE, FLAG_SYMLINK, ID_LIMIT, MODE_LIMIT};
use sit::archiver::{
    create_tarball, entries_lie_inside, find_target, name_in_archive, plan_archive, write_archive, ArchiveError, Record, RecordBody,
    ResolvedLink,
};
use sit::driver::{process_directory, Attempt};
use sit::entry::{Entry, EntryType};
use sit::file::Content;
use sit::metadata::{Metadata, Probe};
use sit::path::TreePath;
use sit::revision::Revision;
use sit::scan::{DirScan, Listing, ScanEntry, ScanKind};

fn parts(parts: &[&str]) -> TreePath {
    TreePath { components: parts.iter().map(|s| s.to_string()).collect() }
}

fn capture_root() -> TreePath {
    parts(&["/", "srv", "tree"])
}

fn inside(names: &[&str]) -> TreePath {
    let mut all = vec!["/", "srv", "tree"];
    all.extend_from_slice(names);
    parts(&all)
}

fn info(mode: u32, seconds: u64) -> Metadata {
    Metadata { size: 0, mode, uid: 1000, gid: 100, modified: Revision::at(seconds * 1_000_000_000 + 999_999_999) }
}

fn sample_tree() -> DirScan {
    DirScan {
        probe: Probe::Found(info(0o755, 5)),
        listing: Listing::Entries(vec![
            ScanEntry {
                name: "a.txt".to_string(),
                kind: ScanKind::File(Probe::Found(info(0o644, 1)), Content::Read(b"hello".to_vec())),
            },
            ScanEntry {
                name: "dir".to_string(),
                kind: ScanKind::Directory(DirScan {
                    probe: Probe::Found(info(0o750, 2)),
                    listing: Listing::Entries(vec![ScanEntry {
                        name: "b.txt".to_string(),
                        kind: ScanKind::File(Probe::Found(info(0o600, 3)), Content::Read(b"world".to_vec())),
                    }]),
                }),
            },
            ScanEntry { name: "link".to_string(), kind: ScanKind::Symlink(Probe::Found(info(0o777, 4))) },
        ]),
    }
}

fn sample_entries() -> Vec<Entry> {
    let attempts = vec![Attempt { scan: sample_tree(), ended: Revision::at(11_000_000_000) }];
    process_directory(capture_root(), true, &Probe::Found(info(0o755, 5)), Revision::at(10_000_000_000), &attempts, 5, 3)
        .unwrap()
}

struct Unpacked {
    path: String,
    kind: tar::EntryType,
    size: u64,
    mode: u32,
    mtime: u64,
    uid: u64,
    gid: u64,
    link: Option<String>,
    data: Vec<u8>,
}

fn unpack(bytes: &[u8]) -> Vec<Unpacked> {
    let mut archive = tar::Archive::new(bytes);
    let mut out = Vec::new();
    for entry in archive.entries().unwrap() {
        let mut entry = entry.unwrap();
        let mut data = Vec::new();
        entry.read_to_end(&mut data).unwrap();
        out.push(Unpacked {
            path: entry.path().unwrap().to_string_lossy().into_owned(),
            kind: entry.header().entry_type(),
            size: entry.header().size().unwrap(),
            mode: entry.header().mode().unwrap(),
            mtime: entry.header().mtime().unwrap(),
            uid: entry.header().uid().unwrap(),
            gid: entry.header().gid().unwrap(),
            link: entry.link_name().unwrap().map(|l| l.to_string_lossy().into_owned()),
            data,
        });
    }
    out
}

#[test]
fn round_trip_of_the_sample_tree() {
    let links = vec![ResolvedLink { path: inside(&["link"]), target: inside(&["a.txt"]) }];
    let bytes = create_tarball(&capture_root(), sample_entries(), &links).unwrap();
    let records = unpack(&bytes);
    assert_eq!(records.len(), 5);

    assert_eq!(records[0].path, ".");
    assert_eq!(records[0].kind, tar::EntryType::Directory);
    assert_eq!(records[0].size, 0);
    assert_eq!(records[0].mode, 0o755);
    assert_eq!(records[0].mtime, 5);

    assert_eq!(records[1].path, "a.txt");
    assert_eq!(records[1].kind, tar::EntryType::Regular);
    assert_eq!(zstd::stream::decode_all(&records[1].data[..]).unwrap(), b"hello".to_vec());
    assert_eq!(records[1].size, records[1].data.len() as u64);
    assert_eq!(records[1].mode, 0o644);
    assert_eq!(records[1].mtime, 1);
    assert_eq!(records[1].uid, 1000);
    assert_eq!(records[1].gid, 100);

    assert_eq!(records[2].path, "dir");
    assert_eq!(records[2].kind, tar::EntryType::Directory);
    assert_eq!(records[2].mode, 0o750);

    assert_eq!(records[3].path, "dir/b.txt");
    assert_eq!(records[3].kind, tar::EntryType::Regular);
    assert_eq!(zstd::stream::decode_all(&records[3].data[..]).unwrap(), b"world".to_vec());
    assert_eq!(records[3].mtime, 3);

    assert_eq!(records[4].path, "link");
    assert_eq!(records[4].kind, tar::EntryType::Symlink);
    assert_eq!(records[4].link.as_deref(), Some("a.txt"));
    assert_eq!(records[4].size, 0);
    assert!(records[4].data.is_empty());
}

#[test]
fn escaping_link_is_left_out_and_nothing_fails() {
    let links = vec![ResolvedLink { path: inside(&["link"]), target: parts(&["/", "etc", "passwd"]) }];
    let bytes = create_tarball(&capture_root(), sample_entries(), &links).unwrap();
    let names: Vec<String> = unpack(&bytes).into_iter().map(|r| r.path).collect();
    assert_eq!(names, vec![".", "a.txt", "dir", "dir/b.txt"]);
}

#[test]
fn link_next_to_the_root_by_name_escapes() {
    // "/srv/tree2" shares letters with the root but no component.
    let links = vec![ResolvedLink { path: inside(&["link"]), target: parts(&["/", "srv", "tree2", "a.txt"]) }];
    let records = plan_archive(&capture_root(), sample_entries(), &links);
    assert_eq!(records.len(), 4);
    assert!(records.iter().all(|r| !matches!(r.body, RecordBody::Symlink(_))));
}

#[test]
fn unresolved_link_is_left_out() {
    let bytes = create_tarball(&capture_root(), sample_entries(), &vec![]).unwrap();
    assert_eq!(unpack(&bytes).len(), 4);
}

#[test]
fn plan_names_entries_from_the_root() {
    let links = vec![
        ResolvedLink { path: inside(&["other"]), target: inside(&["dir"]) },
        ResolvedLink { path: inside(&["link"]), target: inside(&["dir", "b.txt"]) },
        ResolvedLink { path: inside(&["link"]), target: inside(&["a.txt"]) },
    ];
    let records = plan_archive(&capture_root(), sample_entries(), &links);
    assert_eq!(records.len(), 5);
    assert_eq!(records[0].name, parts(&["."]));
    assert_eq!(records[0].body, RecordBody::Directory);
    assert_eq!(records[1].name, parts(&["a.txt"]));
    assert!(matches!(records[1].body, RecordBody::File(_)));
    assert_eq!(records[3].name, parts(&["dir", "b.txt"]));
    assert_eq!(records[4].name, parts(&["link"]));
    // The first of the links that speaks of the path decides.
    assert_eq!(records[4].body, RecordBody::Symlink(parts(&["dir", "b.txt"])));
    assert_eq!(records[4].metadata, info(0o777, 4));
}

#[test]
fn link_to_the_root_points_to_dot() {
    let links = vec![ResolvedLink { path: inside(&["link"]), target: capture_root() }];
    let records = plan_archive(&capture_root(), sample_entries(), &links);
    assert_eq!(records[4].body, RecordBody::Symlink(parts(&["."])));
    let bytes = write_archive(&records).unwrap();
    assert_eq!(unpack(&bytes)[4].link.as_deref(), Some("."));
}

#[test]
fn name_of_the_root_is_a_dot() {
    assert_eq!(name_in_archive(&capture_root(), &capture_root()), parts(&["."]));
    assert_eq!(name_in_archive(&capture_root(), &inside(&["x", "y"])), parts(&["x", "y"]));
}

#[test]
fn find_target_takes_the_first_match() {
    let links = vec![
        ResolvedLink { path: parts(&["a"]), target: parts(&["1"]) },
        ResolvedLink { path: parts(&["b"]), target: parts(&["2"]) },
        ResolvedLink { path: parts(&["a"]), target: parts(&["3"]) },
    ];
    assert_eq!(find_target(&links, &parts(&["a"])), Some(&parts(&["1"])));
    assert_eq!(find_target(&links, &parts(&["b"])), Some(&parts(&["2"])));
    assert_eq!(find_target(&links, &parts(&["c"])), None);
}

#[test]
fn header_carries_seconds_and_payload_length() {
    let file = Record {
        name: parts(&["f"]),
        metadata: Metadata { size: 77, mode: 0o640, uid: 7, gid: 8, modified: Revision::at(12_345_678_901) },
        body: RecordBody::File(vec![9; 33]),
    };
    assert_eq!(
        file.header(),
        RecordHeader { typeflag: FLAG_FILE, mode: 0o640, uid: 7, gid: 8, mtime: 12, size: 33 }
    );
    let dir = Record { name: parts(&["d"]), metadata: info(0o700, 9), body: RecordBody::Directory };
    assert_eq!(
        dir.header(),
        RecordHeader { typeflag: FLAG_DIRECTORY, mode: 0o700, uid: 1000, gid: 100, mtime: 9, size: 0 }
    );
    let link = Record { name: parts(&["l"]), metadata: info(0o777, 0), body: RecordBody::Symlink(parts(&["f"])) };
    assert_eq!(
        link.header(),
        RecordHeader { typeflag: FLAG_SYMLINK, mode: 0o777, uid: 1000, gid: 100, mtime: 0, size: 0 }
    );
    assert_eq!((FLAG_FILE, FLAG_SYMLINK, FLAG_DIRECTORY), (b'0', b'2', b'5'));
}

#[test]
fn payload_is_stored_as_it_is() {
    let payload = vec![0u8, 1, 2, 3, 255];
    let records = vec![Record { name: parts(&["raw"]), metadata: info(0o644, 1), body: RecordBody::File(payload.clone()) }];
    let bytes = write_archive(&records).unwrap();
    let back = unpack(&bytes);
    assert_eq!(back.len(), 1);
    assert_eq!(back[0].data, payload);
    assert_eq!(back[0].size, 5);
}

#[test]
fn empty_archive_is_only_the_end_marker() {
    let bytes = write_archive(&vec![]).unwrap();
    assert_eq!(bytes, vec![0u8; 1024]);
    assert_eq!(create_tarball(&capture_root(), vec![], &vec![]).unwrap(), vec![0u8; 1024]);
}

#[test]
fn long_names_are_kept_whole() {
    let long = "n".repeat(150);
    let records = vec![Record { name: parts(&["d", &long]), metadata: info(0o644, 1), body: RecordBody::File(vec![1]) }];
    let back = unpack(&write_archive(&records).unwrap());
    assert_eq!(back.len(), 1);
    assert_eq!(back[0].path, format!("d/{}", long));
}

#[test]
fn name_that_is_no_plain_path_fails_the_archive() {
    let bad_names: Vec<Vec<&str>> =
        vec![vec!["..", "up"], vec!["a", ".", "b"], vec!["a/b"], vec!["a", ""], vec!["nul\0"], vec![".", "a"], vec![]];
    for bad in bad_names {
        let records = vec![
            Record { name: parts(&["ok"]), metadata: info(0o644, 1), body: RecordBody::File(vec![1]) },
            Record { name: parts(&bad), metadata: info(0o644, 1), body: RecordBody::File(vec![1]) },
        ];
        assert!(!records[1].is_storable());
        assert_eq!(write_archive(&records), Err(ArchiveError::Unstorable));
    }
    let entries = vec![Entry { path: inside(&["..", "up"]), metadata: info(0o644, 1), entry_type: EntryType::Directory }];
    assert_eq!(create_tarball(&capture_root(), entries, &vec![]), Err(ArchiveError::Unstorable));
    let link = Record { name: parts(&["l"]), metadata: info(0o777, 1), body: RecordBody::Symlink(parts(&["a", "..", "b"])) };
    assert_eq!(write_archive(&vec![link]), Err(ArchiveError::Unstorable));
}

#[test]
fn fields_that_do_not_fit_fail_the_archive() {
    let fits = Metadata { size: 0, mode: MODE_LIMIT - 1, uid: ID_LIMIT - 1, gid: ID_LIMIT - 1, modified: Revision::at(u64::MAX) };
    let record = Record { name: parts(&["f"]), metadata: fits, body: RecordBody::File(vec![7]) };
    assert!(record.is_storable());
    let back = unpack(&write_archive(&vec![record]).unwrap());
    assert_eq!(back[0].mode, MODE_LIMIT - 1);
    assert_eq!(back[0].uid, ID_LIMIT - 1);
    assert_eq!(back[0].gid, ID_LIMIT - 1);
    assert_eq!(back[0].mtime, u64::MAX / 1_000_000_000);

    for bad in [
        Metadata { mode: MODE_LIMIT, ..fits },
        Metadata { mode: u32::MAX, ..fits },
        Metadata { uid: ID_LIMIT, ..fits },
        Metadata { gid: u64::MAX, ..fits },
    ] {
        let record = Record { name: parts(&["f"]), metadata: bad, body: RecordBody::Directory };
        assert!(!record.is_storable());
        assert_eq!(write_archive(&vec![record]), Err(ArchiveError::Unstorable));
    }
}

#[test]
fn plain_names_are_told_apart() {
    for good in ["a", "a.txt", "...", ".hidden", "with space"] {
        assert!(is_plain_name(&good.to_string()));
    }
    for bad in ["", ".", "..", "a/b", "/", "a\0b"] {
        assert!(!is_plain_name(&bad.to_string()));
    }
    assert!(parts(&["."]).is_storable());
    assert!(parts(&["a", "b"]).is_storable());
    assert!(!parts(&[]).is_storable());
    assert!(!parts(&[".", "."]).is_storable());
    assert!(!parts(&["a", ".."]).is_storable());
    let header = RecordHeader { typeflag: FLAG_FILE, mode: 0, uid: 0, gid: 0, mtime: 0, size: 0 };
    assert!(header.is_storable());
    assert!(!RecordHeader { typeflag: 0, ..header }.is_storable());
    assert!(!RecordHeader { typeflag: b'1', ..header }.is_storable());
}

#[test]
fn entries_of_a_snapshot_lie_inside_its_root() {
    assert!(entries_lie_inside(&capture_root(), &sample_entries()));
    assert!(entries_lie_inside(&capture_root(), &vec![]));
    assert!(!entries_lie_inside(&inside(&["dir"]), &sample_entries()));
    let stray = vec![Entry { path: parts(&["/", "srv", "tree2"]), metadata: info(0o644, 1), entry_type: EntryType::Directory }];
    assert!(!entries_lie_inside(&capture_root(), &stray));
}
