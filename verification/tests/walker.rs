use sit::entry::{Entry, EntryType};
use sit::error::CaptureError;
use sit::file::Content;
use sit::metadata::{Metadata, Probe};
use sit::path::TreePath;
use sit::revision::Revision;
use sit::scan::{DirScan, Listing, ScanEntry, ScanKind};
use sit::visitor::Visitor;

fn tree_path(parts: &[&str]) -> TreePath {
    TreePath { components: parts.iter().map(|s| s.to_string()).collect() }
}

fn seen(modified: u64) -> Metadata {
    Metadata { size: 0, mode: 0o755, uid: 1000, gid: 100, modified: Revision::at(modified) }
}

fn file(name: &str, modified: u64, content: &str) -> ScanEntry {
    ScanEntry {
        name: name.to_string(),
        kind: ScanKind::File(Probe::Found(seen(modified)), Content::Read(content.as_bytes().to_vec())),
    }
}

fn unread_file(name: &str, modified: u64) -> ScanEntry {
    ScanEntry { name: name.to_string(), kind: ScanKind::File(Probe::Found(seen(modified)), Content::Withheld) }
}

fn link(name: &str, modified: u64) -> ScanEntry {
    ScanEntry { name: name.to_string(), kind: ScanKind::Symlink(Probe::Found(seen(modified))) }
}

fn dir(name: &str, modified: u64, entries: Vec<ScanEntry>) -> ScanEntry {
    ScanEntry { name: name.to_string(), kind: ScanKind::Directory(scan(modified, entries)) }
}

fn scan(modified: u64, entries: Vec<ScanEntry>) -> DirScan {
    DirScan { probe: Probe::Found(seen(modified)), listing: Listing::Entries(entries) }
}

fn root() -> TreePath {
    tree_path(&["/", "srv", "tree"])
}

fn under_root(parts: &[&str]) -> TreePath {
    let mut all = vec!["/", "srv", "tree"];
    all.extend_from_slice(parts);
    tree_path(&all)
}

fn compiled(visitor: Visitor, at: u64) -> Vec<Entry> {
    let mut out = Vec::new();
    visitor.compile(Revision::at(at), &mut out);
    out
}

fn unzstd(frame: &[u8]) -> Vec<u8> {
    zstd::stream::decode_all(frame).unwrap()
}

fn sample() -> DirScan {
    scan(
        50,
        vec![
            file("a.txt", 10, "hello"),
            dir("dir", 20, vec![file("b.txt", 30, "world")]),
            link("link", 40),
        ],
    )
}

#[test]
fn create_checks_the_fence() {
    let v = Visitor::create(root(), &Probe::Found(seen(100)), Revision::at(100)).unwrap();
    assert_eq!(v.origin, root());
    assert_eq!(v.metadata, seen(100));
    assert_eq!(v.revision, None);
    assert!(v.entries.is_empty() && v.sub_visitors.is_empty() && v.links.is_empty());
    assert_eq!(
        Visitor::create(root(), &Probe::Found(seen(101)), Revision::at(100)).err(),
        Some(CaptureError::ConcurrentModification)
    );
    assert_eq!(Visitor::create(root(), &Probe::Vanished, Revision::at(100)).err(), Some(CaptureError::ConcurrentDeletion));
    assert_eq!(Visitor::create(root(), &Probe::Unreadable, Revision::at(100)).err(), Some(CaptureError::IoFailure));
}

#[test]
fn quiet_tree_converges_on_first_pass() {
    let mut v = Visitor::create(root(), &Probe::Found(seen(50)), Revision::at(100)).unwrap();
    assert_eq!(v.visit(&sample(), Revision::at(100), 3), Ok(()));
    assert_eq!(v.revision, Some(Revision::at(100)));
    assert_eq!(v.sub_visitors[0].revision, Some(Revision::at(100)));
    let entries = compiled(v, 100);
    assert_eq!(entries.len(), 5);
    assert_eq!(entries[0].path, root());
    assert_eq!(entries[0].entry_type, EntryType::Directory);
    assert_eq!(entries[0].metadata, seen(50));
    assert_eq!(entries[1].path, under_root(&["a.txt"]));
    assert_eq!(entries[1].metadata, seen(10));
    match &entries[1].entry_type {
        EntryType::File(data) => assert_eq!(unzstd(data), b"hello".to_vec()),
        other => panic!("not a file: {:?}", other),
    }
    assert_eq!(entries[2].path, under_root(&["dir"]));
    assert_eq!(entries[2].entry_type, EntryType::Directory);
    assert_eq!(entries[3].path, under_root(&["dir", "b.txt"]));
    match &entries[3].entry_type {
        EntryType::File(data) => assert_eq!(unzstd(data), b"world".to_vec()),
        other => panic!("not a file: {:?}", other),
    }
    assert_eq!(entries[4].path, under_root(&["link"]));
    assert_eq!(entries[4].entry_type, EntryType::Symlink);
    assert_eq!(entries[4].metadata, seen(40));
}

#[test]
fn compile_order_is_dir_files_subdirs_links() {
    let mut v = Visitor::create(root(), &Probe::Found(seen(50)), Revision::at(100)).unwrap();
    let listing = scan(
        50,
        vec![link("z", 1), dir("d", 1, vec![link("inner", 1)]), file("f", 1, "x"), file("g", 1, "y")],
    );
    assert_eq!(v.visit(&listing, Revision::at(100), 3), Ok(()));
    let paths: Vec<TreePath> = compiled(v, 100).into_iter().map(|e| e.path).collect();
    assert_eq!(
        paths,
        vec![
            root(),
            under_root(&["f"]),
            under_root(&["g"]),
            under_root(&["d"]),
            under_root(&["d", "inner"]),
            under_root(&["z"]),
        ]
    );
}

#[test]
fn directory_written_after_the_fence_fails_the_pass() {
    let mut v = Visitor::create(root(), &Probe::Found(seen(50)), Revision::at(100)).unwrap();
    let late = scan(101, vec![file("a.txt", 10, "hello")]);
    assert_eq!(v.visit(&late, Revision::at(100), 3), Err(CaptureError::ConcurrentModification));
    assert!(v.entries.is_empty());
    assert_eq!(v.metadata, seen(50));
}

#[test]
fn pass_stops_at_first_failure_and_keeps_what_came_before() {
    let mut v = Visitor::create(root(), &Probe::Found(seen(50)), Revision::at(100)).unwrap();
    let disturbed = scan(
        50,
        vec![file("a.txt", 10, "hello"), file("b.txt", 150, "late"), file("c.txt", 10, "never")],
    );
    assert_eq!(v.visit(&disturbed, Revision::at(100), 3), Err(CaptureError::ConcurrentModification));
    assert_eq!(v.entries.len(), 1);
    assert_eq!(v.entries[0].path, under_root(&["a.txt"]));
    assert_eq!(v.find_entry(&under_root(&["a.txt"])), Some(0));
    assert_eq!(v.find_entry(&under_root(&["c.txt"])), None);
}

#[test]
fn retry_reuses_cached_content() {
    let mut v = Visitor::create(root(), &Probe::Found(seen(50)), Revision::at(100)).unwrap();
    let disturbed = scan(50, vec![file("a.txt", 10, "hello"), file("b.txt", 150, "late")]);
    assert_eq!(v.visit(&disturbed, Revision::at(100), 3), Err(CaptureError::ConcurrentModification));
    // Second pass: a.txt is unchanged, so its content is withheld; b.txt is read now.
    let calm = scan(50, vec![unread_file("a.txt", 10), file("b.txt", 150, "late")]);
    assert_eq!(v.visit(&calm, Revision::at(200), 3), Ok(()));
    let entries = compiled(v, 200);
    assert_eq!(entries.len(), 3);
    match &entries[1].entry_type {
        EntryType::File(data) => assert_eq!(unzstd(data), b"hello".to_vec()),
        other => panic!("not a file: {:?}", other),
    }
    match &entries[2].entry_type {
        EntryType::File(data) => assert_eq!(unzstd(data), b"late".to_vec()),
        other => panic!("not a file: {:?}", other),
    }
}

#[test]
fn deleted_file_is_left_out_of_later_pass() {
    let mut v = Visitor::create(root(), &Probe::Found(seen(50)), Revision::at(100)).unwrap();
    let first = scan(
        50,
        vec![file("gone.txt", 10, "bye"), dir("old", 10, vec![file("x", 10, "x")]), link("dead", 10), file("late", 150, "!")],
    );
    assert_eq!(v.visit(&first, Revision::at(100), 3), Err(CaptureError::ConcurrentModification));
    let second = scan(160, vec![unread_file("late", 150)]);
    // "late" was never captured, so withholding it is an I/O failure; hand it in.
    assert_eq!(v.visit(&second, Revision::at(200), 3), Err(CaptureError::IoFailure));
    let third = scan(160, vec![file("late", 150, "!")]);
    assert_eq!(v.visit(&third, Revision::at(300), 3), Ok(()));
    assert_eq!(v.entries.len(), 2);
    let paths: Vec<TreePath> = compiled(v, 300).into_iter().map(|e| e.path).collect();
    assert_eq!(paths, vec![root(), under_root(&["late"])]);
}

#[test]
fn vanished_entries_call_for_a_retry() {
    let mut v = Visitor::create(root(), &Probe::Found(seen(50)), Revision::at(100)).unwrap();
    let gone_file = scan(50, vec![ScanEntry { name: "a".to_string(), kind: ScanKind::File(Probe::Vanished, Content::Withheld) }]);
    assert_eq!(v.visit(&gone_file, Revision::at(100), 3), Err(CaptureError::ConcurrentDeletion));
    let gone_link = scan(50, vec![ScanEntry { name: "l".to_string(), kind: ScanKind::Symlink(Probe::Vanished) }]);
    assert_eq!(v.visit(&gone_link, Revision::at(100), 3), Err(CaptureError::ConcurrentDeletion));
    let gone_dir = scan(
        50,
        vec![ScanEntry {
            name: "d".to_string(),
            kind: ScanKind::Directory(DirScan { probe: Probe::Vanished, listing: Listing::Vanished }),
        }],
    );
    assert_eq!(v.visit(&gone_dir, Revision::at(100), 3), Err(CaptureError::ConcurrentDeletion));
    assert!(v.sub_visitors.is_empty());
    let gone_listing = DirScan { probe: Probe::Found(seen(50)), listing: Listing::Vanished };
    assert_eq!(v.visit(&gone_listing, Revision::at(100), 3), Err(CaptureError::ConcurrentDeletion));
    let unlisted = scan(50, vec![ScanEntry { name: "?".to_string(), kind: ScanKind::Unlisted }]);
    assert_eq!(v.visit(&unlisted, Revision::at(100), 3), Err(CaptureError::ConcurrentModification));
}

#[test]
fn unreadable_entries_are_fatal() {
    let mut v = Visitor::create(root(), &Probe::Found(seen(50)), Revision::at(100)).unwrap();
    let locked = scan(50, vec![ScanEntry { name: "a".to_string(), kind: ScanKind::File(Probe::Unreadable, Content::Withheld) }]);
    assert_eq!(v.visit(&locked, Revision::at(100), 3), Err(CaptureError::IoFailure));
    let unread = scan(50, vec![ScanEntry { name: "a".to_string(), kind: ScanKind::File(Probe::Found(seen(1)), Content::Unreadable) }]);
    assert_eq!(v.visit(&unread, Revision::at(100), 3), Err(CaptureError::IoFailure));
    let closed = DirScan { probe: Probe::Found(seen(50)), listing: Listing::Unreadable };
    assert_eq!(v.visit(&closed, Revision::at(100), 3), Err(CaptureError::IoFailure));
    assert_eq!(v.visit(&DirScan { probe: Probe::Unreadable, listing: Listing::Unreadable }, Revision::at(100), 3), Err(CaptureError::IoFailure));
}

#[test]
fn other_kinds_are_passed_over() {
    let mut v = Visitor::create(root(), &Probe::Found(seen(50)), Revision::at(100)).unwrap();
    let listing = scan(50, vec![ScanEntry { name: "socket".to_string(), kind: ScanKind::Other }, file("a", 1, "a")]);
    assert_eq!(v.visit(&listing, Revision::at(100), 3), Ok(()));
    let paths: Vec<TreePath> = compiled(v, 100).into_iter().map(|e| e.path).collect();
    assert_eq!(paths, vec![root(), under_root(&["a"])]);
}

#[test]
fn new_sub_directory_is_kept_even_if_its_pass_fails() {
    let mut v = Visitor::create(root(), &Probe::Found(seen(50)), Revision::at(100)).unwrap();
    let listing = scan(50, vec![dir("d", 10, vec![file("ok", 1, "ok"), file("late", 150, "late")])]);
    assert_eq!(v.visit(&listing, Revision::at(100), 3), Err(CaptureError::ConcurrentModification));
    assert_eq!(v.find_sub_visitor(&under_root(&["d"])), Some(0));
    assert_eq!(v.sub_visitors[0].entries.len(), 1);
    assert_eq!(v.sub_visitors[0].origin, under_root(&["d"]));
    // Neither node went through its listing, so neither bears the revision.
    assert_eq!(v.sub_visitors[0].revision, None);
    assert_eq!(v.revision, None);
    assert_eq!(v.find_link(&under_root(&["d"])), None);
}

#[test]
fn compile_skips_what_is_not_at_the_revision() {
    let mut v = Visitor::create(root(), &Probe::Found(seen(50)), Revision::at(100)).unwrap();
    assert_eq!(v.visit(&sample(), Revision::at(100), 3), Ok(()));
    // Asked for another revision than the tree converged to, the tree gives nothing.
    assert!(compiled(v, 101).is_empty());
}

#[test]
fn compile_appends_to_what_is_there() {
    let mut v = Visitor::create(root(), &Probe::Found(seen(50)), Revision::at(100)).unwrap();
    assert_eq!(v.visit(&scan(50, vec![]), Revision::at(100), 3), Ok(()));
    let mut out = vec![Entry { path: tree_path(&["kept"]), metadata: seen(1), entry_type: EntryType::Symlink }];
    v.compile(Revision::at(100), &mut out);
    assert_eq!(out.len(), 2);
    assert_eq!(out[0].path, tree_path(&["kept"]));
    assert_eq!(out[1].path, root());
}

#[test]
fn entries_are_made_from_records() {
    let mut v = Visitor::create(root(), &Probe::Found(seen(50)), Revision::at(100)).unwrap();
    assert_eq!(v.visit(&sample(), Revision::at(100), 3), Ok(()));
    let d = Entry::from_directory(&v);
    assert_eq!(d.path, root());
    assert_eq!(d.entry_type, EntryType::Directory);
    let data = v.entries[0].encoded_data.clone();
    let f = Entry::from(v.entries.remove(0));
    assert_eq!(f.path, under_root(&["a.txt"]));
    assert_eq!(f.entry_type, EntryType::File(data));
    let l = Entry::from(v.links.remove(0));
    assert_eq!(l.path, under_root(&["link"]));
    assert_eq!(l.entry_type, EntryType::Symlink);
}

#[test]
fn fvisit_and_enter_do_not_stamp_the_node() {
    let mut v = Visitor::create(root(), &Probe::Found(seen(50)), Revision::at(100)).unwrap();
    assert_eq!(v.fvisit(&Listing::Entries(vec![file("a", 1, "a")]), Revision::at(200), 3), Ok(()));
    assert_eq!(v.revision, None);
    assert_eq!(v.entries[0].visit_revision, Revision::at(200));
    assert_eq!(v.enter(&link("l", 1), Revision::at(300), 3), Ok(()));
    assert_eq!(v.links[0].visit_revision, Revision::at(300));
    assert_eq!(v.revision, None);
}

#[test]
fn second_pass_keeps_one_record_per_path() {
    let mut v = Visitor::create(root(), &Probe::Found(seen(50)), Revision::at(100)).unwrap();
    assert_eq!(v.visit(&sample(), Revision::at(100), 3), Ok(()));
    assert_eq!(v.visit(&sample(), Revision::at(200), 3), Ok(()));
    assert_eq!((v.entries.len(), v.sub_visitors.len(), v.links.len()), (1, 1, 1));
    assert_eq!(v.sub_visitors[0].entries.len(), 1);
    assert_eq!(v.sub_visitors[0].revision, Some(Revision::at(200)));
    assert_eq!(compiled(v, 200).len(), 5);
}

#[test]
fn name_listed_twice_gives_one_record() {
    let mut v = Visitor::create(root(), &Probe::Found(seen(50)), Revision::at(100)).unwrap();
    let twice = scan(50, vec![file("a", 10, "first"), file("a", 10, "second")]);
    assert_eq!(v.visit(&twice, Revision::at(100), 3), Ok(()));
    assert_eq!(v.entries.len(), 1);
    // The second mention revisits the record made by the first; the file was
    // written before the record was confirmed, so its content stays.
    assert_eq!(unzstd(&v.entries[0].encoded_data), b"first".to_vec());
}

#[test]
fn failed_pass_leaves_the_earlier_revision() {
    let mut v = Visitor::create(root(), &Probe::Found(seen(50)), Revision::at(100)).unwrap();
    assert_eq!(v.visit(&sample(), Revision::at(100), 3), Ok(()));
    let disturbed = scan(50, vec![dir("dir", 20, vec![file("b.txt", 250, "late")])]);
    assert_eq!(v.visit(&disturbed, Revision::at(200), 3), Err(CaptureError::ConcurrentModification));
    assert_eq!(v.revision, Some(Revision::at(100)));
    assert_eq!(v.sub_visitors[0].revision, Some(Revision::at(100)));
    assert!(compiled(v, 200).is_empty());
}
