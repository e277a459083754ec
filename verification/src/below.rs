use vstd::prelude::*;
use crate::quiet::{
    dirs_of, distinct_names, files_of, links_of, quiet, quiet_entries, quiet_entry, snapshot_of,
};
use crate::revision::Revision;
use crate::scan::{DirScan, Listing, ScanEntry, ScanKind};

verus! {

/// Whether `scan` shows a symbolic link at `path` in the directory at `origin`.
pub open spec fn link_shown(path: Seq<Seq<char>>, origin: Seq<Seq<char>>, scan: DirScan) -> bool
    decreases scan, 0nat,
{
    match scan.listing {
        Listing::Entries(entries) => link_shown_among(path, origin, entries@, entries@.len()),
        _ => false,
    }
}

/// Whether one of the first `n` of `entries` shows a symbolic link at `path`.
pub open spec fn link_shown_among(
    path: Seq<Seq<char>>,
    origin: Seq<Seq<char>>,
    entries: Seq<ScanEntry>,
    n: nat,
) -> bool
    decreases entries, n,
{
    n > 0 && n <= entries.len() && (link_shown_among(path, origin, entries, (n - 1) as nat)
        || link_shown_by(path, origin, entries[n - 1]))
}

/// Whether `entry` shows a symbolic link at `path`: it is that link, or a
/// sub-directory that shows it.
pub open spec fn link_shown_by(path: Seq<Seq<char>>, origin: Seq<Seq<char>>, entry: ScanEntry) -> bool
    decreases entry, 0nat,
{
    match entry.kind {
        ScanKind::Symlink(_) => path == origin.push(entry.name@),
        ScanKind::Directory(sub) => link_shown(path, origin.push(entry.name@), sub),
        _ => false,
    }
}

/// A prefix of a prefix is a prefix.
pub proof fn prefix_of_prefix(a: Seq<Seq<char>>, b: Seq<Seq<char>>, c: Seq<Seq<char>>)
    requires
        a.is_prefix_of(b),
        b.is_prefix_of(c),
    ensures
        a.is_prefix_of(c),
{
    assert(a =~= c.subrange(0, a.len() as int)) by {
        assert forall|k: int| 0 <= k < a.len() implies a[k] == c.subrange(0, a.len() as int)[k] by {
            assert(a[k] == b.subrange(0, a.len() as int)[k]);
            assert(b[k] == c.subrange(0, b.len() as int)[k]);
        }
    }
}

/// Two prefixes of one path that are equally long are the same.
pub proof fn equally_long_prefixes(a: Seq<Seq<char>>, b: Seq<Seq<char>>, c: Seq<Seq<char>>)
    requires
        a.is_prefix_of(c),
        b.is_prefix_of(c),
        a.len() == b.len(),
    ensures
        a == b,
{
    assert(a =~= b);
}

/// Two paths one level below a directory are the same only under the same name.
pub proof fn same_path_same_name(origin: Seq<Seq<char>>, a: Seq<char>, b: Seq<char>)
    requires
        origin.push(a) == origin.push(b),
    ensures
        a == b,
{
    assert(origin.push(a).last() == a);
    assert(origin.push(b).last() == b);
}

/// A path lies below the directory that it is one level below.
pub proof fn pushed_lies_below(origin: Seq<Seq<char>>, name: Seq<char>)
    ensures
        origin.is_prefix_of(origin.push(name)),
        origin.push(name).is_prefix_of(origin.push(name)),
{
    assert(origin =~= origin.push(name).subrange(0, origin.len() as int));
    assert(origin.push(name) =~= origin.push(name).subrange(0, origin.push(name).len() as int));
}

/// A link that a scan shows lies strictly below the directory scanned.
pub proof fn link_shown_lies_below(path: Seq<Seq<char>>, origin: Seq<Seq<char>>, scan: DirScan)
    requires
        link_shown(path, origin, scan),
    ensures
        origin.is_prefix_of(path),
        path.len() > origin.len(),
    decreases scan, 0nat,
{
    match scan.listing {
        Listing::Entries(entries) => {
            let l = link_among_witness(path, origin, entries@, entries@.len());
            pushed_lies_below(origin, entries@[l].name@);
            prefix_of_prefix(origin, origin.push(entries@[l].name@), path);
        },
        _ => {},
    }
}

/// The entry among the first `n` that shows the link at `path`.
pub proof fn link_among_witness(
    path: Seq<Seq<char>>,
    origin: Seq<Seq<char>>,
    entries: Seq<ScanEntry>,
    n: nat,
) -> (l: int)
    requires
        link_shown_among(path, origin, entries, n),
    ensures
        0 <= l < n <= entries.len(),
        link_shown_by(path, origin, entries[l]),
        origin.push(entries[l].name@).is_prefix_of(path),
    decreases entries, n,
{
    if link_shown_among(path, origin, entries, (n - 1) as nat) {
        link_among_witness(path, origin, entries, (n - 1) as nat)
    } else {
        let entry = entries[n - 1];
        assert(link_shown_by(path, origin, entry));
        match entry.kind {
            ScanKind::Directory(sub) => {
                link_shown_lies_below(path, origin.push(entry.name@), sub);
            },
            _ => {
                pushed_lies_below(origin, entry.name@);
            },
        }
        n - 1
    }
}

/// The file of the listing that an entry of `files_of` stands for.
pub proof fn file_entry_source(
    origin: Seq<Seq<char>>,
    entries: Seq<ScanEntry>,
    n: nat,
    level: i32,
    i: int,
) -> (j: int)
    requires
        n <= entries.len(),
        0 <= i < files_of(origin, entries, n, level).len(),
    ensures
        0 <= j < n,
        entries[j].kind is File,
        files_of(origin, entries, n, level)[i].path == origin.push(entries[j].name@),
        files_of(origin, entries, n, level)[i].kind is File,
    decreases n,
{
    let before = files_of(origin, entries, (n - 1) as nat, level);
    if i < before.len() {
        file_entry_source(origin, entries, (n - 1) as nat, level, i)
    } else {
        n - 1
    }
}

/// The link of the listing that an entry of `links_of` stands for.
pub proof fn link_entry_source(origin: Seq<Seq<char>>, entries: Seq<ScanEntry>, n: nat, i: int) -> (j:
    int)
    requires
        n <= entries.len(),
        0 <= i < links_of(origin, entries, n).len(),
    ensures
        0 <= j < n,
        entries[j].kind is Symlink,
        links_of(origin, entries, n)[i].path == origin.push(entries[j].name@),
        links_of(origin, entries, n)[i].kind is Symlink,
    decreases n,
{
    let before = links_of(origin, entries, (n - 1) as nat);
    if i < before.len() {
        link_entry_source(origin, entries, (n - 1) as nat, i)
    } else {
        n - 1
    }
}

/// The sub-directory of the listing that an entry of `dirs_of` comes from,
/// and its place in what that sub-directory holds.
pub proof fn dir_entry_source(
    origin: Seq<Seq<char>>,
    entries: Seq<ScanEntry>,
    n: nat,
    level: i32,
    i: int,
) -> (r: (int, int))
    requires
        n <= entries.len(),
        0 <= i < dirs_of(origin, entries, n, level).len(),
    ensures
        0 <= r.0 < n,
        entries[r.0].kind is Directory,
        0 <= r.1 < snapshot_of(
            origin.push(entries[r.0].name@),
            entries[r.0].kind->Directory_0,
            level,
        ).len(),
        dirs_of(origin, entries, n, level)[i] == snapshot_of(
            origin.push(entries[r.0].name@),
            entries[r.0].kind->Directory_0,
            level,
        )[r.1],
    decreases n,
{
    let before = dirs_of(origin, entries, (n - 1) as nat, level);
    if i < before.len() {
        dir_entry_source(origin, entries, (n - 1) as nat, level, i)
    } else {
        (n - 1, i - before.len())
    }
}

/// Whatever a directory holds lies at or below it.
pub proof fn held_lies_inside(origin: Seq<Seq<char>>, scan: DirScan, level: i32, i: int)
    requires
        0 <= i < snapshot_of(origin, scan, level).len(),
    ensures
        origin.is_prefix_of(snapshot_of(origin, scan, level)[i].path),
    decreases scan, 0nat,
{
    match scan.listing {
        Listing::Entries(entries) => {
            let n = entries@.len();
            let files = files_of(origin, entries@, n, level);
            let below = dirs_of(origin, entries@, n, level);
            if i == 0 {
                assert(origin =~= origin.subrange(0, origin.len() as int));
            } else if i < 1 + files.len() {
                let j = file_entry_source(origin, entries@, n, level, i - 1);
                pushed_lies_below(origin, entries@[j].name@);
            } else if i < 1 + files.len() + below.len() {
                let r = dir_entry_source(origin, entries@, n, level, i - 1 - files.len());
                let own = origin.push(entries@[r.0].name@);
                held_lies_inside(own, entries@[r.0].kind->Directory_0, level, r.1);
                pushed_lies_below(origin, entries@[r.0].name@);
                prefix_of_prefix(origin, own, snapshot_of(origin, scan, level)[i].path);
            } else {
                let j = link_entry_source(origin, entries@, n, i - 1 - files.len() - below.len());
                pushed_lies_below(origin, entries@[j].name@);
            }
        },
        _ => {},
    }
}

/// Each of the first `n` entries of a quiet listing is quiet.
pub proof fn quiet_at(entries: Seq<ScanEntry>, n: nat, target: Revision, level: i32, j: int)
    requires
        n <= entries.len(),
        quiet_entries(entries, n, target, level),
        0 <= j < n,
    ensures
        quiet_entry(entries[j], target, level),
    decreases n,
{
    if j < n - 1 {
        quiet_at(entries, (n - 1) as nat, target, level, j);
    }
}

/// In a tree that nothing disturbs, nothing is held at or below the path of a
/// symbolic link but the link itself: no file and no directory is entered
/// through it.
pub proof fn nothing_lies_below_a_link(
    path: Seq<Seq<char>>,
    origin: Seq<Seq<char>>,
    scan: DirScan,
    target: Revision,
    level: i32,
    i: int,
)
    requires
        quiet(scan, target, level),
        link_shown(path, origin, scan),
        0 <= i < snapshot_of(origin, scan, level).len(),
        path.is_prefix_of(snapshot_of(origin, scan, level)[i].path),
    ensures
        snapshot_of(origin, scan, level)[i].path == path,
        snapshot_of(origin, scan, level)[i].kind is Symlink,
    decreases scan, 0nat,
{
    match scan.listing {
        Listing::Entries(entries) => {
            let n = entries@.len();
            let held = snapshot_of(origin, scan, level)[i];
            let files = files_of(origin, entries@, n, level);
            let below = dirs_of(origin, entries@, n, level);
            link_shown_lies_below(path, origin, scan);
            let l = link_among_witness(path, origin, entries@, n);
            let shown = origin.push(entries@[l].name@);
            prefix_of_prefix(shown, path, held.path);
            if i == 0 {
            } else if i < 1 + files.len() {
                let j = file_entry_source(origin, entries@, n, level, i - 1);
                same_entry(origin, entries@, l, j, held.path);
            } else if i < 1 + files.len() + below.len() {
                let r = dir_entry_source(origin, entries@, n, level, i - 1 - files.len());
                let j = r.0;
                let own = origin.push(entries@[j].name@);
                held_lies_inside(own, entries@[j].kind->Directory_0, level, r.1);
                same_entry(origin, entries@, l, j, held.path);
                quiet_at(entries@, n, target, level, j);
                nothing_lies_below_a_link(
                    path,
                    own,
                    entries@[j].kind->Directory_0,
                    target,
                    level,
                    r.1,
                );
            } else {
                let j = link_entry_source(origin, entries@, n, i - 1 - files.len() - below.len());
                same_entry(origin, entries@, l, j, held.path);
                equally_long_prefixes(path, held.path, held.path);
            }
        },
        _ => {},
    }
}

/// Two entries of a listing without double names whose paths are both
/// prefixes of one path are one entry.
proof fn same_entry(
    origin: Seq<Seq<char>>,
    entries: Seq<ScanEntry>,
    l: int,
    j: int,
    held: Seq<Seq<char>>,
)
    requires
        distinct_names(entries),
        0 <= l < entries.len(),
        0 <= j < entries.len(),
        origin.push(entries[l].name@).is_prefix_of(held),
        origin.push(entries[j].name@).is_prefix_of(held),
    ensures
        l == j,
{
    equally_long_prefixes(origin.push(entries[l].name@), origin.push(entries[j].name@), held);
    same_path_same_name(origin, entries[l].name@, entries[j].name@);
    if l < j {
        assert(entries[l].name@ != entries[j].name@);
    }
    if j < l {
        assert(entries[j].name@ != entries[l].name@);
    }
}

} // verus!
