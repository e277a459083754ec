use vstd::prelude::*;
use crate::entry::{dir_entry, entry_models, file_entry, link_entry, Entry, EntryModel};
use crate::file::FileModel;
use crate::model::DirModel;
use crate::revision::Revision;
use crate::symlink::LinkModel;
use crate::visitor::{view_unfolded, Visitor};

verus! {

/// The entries of the first `n` of `files` that are stamped with `target`, in order.
pub open spec fn kept_files(files: Seq<FileModel>, n: nat, target: Revision) -> Seq<EntryModel>
    decreases n,
{
    if n == 0 || n > files.len() {
        Seq::empty()
    } else {
        let before = kept_files(files, (n - 1) as nat, target);
        if files[n - 1].revision == target {
            before.push(file_entry(files[n - 1]))
        } else {
            before
        }
    }
}

/// The entries of the first `n` of `links` that are stamped with `target`, in order.
pub open spec fn kept_links(links: Seq<LinkModel>, n: nat, target: Revision) -> Seq<EntryModel>
    decreases n,
{
    if n == 0 || n > links.len() {
        Seq::empty()
    } else {
        let before = kept_links(links, (n - 1) as nat, target);
        if links[n - 1].revision == target {
            before.push(link_entry(links[n - 1]))
        } else {
            before
        }
    }
}

/// The flat list of what a converged tree holds as of `target`.
///
/// A node that is not stamped with `target` gives nothing, and neither does
/// anything below it. Any other node gives its own directory entry first,
/// then the files stamped with `target`, then what its sub-directories give,
/// each in turn, then the links stamped with `target`.
pub open spec fn compiled(dir: DirModel, target: Revision) -> Seq<EntryModel>
    decreases dir, 0nat,
{
    if dir.revision != Some(target) {
        Seq::empty()
    } else {
        seq![dir_entry(dir)] + kept_files(dir.files, dir.files.len(), target) + compiled_dirs(
            dir.dirs,
            dir.dirs.len(),
            target,
        ) + kept_links(dir.links, dir.links.len(), target)
    }
}

/// What the first `n` of `dirs` give as of `target`, one after the other.
pub open spec fn compiled_dirs(dirs: Seq<DirModel>, n: nat, target: Revision) -> Seq<EntryModel>
    decreases dirs, n,
{
    if n == 0 || n > dirs.len() {
        Seq::empty()
    } else {
        compiled_dirs(dirs, (n - 1) as nat, target) + compiled(dirs[n - 1], target)
    }
}

impl Visitor {
    /// Appends to `compiled_entries` the flat list of what this tree holds as
    /// of `time_to_match`.
    pub fn compile(self, time_to_match: Revision, compiled_entries: &mut Vec<Entry>)
        ensures
            entry_models(final(compiled_entries)@) == entry_models(old(compiled_entries)@)
                + compiled(self@, time_to_match),
        decreases self,
    {
        proof {
            view_unfolded(self);
        }
        let confirmed = match self.revision {
            Some(revision) => revision == time_to_match,
            None => false,
        };
        if !confirmed {
            assert(entry_models(compiled_entries@) =~= entry_models(old(compiled_entries)@)
                + compiled(self@, time_to_match));
            return ;
        }
        let ghost start = entry_models(old(compiled_entries)@);
        let ghost model = self@;
        compiled_entries.push(Entry::from_directory(&self));
        assert(entry_models(compiled_entries@) =~= start + seq![dir_entry(model)]);
        let Visitor { origin: _, metadata: _, revision: _, entries, sub_visitors, links } = self;
        let ghost after_dir = entry_models(compiled_entries@);
        for entry in it: entries.into_iter()
            invariant
                it.seq() == entries@,
                model.files.len() == entries@.len(),
                forall|i: int| 0 <= i < entries@.len() ==> model.files[i] == entries@[i]@,
                entry_models(compiled_entries@) == after_dir + kept_files(
                    model.files,
                    it.index() as nat,
                    time_to_match,
                ),
        {
            if entry.visit_revision == time_to_match {
                let ghost before = entry_models(compiled_entries@);
                compiled_entries.push(Entry::from(entry));
                assert(entry_models(compiled_entries@) =~= before.push(file_entry(entry@)));
            }
        }
        let ghost after_files = entry_models(compiled_entries@);
        for visitor in it: sub_visitors.into_iter()
            invariant
                it.seq() == sub_visitors@,
                sub_visitors == self.sub_visitors,
                model.dirs.len() == sub_visitors@.len(),
                forall|i: int| 0 <= i < sub_visitors@.len() ==> model.dirs[i] == sub_visitors@[i]@,
                entry_models(compiled_entries@) == after_files + compiled_dirs(
                    model.dirs,
                    it.index() as nat,
                    time_to_match,
                ),
        {
            let ghost before = entry_models(compiled_entries@);
            visitor.compile(time_to_match, compiled_entries);
            assert(entry_models(compiled_entries@) =~= after_files + (compiled_dirs(
                model.dirs,
                it.index() as nat,
                time_to_match,
            ) + compiled(visitor@, time_to_match)));
        }
        let ghost after_dirs = entry_models(compiled_entries@);
        for link in it: links.into_iter()
            invariant
                it.seq() == links@,
                model.links.len() == links@.len(),
                forall|i: int| 0 <= i < links@.len() ==> model.links[i] == links@[i]@,
                entry_models(compiled_entries@) == after_dirs + kept_links(
                    model.links,
                    it.index() as nat,
                    time_to_match,
                ),
        {
            if link.visit_revision == time_to_match {
                let ghost before = entry_models(compiled_entries@);
                compiled_entries.push(Entry::from(link));
                assert(entry_models(compiled_entries@) =~= before.push(link_entry(link@)));
            }
        }
        assert(entry_models(compiled_entries@) =~= start + compiled(model, time_to_match));
    }
}

} // verus!
