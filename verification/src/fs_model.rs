use vstd::prelude::*;
use crate::archive::EntryModel;
use crate::extract::{parent_of, plan_model, entry_actions, FsActionModel};

verus! {

/// The abstract state of the extraction root: which directories exist under
/// it (the empty path is the root itself) and which files, with their
/// content.
#[verifier::ext_equal]
pub struct FsState {
    pub dirs: Set<Seq<u8>>,
    pub files: Map<Seq<u8>, Seq<u8>>,
}

/// Walking from a path up to the root never gets longer.
pub proof fn lemma_parent_shorter(p: Seq<u8>)
    requires
        p.len() > 0,
    ensures
        parent_of(p).len() < p.len(),
    decreases p.len(),
{
    if p[p.len() - 1] == crate::extract::SLASH {
    } else {
        assert(parent_of(p) == parent_of(p.drop_last()));
        if p.drop_last().len() > 0 {
            lemma_parent_shorter(p.drop_last());
        } else {
            assert(parent_of(p.drop_last()) == p.drop_last());
        }
    }
}

/// A path together with every directory above it, up to the root.
pub open spec fn ancestors(p: Seq<u8>) -> Set<Seq<u8>>
    decreases p.len() via ancestors_decreases
{
    if p.len() == 0 {
        set![p]
    } else {
        ancestors(parent_of(p)).insert(p)
    }
}

#[via_fn]
proof fn ancestors_decreases(p: Seq<u8>) {
    if p.len() > 0 {
        lemma_parent_shorter(p);
    }
}

/// The directories one step brings into existence.
pub open spec fn action_dirs(a: FsActionModel) -> Set<Seq<u8>> {
    match a {
        FsActionModel::EnsureDir { path } => ancestors(path),
        FsActionModel::WriteFile { .. } => Set::empty(),
    }
}

/// The file contents one step establishes.
pub open spec fn action_writes(a: FsActionModel) -> Map<Seq<u8>, Seq<u8>> {
    match a {
        FsActionModel::WriteFile { path, data } => map![path => data],
        FsActionModel::EnsureDir { .. } => Map::empty(),
    }
}

/// The effect of one step: ensuring a directory creates it and every missing
/// ancestor; writing a file sets its content, replacing any previous one.
pub open spec fn apply_action(fs: FsState, a: FsActionModel) -> FsState {
    match a {
        FsActionModel::EnsureDir { path } => FsState {
            dirs: fs.dirs + ancestors(path),
            files: fs.files,
        },
        FsActionModel::WriteFile { path, data } => FsState {
            dirs: fs.dirs,
            files: fs.files.insert(path, data),
        },
    }
}

/// The effect of a whole step list, first step first.
pub open spec fn apply_plan(fs: FsState, plan: Seq<FsActionModel>) -> FsState
    decreases plan.len(),
{
    if plan.len() == 0 {
        fs
    } else {
        apply_plan(apply_action(fs, plan[0]), plan.drop_first())
    }
}

/// All directories a step list brings into existence.
pub open spec fn plan_dirs(plan: Seq<FsActionModel>) -> Set<Seq<u8>>
    decreases plan.len(),
{
    if plan.len() == 0 {
        Set::empty()
    } else {
        plan_dirs(plan.drop_last()) + action_dirs(plan.last())
    }
}

/// The net file contents a step list establishes: the last write of each path
/// wins.
pub open spec fn plan_writes(plan: Seq<FsActionModel>) -> Map<Seq<u8>, Seq<u8>>
    decreases plan.len(),
{
    if plan.len() == 0 {
        Map::empty()
    } else {
        plan_writes(plan.drop_last()).union_prefer_right(action_writes(plan.last()))
    }
}

proof fn lemma_apply_plan_snoc(fs: FsState, s: Seq<FsActionModel>, a: FsActionModel)
    ensures
        apply_plan(fs, s.push(a)) == apply_action(apply_plan(fs, s), a),
    decreases s.len(),
{
    if s.len() == 0 {
        assert(s.push(a)[0] == a);
        assert(s.push(a).drop_first() =~= Seq::<FsActionModel>::empty());
        assert(apply_plan(fs, s) == fs);
        assert(apply_plan(apply_action(fs, a), Seq::<FsActionModel>::empty()) == apply_action(
            fs,
            a,
        ));
    } else {
        assert(s.push(a)[0] == s[0]);
        assert(s.push(a).drop_first() =~= s.drop_first().push(a));
        assert(apply_plan(fs, s) == apply_plan(apply_action(fs, s[0]), s.drop_first()));
        lemma_apply_plan_snoc(apply_action(fs, s[0]), s.drop_first(), a);
    }
}

/// What a step list leaves behind, on any starting state: the old directories
/// plus the list's, and the old files overridden by the list's writes.
pub proof fn lemma_apply_plan_effect(fs: FsState, plan: Seq<FsActionModel>)
    ensures
        apply_plan(fs, plan).dirs == fs.dirs + plan_dirs(plan),
        apply_plan(fs, plan).files == fs.files.union_prefer_right(plan_writes(plan)),
    decreases plan.len(),
{
    if plan.len() == 0 {
        assert(fs.dirs + plan_dirs(plan) =~= fs.dirs);
        assert(fs.files.union_prefer_right(plan_writes(plan)) =~= fs.files);
    } else {
        let s = plan.drop_last();
        let a = plan.last();
        assert(plan =~= s.push(a));
        lemma_apply_plan_snoc(fs, s, a);
        lemma_apply_plan_effect(fs, s);
        assert(apply_plan(fs, plan).dirs =~= fs.dirs + plan_dirs(plan));
        assert(apply_plan(fs, plan).files =~= fs.files.union_prefer_right(plan_writes(plan)));
    }
}

/// Extracting the same steps twice leaves exactly the state extracting them
/// once leaves: file contents are overwritten, not appended, and directory
/// creation is idempotent.
pub proof fn lemma_extraction_idempotent(fs: FsState, plan: Seq<FsActionModel>)
    ensures
        apply_plan(apply_plan(fs, plan), plan) == apply_plan(fs, plan),
{
    let once = apply_plan(fs, plan);
    lemma_apply_plan_effect(fs, plan);
    lemma_apply_plan_effect(once, plan);
    assert(apply_plan(once, plan).dirs =~= once.dirs);
    assert(apply_plan(once, plan).files =~= once.files);
    assert(apply_plan(once, plan) =~= once);
}

/// A file the steps never write keeps exactly the content it had before, so
/// pre-existing unrelated files survive an extraction.
pub proof fn lemma_untouched_files_survive(fs: FsState, plan: Seq<FsActionModel>, p: Seq<u8>)
    requires
        !plan_writes(plan).dom().contains(p),
    ensures
        apply_plan(fs, plan).files.contains_key(p) <==> fs.files.contains_key(p),
        fs.files.contains_key(p) ==> apply_plan(fs, plan).files[p] == fs.files[p],
{
    lemma_apply_plan_effect(fs, plan);
}

/// A file the steps write ends up with the written content, whatever the
/// destination held before.
pub proof fn lemma_written_files_exact(fs: FsState, plan: Seq<FsActionModel>, p: Seq<u8>)
    requires
        plan_writes(plan).dom().contains(p),
    ensures
        apply_plan(fs, plan).files.contains_key(p),
        apply_plan(fs, plan).files[p] == plan_writes(plan)[p],
{
    lemma_apply_plan_effect(fs, plan);
}

/// The file content one entry establishes: nothing for a directory.
pub open spec fn entry_writes(e: EntryModel) -> Map<Seq<u8>, Seq<u8>> {
    if e.is_dir {
        Map::empty()
    } else {
        map![e.enclosed->Some_0 => e.data->Some_0]
    }
}

/// The net file contents the archive's entries establish: each file entry's
/// content under its name, a later entry winning on a repeated name.
pub open spec fn entries_writes(entries: Seq<EntryModel>) -> Map<Seq<u8>, Seq<u8>>
    decreases entries.len(),
{
    if entries.len() == 0 {
        Map::empty()
    } else {
        entries_writes(entries.drop_last()).union_prefer_right(entry_writes(entries.last()))
    }
}

proof fn lemma_plan_writes_concat(s: Seq<FsActionModel>, t: Seq<FsActionModel>)
    ensures
        plan_writes(s + t) == plan_writes(s).union_prefer_right(plan_writes(t)),
    decreases t.len(),
{
    if t.len() == 0 {
        assert(s + t =~= s);
        assert(plan_writes(s).union_prefer_right(plan_writes(t)) =~= plan_writes(s));
    } else {
        assert((s + t).drop_last() =~= s + t.drop_last());
        assert((s + t).last() == t.last());
        lemma_plan_writes_concat(s, t.drop_last());
        assert(plan_writes(s + t) =~= plan_writes(s).union_prefer_right(plan_writes(t)));
    }
}

/// Extraction writes exactly the archive's file contents: the steps of
/// `plan_model` establish, under each file entry's name, that entry's
/// content, a later entry winning on a repeated name, whatever directory
/// entries stand anywhere in the archive.
pub proof fn lemma_extraction_writes_the_entries(entries: Seq<EntryModel>)
    ensures
        plan_writes(plan_model(entries)) == entries_writes(entries),
    decreases entries.len(),
{
    assert(plan_writes(Seq::<FsActionModel>::empty()) =~= Map::<Seq<u8>, Seq<u8>>::empty());
    if entries.len() == 0 {
        let root = FsActionModel::EnsureDir { path: Seq::<u8>::empty() };
        assert(plan_model(entries) =~= seq![root]);
        assert(seq![root].drop_last() =~= Seq::<FsActionModel>::empty());
        assert(plan_writes(plan_model(entries)) =~= entries_writes(entries));
    } else {
        let e = entries.last();
        let pre = plan_model(entries.drop_last());
        let acts = entry_actions(e);
        lemma_extraction_writes_the_entries(entries.drop_last());
        assert(plan_model(entries) =~= pre + acts);
        lemma_plan_writes_concat(pre, acts);
        assert(plan_writes(acts) =~= entry_writes(e)) by {
            assert(plan_writes(Seq::<FsActionModel>::empty()) =~= Map::<Seq<u8>, Seq<u8>>::empty());
            if e.is_dir {
                assert(acts.drop_last() =~= Seq::<FsActionModel>::empty());
            } else {
                let first = seq![
                    FsActionModel::EnsureDir { path: parent_of(e.enclosed->Some_0) },
                ];
                assert(acts.drop_last() =~= first);
                assert(first.drop_last() =~= Seq::<FsActionModel>::empty());
                assert(plan_writes(first) =~= Map::<Seq<u8>, Seq<u8>>::empty());
            }
        };
        assert(plan_writes(plan_model(entries)) =~= entries_writes(entries));
    }
}

/// Every file write in the step list is immediately preceded by the step that
/// creates the file's parent directory.
pub open spec fn writes_have_parents(plan: Seq<FsActionModel>) -> bool {
    forall|i: int|
        0 <= i < plan.len() && (#[trigger] plan[i]) is WriteFile ==> (i > 0 && plan[i - 1]
            == FsActionModel::EnsureDir { path: parent_of(plan[i]->WriteFile_path) })
}

proof fn lemma_dir_action_in_plan_dirs(plan: Seq<FsActionModel>, i: int)
    requires
        0 <= i < plan.len(),
        plan[i] is EnsureDir,
    ensures
        plan_dirs(plan).contains(plan[i]->EnsureDir_path),
    decreases plan.len(),
{
    if i == plan.len() - 1 {
        assert(ancestors(plan[i]->EnsureDir_path).contains(plan[i]->EnsureDir_path));
    } else {
        assert(plan.drop_last()[i] == plan[i]);
        lemma_dir_action_in_plan_dirs(plan.drop_last(), i);
    }
}

proof fn lemma_write_has_parent_dir(plan: Seq<FsActionModel>, p: Seq<u8>)
    requires
        writes_have_parents(plan),
        plan_writes(plan).dom().contains(p),
    ensures
        plan_dirs(plan).contains(parent_of(p)),
    decreases plan.len(),
{
    let s = plan.drop_last();
    let a = plan.last();
    if action_writes(a).dom().contains(p) {
        assert(plan[plan.len() - 1] is WriteFile);
        assert(plan[plan.len() - 2] == FsActionModel::EnsureDir { path: parent_of(p) });
        lemma_dir_action_in_plan_dirs(plan, plan.len() - 2);
    } else {
        assert(plan_writes(s).dom().contains(p));
        assert(writes_have_parents(s)) by {
            assert forall|i: int| 0 <= i < s.len() && (#[trigger] s[i]) is WriteFile implies (i > 0
                && s[i - 1] == FsActionModel::EnsureDir {
                path: parent_of(s[i]->WriteFile_path),
            }) by {
                assert(plan[i] == s[i]);
                assert(i > 0 ==> plan[i - 1] == s[i - 1]);
            }
        };
        lemma_write_has_parent_dir(s, p);
    }
}

/// Entry order does not matter for directories: after applying a step list in
/// which every file write is preceded by its parent's creation, the parent
/// directory of every written file exists, whether or not the archive ever
/// listed it as its own entry.
pub proof fn lemma_parents_created_on_demand(fs: FsState, plan: Seq<FsActionModel>, p: Seq<u8>)
    requires
        writes_have_parents(plan),
        plan_writes(plan).dom().contains(p),
    ensures
        apply_plan(fs, plan).dirs.contains(parent_of(p)),
{
    lemma_apply_plan_effect(fs, plan);
    lemma_write_has_parent_dir(plan, p);
}

/// The step list of every extraction creates each file's parent directory
/// immediately before writing the file.
pub proof fn lemma_plan_model_writes_have_parents(entries: Seq<EntryModel>)
    ensures
        writes_have_parents(plan_model(entries)),
    decreases entries.len(),
{
    if entries.len() == 0 {
        assert(plan_model(entries).len() == 1);
    } else {
        lemma_plan_model_writes_have_parents(entries.drop_last());
        let pre = plan_model(entries.drop_last());
        let tail = entry_actions(entries.last());
        let whole = plan_model(entries);
        assert(whole =~= pre + tail);
        assert forall|i: int| 0 <= i < whole.len() && (#[trigger] whole[i]) is WriteFile implies (i
            > 0 && whole[i - 1] == FsActionModel::EnsureDir {
            path: parent_of(whole[i]->WriteFile_path),
        }) by {
            if i < pre.len() {
                assert(whole[i] == pre[i]);
                assert(i > 0 ==> whole[i - 1] == pre[i - 1]);
            } else {
                assert(whole[i] == tail[i - pre.len()]);
                assert(!entries.last().is_dir && i == pre.len() + 1);
                assert(whole[i - 1] == tail[0]);
            }
        }
    }
}

} // verus!
