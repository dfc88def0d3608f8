use vstd::prelude::*;
use crate::archive::{
    zip_open, zip_len, zip_entry_at, zip_parse, zip_entries, EntryModel, EntryRead,
};

verus! {

/// The path separator inside archive entry names.
pub const SLASH: u8 = 47;

/// The ways extraction can fail.
#[derive(Clone, Copy, PartialEq, Eq, Structural, Debug)]
pub enum ExtractError {
    /// The buffer does not parse as a zip archive, or an entry of it cannot
    /// be read back.
    InvalidArchive,
    /// An entry's stored name cannot be safely confined under the
    /// destination.
    UnsafeEntryPath,
}

/// One filesystem step of an extraction.  All paths are relative to the
/// extraction root; the empty path is the root itself.
pub enum FsAction {
    /// Create this directory and every missing ancestor.
    EnsureDir { path: Vec<u8> },
    /// Create or overwrite this file with the given content.
    WriteFile { path: Vec<u8>, data: Vec<u8> },
}

/// The mathematical view of a filesystem step.
pub enum FsActionModel {
    EnsureDir { path: Seq<u8> },
    WriteFile { path: Seq<u8>, data: Seq<u8> },
}

impl View for FsAction {
    type V = FsActionModel;

    open spec fn view(&self) -> FsActionModel {
        match self {
            FsAction::EnsureDir { path } => FsActionModel::EnsureDir { path: path@ },
            FsAction::WriteFile { path, data } => FsActionModel::WriteFile {
                path: path@,
                data: data@,
            },
        }
    }
}

/// The mathematical view of a whole step list.
pub open spec fn plan_view(p: Seq<FsAction>) -> Seq<FsActionModel> {
    p.map_values(|a: FsAction| a@)
}

/// The directory that holds `p`: everything before the last separator, or the
/// empty path (the extraction root) when `p` has none.
pub open spec fn parent_of(p: Seq<u8>) -> Seq<u8>
    decreases p.len(),
{
    if p.len() == 0 {
        p
    } else if p[p.len() - 1] == SLASH {
        p.drop_last()
    } else {
        parent_of(p.drop_last())
    }
}

/// A directory entry's name with its single trailing separator, if any,
/// removed.
pub open spec fn dir_norm(p: Seq<u8>) -> Seq<u8> {
    if p.len() > 0 && p[p.len() - 1] == SLASH {
        p.drop_last()
    } else {
        p
    }
}

/// Computes `parent_of` on a concrete name.
pub fn parent_path(name: &Vec<u8>) -> (r: Vec<u8>)
    ensures
        r@ == parent_of(name@),
{
    let mut i: usize = name.len();
    proof {
        assert(name@.take(name@.len() as int) =~= name@);
    }
    while i > 0 && name[i - 1] != SLASH
        invariant
            i <= name@.len(),
            parent_of(name@) == parent_of(name@.take(i as int)),
        decreases i,
    {
        proof {
            assert(name@.take(i as int).drop_last() =~= name@.take(i - 1 as int));
        }
        i = i - 1;
    }
    let end: usize = if i == 0 {
        0
    } else {
        i - 1
    };
    proof {
        if i > 0 {
            assert(name@.take(i as int).drop_last() =~= name@.take(i as int - 1));
        }
        assert(parent_of(name@) == name@.take(end as int));
    }
    let mut r: Vec<u8> = Vec::new();
    let mut j: usize = 0;
    while j < end
        invariant
            j <= end,
            end <= name@.len(),
            r@ == name@.take(j as int),
        decreases end - j,
    {
        r.push(name[j]);
        proof {
            assert(name@.take(j + 1 as int) =~= name@.take(j as int).push(name@[j as int]));
        }
        j = j + 1;
    }
    r
}

/// Strips the trailing separator off a directory entry's name.
pub fn normalize_dir(name: Vec<u8>) -> (r: Vec<u8>)
    ensures
        r@ == dir_norm(name@),
{
    let mut name = name;
    if name.len() > 0 && name[name.len() - 1] == SLASH {
        name.pop();
    }
    name
}

/// An entry the extractor can process: its name passed the confinement check
/// and its content can be read back.
pub open spec fn entry_ok(e: EntryModel) -> bool {
    e.enclosed is Some && e.data is Some
}

/// Entry `i` is the first entry extraction stops on, and `err` names its
/// defect: an unconfinable name, or content that cannot be read back.
pub open spec fn blames_entry(entries: Seq<EntryModel>, i: int, err: ExtractError) -> bool {
    &&& 0 <= i < entries.len()
    &&& !entry_ok(entries[i])
    &&& (forall|j: int| 0 <= j < i ==> entry_ok(#[trigger] entries[j]))
    &&& (err is UnsafeEntryPath ==> entries[i].enclosed is None)
    &&& (err is InvalidArchive ==> entries[i].data is None)
}

/// Some entry is the first one extraction stops on, with `err` its defect.
pub open spec fn stops_on_entry(entries: Seq<EntryModel>, err: ExtractError) -> bool {
    exists|i: int| blames_entry(entries, i, err)
}

/// The filesystem steps one entry asks for: a directory entry is created
/// (with its ancestors); a file entry has its parent directory created on
/// demand, then its content written.
pub open spec fn entry_actions(e: EntryModel) -> Seq<FsActionModel> {
    if e.is_dir {
        seq![FsActionModel::EnsureDir { path: dir_norm(e.enclosed->Some_0) }]
    } else {
        seq![
            FsActionModel::EnsureDir { path: parent_of(e.enclosed->Some_0) },
            FsActionModel::WriteFile { path: e.enclosed->Some_0, data: e.data->Some_0 },
        ]
    }
}

/// The steps of all entries, in archive order.
pub open spec fn entries_actions(entries: Seq<EntryModel>) -> Seq<FsActionModel>
    decreases entries.len(),
{
    if entries.len() == 0 {
        Seq::empty()
    } else {
        entries_actions(entries.drop_last()) + entry_actions(entries.last())
    }
}

/// The whole extraction: first ensure the destination root exists, then take
/// every entry's steps in archive order.
pub open spec fn plan_model(entries: Seq<EntryModel>) -> Seq<FsActionModel> {
    seq![FsActionModel::EnsureDir { path: Seq::<u8>::empty() }] + entries_actions(entries)
}

proof fn lemma_plan_view_push(p: Seq<FsAction>, x: FsAction)
    ensures
        plan_view(p.push(x)) == plan_view(p).push(x@),
{
    assert(plan_view(p.push(x)) =~= plan_view(p).push(x@));
}

proof fn lemma_entries_actions_step(es: Seq<EntryModel>, i: int)
    requires
        0 <= i < es.len(),
    ensures
        entries_actions(es.take(i + 1)) == entries_actions(es.take(i)) + entry_actions(es[i]),
{
    assert(es.take(i + 1).drop_last() =~= es.take(i));
    assert(es.take(i + 1).last() == es[i]);
}

/// A successful extraction of `bytes` yields exactly the steps of
/// `plan_model`, and only when the buffer is a valid archive whose entries
/// are all safe and readable.
pub open spec fn extraction_succeeds(bytes: Seq<u8>, plan: Seq<FsAction>) -> bool {
    &&& zip_parse(bytes) is Some
    &&& forall|i: int|
        0 <= i < zip_parse(bytes)->Some_0.len() ==> entry_ok(#[trigger] zip_parse(bytes)->Some_0[i])
    &&& plan_view(plan) == plan_model(zip_parse(bytes)->Some_0)
}

/// A failed extraction of `bytes` blames either the whole buffer (it is not
/// an archive) or the first entry that is unsafe or unreadable.
pub open spec fn extraction_fails(bytes: Seq<u8>, err: ExtractError) -> bool {
    ||| (zip_parse(bytes) is None && err is InvalidArchive)
    ||| (zip_parse(bytes) is Some && stops_on_entry(zip_parse(bytes)->Some_0, err))
}

/// Turns a downloaded buffer into the filesystem steps that extract it: the
/// exact step list of `plan_model` when the buffer is a valid archive and
/// every entry is safe and readable, and otherwise the error of the first
/// entry (in archive order) that is not.
#[verifier::loop_isolation(false)]
pub fn extraction_plan(bytes: Vec<u8>) -> (r: Result<Vec<FsAction>, ExtractError>)
    ensures
        match r {
            Ok(plan) => extraction_succeeds(bytes@, plan@),
            Err(err) => extraction_fails(bytes@, err),
        },
{
    let ghost bytes0: Seq<u8> = bytes@;
    let mut z = match zip_open(bytes) {
        Some(z) => z,
        None => {
            return Err(ExtractError::InvalidArchive);
        },
    };
    let ghost entries: Seq<EntryModel> = zip_parse(bytes0)->Some_0;
    let n = zip_len(&z);
    let mut plan: Vec<FsAction> = Vec::new();
    plan.push(FsAction::EnsureDir { path: Vec::new() });
    proof {
        assert(plan_view(plan@) =~= plan_model(entries.take(0)));
    }
    let mut i: usize = 0;
    while i < n
        invariant
            i <= n,
            n == entries.len(),
            zip_entries(z) == entries,
            entries == zip_parse(bytes0)->Some_0,
            zip_parse(bytes0) is Some,
            forall|j: int| 0 <= j < i ==> entry_ok(#[trigger] entries[j]),
            plan_view(plan@) == plan_model(entries.take(i as int)),
        decreases n - i,
    {
        match zip_entry_at(&mut z, i) {
            EntryRead::Entry(e) => {
                let ghost plan0 = plan@;
                if e.is_dir {
                    plan.push(FsAction::EnsureDir { path: normalize_dir(e.name) });
                    proof {
                        lemma_entries_actions_step(entries, i as int);
                        lemma_plan_view_push(plan0, plan@.last());
                        assert(plan@ == plan0.push(plan@.last()));
                        assert(plan_view(plan@) =~= plan_model(entries.take(i + 1)));
                    }
                } else {
                    plan.push(FsAction::EnsureDir { path: parent_path(&e.name) });
                    let ghost plan1 = plan@;
                    plan.push(FsAction::WriteFile { path: e.name, data: e.data });
                    proof {
                        lemma_entries_actions_step(entries, i as int);
                        lemma_plan_view_push(plan0, plan1.last());
                        assert(plan1 == plan0.push(plan1.last()));
                        lemma_plan_view_push(plan1, plan@.last());
                        assert(plan@ == plan1.push(plan@.last()));
                        assert(plan_view(plan@) =~= plan_model(entries.take(i + 1)));
                    }
                }
            },
            EntryRead::UnsafeName => {
                proof {
                    assert(blames_entry(entries, i as int, ExtractError::UnsafeEntryPath));
                }
                return Err(ExtractError::UnsafeEntryPath);
            },
            EntryRead::Unreadable => {
                proof {
                    assert(blames_entry(entries, i as int, ExtractError::InvalidArchive));
                }
                return Err(ExtractError::InvalidArchive);
            },
        }
        i = i + 1;
    }
    proof {
        assert(entries.take(n as int) =~= entries);
    }
    Ok(plan)
}

} // verus!
