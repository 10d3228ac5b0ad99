use vstd::prelude::*;
use vstd::string::StringExecFns;
use crate::chunker::{batch_len, byte_len, chunk_paths, concat_batches};
use crate::database::{indexed_rows, oids_view, Database};
use crate::errors::ReplayError;
use crate::git::{parent_oid_of, GitRepository, Oid};
use crate::sanitise::{sanitise_branch, sanitize};
use crate::state::{files_view, join_paths, path_join, Commit, File, FileV, Global};

verus! {

/// What the walk driver must do on disk for one blob entry.
pub enum BlobAction {
    /// The blob matches what was last written here: leave the file alone.
    Unchanged,
    /// Write the blob's content, set both file times to the commit's time,
    /// and where `executable` holds, OR the executable bits onto the mode.
    Write { executable: bool },
}

/// The spec-level paths the LVCS sees for a sequence of handles.
pub open spec fn cvs_paths(s: Seq<FileV>) -> Seq<Seq<char>> {
    s.map_values(|f: FileV| path_join(f.base, f.rel))
}

/// The relative path of a tree entry: the walk's prefix joined with the
/// entry's name, or the prefix alone for a nameless entry.
pub fn entry_rel_path(prefix: &str, name: &Option<String>) -> (r: String)
    ensures
        match name {
            Some(n) => r@ == path_join(prefix@, n@),
            None => r@ == prefix@,
        },
{
    match name {
        Some(n) => join_paths(prefix, n.as_str()),
        None => String::from_str(prefix),
    }
}

/// The decision for one blob entry of the walk, and all its bookkeeping: the
/// handle is always marked seen; where the blob differs from what was last
/// written, the identifier is recorded and, for a path never written in this
/// run, the handle joins the commit's new-file list of its kind.
pub fn apply_blob_entry(
    state: &mut Global,
    commit_state: &mut Commit,
    rel_path: &str,
    oid: &Oid,
    filemode: i32,
    is_binary: bool,
) -> (action: BlobAction)
    requires
        old(state).wf(),
    ensures
        final(state).wf(),
        final(state)@.abs == old(state)@.abs,
        final(state)@.base == old(state)@.base,
        final(commit_state)@.seen == old(commit_state)@.seen.insert(rel_path@),
        ({
            let known = old(state)@.known;
            let fv = FileV { abs: old(state)@.abs, base: old(state)@.base, rel: rel_path@ };
            if known.contains_key(rel_path@) && known[rel_path@] == oid@ {
                &&& action is Unchanged
                &&& final(state)@.known == known
                &&& final(commit_state)@.binary == old(commit_state)@.binary
                &&& final(commit_state)@.non_binary == old(commit_state)@.non_binary
            } else {
                &&& action == (BlobAction::Write { executable: (filemode & 0o111) != 0 })
                &&& final(state)@.known == known.insert(rel_path@, oid@)
                &&& (!known.contains_key(rel_path@) ==> (if is_binary {
                    final(commit_state)@.binary == old(commit_state)@.binary.push(fv)
                        && final(commit_state)@.non_binary == old(commit_state)@.non_binary
                } else {
                    final(commit_state)@.non_binary == old(commit_state)@.non_binary.push(fv)
                        && final(commit_state)@.binary == old(commit_state)@.binary
                }))
                &&& (known.contains_key(rel_path@)
                    ==> final(commit_state)@.binary == old(commit_state)@.binary
                        && final(commit_state)@.non_binary == old(commit_state)@.non_binary)
            }
        }),
{
    let file = state.file(rel_path);
    let mut present = false;
    let mut same = false;
    match state.get_oid(&file) {
        Some(last) => {
            present = true;
            same = last.same_as(oid);
        },
        None => {},
    }
    if present && same {
        commit_state.seen_file(file);
        BlobAction::Unchanged
    } else {
        if !present {
            commit_state.new_file(file.clone(), is_binary);
        }
        state.save_oid(file.clone(), oid);
        commit_state.seen_file(file);
        BlobAction::Write { executable: (filemode & 0o111) != 0 }
    }
}

/// The decision for one tree entry of the walk: a directory absent from the
/// working copy is to be created and joins the commit's text new-file list,
/// since the LVCS must add a directory before its contents; an existing one
/// asks for nothing.
pub fn apply_tree_entry(
    state: &Global,
    commit_state: &mut Commit,
    rel_path: &str,
    exists: bool,
) -> (create: bool)
    ensures
        create == !exists,
        exists ==> final(commit_state)@ == old(commit_state)@,
        !exists ==> final(commit_state)@.non_binary == old(commit_state)@.non_binary.push(
            (FileV { abs: state@.abs, base: state@.base, rel: rel_path@ }),
        ) && final(commit_state)@.binary == old(commit_state)@.binary && final(commit_state)@.seen
            == old(commit_state)@.seen,
{
    if !exists {
        let file = state.file(rel_path);
        commit_state.new_file(file, false);
        true
    } else {
        false
    }
}

/// The paths the LVCS sees for a list of handles, in order.
fn collect_cvs_paths(files: &Vec<File>) -> (r: Vec<String>)
    ensures
        r.deep_view() == cvs_paths(files_view(files@)),
        r@.len() == files@.len(),
{
    let mut r: Vec<String> = Vec::new();
    let mut i: usize = 0;
    while i < files.len()
        invariant
            i <= files@.len(),
            r@.len() == i,
            forall|j: int|
                0 <= j < i ==> #[trigger] r.deep_view()[j] == path_join(
                    files@[j]@.base,
                    files@[j]@.rel,
                ),
        decreases files@.len() - i,
    {
        let ghost pre = r@;
        let ghost pre_deep = r.deep_view();
        let p = files[i].cvs_relative_path();
        let ghost pv = p@;
        r.push(p);
        proof {
            assert forall|j: int| 0 <= j < i + 1 implies #[trigger] r.deep_view()[j] == path_join(
                files@[j]@.base,
                files@[j]@.rel,
            ) by {
                assert(r.deep_view()[j] == r@[j]@);
                if j < i {
                    assert(r@[j] == pre[j]);
                    assert(pre_deep[j] == pre[j]@);
                    assert(pre_deep[j] == path_join(files@[j]@.base, files@[j]@.rel));
                } else {
                    assert(r@[j]@ == pv);
                }
            }
        }
        i = i + 1;
    }
    proof {
        assert(r.deep_view() =~= cvs_paths(files_view(files@)));
    }
    r
}

/// Everything a commit asks of the LVCS once its tree walk is done: the
/// handles removed from the global state, and the batched path lists for
/// `remove`, text `add` and binary `add`, in that order of application.
pub struct CommitOps {
    /// The files the commit no longer carries: to be deleted from the
    /// working copy before the LVCS removes are issued.
    pub removed: Vec<File>,
    /// Batches for `remove`, covering exactly the removed files.
    pub remove_batches: Vec<Vec<String>>,
    /// Batches for `add`, covering the commit's new text files in walk order.
    pub text_add_batches: Vec<Vec<String>>,
    /// Batches for `add -kb`, covering the commit's new binary files in walk
    /// order.
    pub binary_add_batches: Vec<Vec<String>>,
}

/// Closes a commit: drops every path the commit did not visit from the
/// global state, and batches the remove and add path lists under the
/// argument ceiling. A commit that visited exactly the known paths and
/// created nothing yields no batches at all, so an unchanged tree asks the
/// LVCS for nothing but its commit.
pub fn plan_commit_ops(state: &mut Global, commit_state: &Commit, limit: usize) -> (ops: CommitOps)
    requires
        old(state).wf(),
        forall|rel: Seq<char>|
            old(state)@.known.contains_key(rel) ==> #[trigger] byte_len(
                path_join(old(state)@.base, rel),
            ) <= usize::MAX,
        forall|i: int|
            0 <= i < commit_state@.non_binary.len() ==> #[trigger] byte_len(
                cvs_paths(commit_state@.non_binary)[i],
            ) <= usize::MAX,
        forall|i: int|
            0 <= i < commit_state@.binary.len() ==> #[trigger] byte_len(
                cvs_paths(commit_state@.binary)[i],
            ) <= usize::MAX,
    ensures
        final(state).wf(),
        final(state)@.abs == old(state)@.abs,
        final(state)@.base == old(state)@.base,
        final(state)@.known == old(state)@.known.restrict(commit_state@.seen),
        concat_batches(ops.remove_batches.deep_view()) == cvs_paths(files_view(ops.removed@)),
        concat_batches(ops.text_add_batches.deep_view()) == cvs_paths(commit_state@.non_binary),
        concat_batches(ops.binary_add_batches.deep_view()) == cvs_paths(commit_state@.binary),
        forall|i: int|
            0 <= i < ops.removed@.len() ==> {
                let fv = (#[trigger] ops.removed@[i])@;
                &&& old(state)@.known.contains_key(fv.rel)
                &&& !commit_state@.seen.contains(fv.rel)
                &&& fv.abs == old(state)@.abs
                &&& fv.base == old(state)@.base
            },
        forall|rel: Seq<char>|
            old(state)@.known.contains_key(rel) && !commit_state@.seen.contains(rel)
                ==> exists|i: int|
                0 <= i < ops.removed@.len() && (#[trigger] ops.removed@[i])@.rel == rel,
        forall|i: int, j: int|
            #![trigger ops.removed@[i], ops.removed@[j]]
            0 <= i < j < ops.removed@.len() ==> ops.removed@[i]@.rel != ops.removed@[j]@.rel,
        commit_state@.non_binary.len() == 0 ==> ops.text_add_batches@.len() == 0,
        commit_state@.binary.len() == 0 ==> ops.binary_add_batches@.len() == 0,
        old(state)@.known.dom().subset_of(commit_state@.seen) ==> ops.removed@.len() == 0
            && ops.remove_batches@.len() == 0,
        (forall|i: int|
            0 <= i < commit_state@.non_binary.len() ==> #[trigger] byte_len(
                cvs_paths(commit_state@.non_binary)[i],
            ) <= limit) ==> forall|j: int|
            0 <= j < ops.text_add_batches@.len() ==> #[trigger] batch_len(
                ops.text_add_batches.deep_view()[j],
            ) <= limit,
        (forall|i: int|
            0 <= i < commit_state@.binary.len() ==> #[trigger] byte_len(
                cvs_paths(commit_state@.binary)[i],
            ) <= limit) ==> forall|j: int|
            0 <= j < ops.binary_add_batches@.len() ==> #[trigger] batch_len(
                ops.binary_add_batches.deep_view()[j],
            ) <= limit,
        (forall|rel: Seq<char>|
            old(state)@.known.contains_key(rel) ==> #[trigger] byte_len(
                path_join(old(state)@.base, rel),
            ) <= limit) ==> forall|j: int|
            0 <= j < ops.remove_batches@.len() ==> #[trigger] batch_len(
                ops.remove_batches.deep_view()[j],
            ) <= limit,
{
    let removed = state.remove_files_unseen_in_commit(commit_state);
    let removed_paths = collect_cvs_paths(&removed);
    proof {
        assert forall|i: int| 0 <= i < removed_paths@.len() implies #[trigger] byte_len(
            removed_paths.deep_view()[i],
        ) <= usize::MAX by {
            assert(removed_paths.deep_view()[i] == path_join(removed@[i]@.base, removed@[i]@.rel));
            assert(old(state)@.known.contains_key(removed@[i]@.rel));
            assert(removed@[i]@.base == old(state)@.base);
        }
    }
    let remove_batches = chunk_paths(&removed_paths, limit);
    let text_paths = collect_cvs_paths(commit_state.iter_new_non_binary_files());
    proof {
        assert forall|i: int| 0 <= i < text_paths@.len() implies #[trigger] byte_len(
            text_paths.deep_view()[i],
        ) <= usize::MAX by {
            assert(text_paths.deep_view()[i] == cvs_paths(commit_state@.non_binary)[i]);
        }
    }
    let text_add_batches = chunk_paths(&text_paths, limit);
    let binary_paths = collect_cvs_paths(commit_state.iter_new_binary_files());
    proof {
        assert forall|i: int| 0 <= i < binary_paths@.len() implies #[trigger] byte_len(
            binary_paths.deep_view()[i],
        ) <= usize::MAX by {
            assert(binary_paths.deep_view()[i] == cvs_paths(commit_state@.binary)[i]);
        }
    }
    let binary_add_batches = chunk_paths(&binary_paths, limit);
    proof {
        if forall|i: int|
            0 <= i < commit_state@.non_binary.len() ==> #[trigger] byte_len(
                cvs_paths(commit_state@.non_binary)[i],
            ) <= limit {
            assert forall|i: int| 0 <= i < text_paths@.len() implies #[trigger] byte_len(
                text_paths.deep_view()[i],
            ) <= limit by {
                assert(text_paths.deep_view()[i] == cvs_paths(commit_state@.non_binary)[i]);
            }
        }
        if forall|i: int|
            0 <= i < commit_state@.binary.len() ==> #[trigger] byte_len(
                cvs_paths(commit_state@.binary)[i],
            ) <= limit {
            assert forall|i: int| 0 <= i < binary_paths@.len() implies #[trigger] byte_len(
                binary_paths.deep_view()[i],
            ) <= limit by {
                assert(binary_paths.deep_view()[i] == cvs_paths(commit_state@.binary)[i]);
            }
        }
        if forall|rel: Seq<char>|
            old(state)@.known.contains_key(rel) ==> #[trigger] byte_len(
                path_join(old(state)@.base, rel),
            ) <= limit {
            assert forall|i: int| 0 <= i < removed_paths@.len() implies #[trigger] byte_len(
                removed_paths.deep_view()[i],
            ) <= limit by {
                assert(removed_paths.deep_view()[i] == path_join(
                    removed@[i]@.base,
                    removed@[i]@.rel,
                ));
                assert(old(state)@.known.contains_key(removed@[i]@.rel));
                assert(removed@[i]@.base == old(state)@.base);
            }
        }
    }
    proof {
        if old(state)@.known.dom().subset_of(commit_state@.seen) {
            if removed@.len() > 0 {
                assert(old(state)@.known.contains_key(removed@[0]@.rel));
                assert(!commit_state@.seen.contains(removed@[0]@.rel));
                assert(false);
            }
            assert(removed_paths@.len() == 0);
        }
    }
    let ghost rseq = removed@;
    let ops = CommitOps { removed, remove_batches, text_add_batches, binary_add_batches };
    proof {
        assert(ops.removed@ == rseq);
        assert forall|rel: Seq<char>|
            old(state)@.known.contains_key(rel) && !commit_state@.seen.contains(
                rel,
            ) implies exists|i: int|
            0 <= i < ops.removed@.len() && (#[trigger] ops.removed@[i])@.rel == rel by {
            let i = choose|i: int| 0 <= i < rseq.len() && (#[trigger] rseq[i])@.rel == rel;
            assert(ops.removed@[i]@.rel == rel);
        }
    }
    ops
}

/// A replay ready to be materialized: the derived LVCS branch name and the
/// linearized ancestry, oldest first, already persisted to the store.
pub struct ReplayPlan {
    pub cvs_branch: String,
    pub commits: Vec<Oid>,
}

/// The engine's refusal to replay onto a branch the store already maps:
/// updating an existing branch is not supported.
pub fn check_branch_unmapped(existing: &Option<String>) -> (r: Result<(), ReplayError>)
    ensures
        r is Ok <==> existing is None,
        r is Err ==> r matches Err(ReplayError::BranchExists),
{
    match existing {
        None => Ok(()),
        Some(_) => Err(ReplayError::BranchExists),
    }
}

/// The preparation half of a replay: resolve the branch, refuse one already
/// recorded, derive the LVCS name by sanitising, linearize the ancestry, and
/// persist the mapping with the full commit sequence before any LVCS
/// mutation begins.
pub fn prepare_replay(
    db: &mut Database,
    repo: &GitRepository,
    branch_name: &str,
    remote: bool,
) -> (r: Result<ReplayPlan, ReplayError>)
    requires
        old(db).wf(),
    ensures
        final(db).wf(),
        r matches Ok(p) ==> {
            &&& p.cvs_branch@ == sanitize(branch_name@)
            &&& p.commits@.len() >= 1
            &&& parent_oid_of(p.commits@[0]@) is None
            &&& forall|i: int|
                1 <= i < p.commits@.len() ==> parent_oid_of((#[trigger] p.commits@[i])@) == Some(
                    p.commits@[i - 1]@,
                )
            &&& final(db)@.mappings == old(db)@.mappings.insert(
                branch_name@,
                sanitize(branch_name@),
            )
            &&& final(db)@.rows == old(db)@.rows.insert(
                branch_name@,
                indexed_rows(oids_view(p.commits@)),
            )
        },
        r is Err ==> final(db)@.mappings == old(db)@.mappings && final(db)@.rows == old(db)@.rows,
        r is Err ==> (r matches Err(ReplayError::Git(_)) || r matches Err(ReplayError::Db(_))
            || r matches Err(ReplayError::BranchNotFound) || r matches Err(
            ReplayError::BranchExists,
        ) || r matches Err(ReplayError::HistoryTooLong)),
{
    let branch = match repo.branch(branch_name, remote) {
        Ok(Some(b)) => b,
        Ok(None) => {
            return Err(ReplayError::BranchNotFound);
        },
        Err(e) => {
            return Err(e);
        },
    };
    let existing = match db.get_cvs_branch(branch_name) {
        Ok(v) => v,
        Err(e) => {
            return Err(e);
        },
    };
    match check_branch_unmapped(&existing) {
        Ok(_) => {},
        Err(e) => {
            return Err(e);
        },
    }
    let cvs_branch = sanitise_branch(branch_name);
    let commits = match branch.linear_history(repo) {
        Ok(c) => c,
        Err(e) => {
            return Err(e);
        },
    };
    match db.write_branch(branch_name, cvs_branch.as_str(), &commits) {
        Ok(_) => {},
        Err(e) => {
            return Err(e);
        },
    }
    Ok(ReplayPlan { cvs_branch, commits })
}

} // verus!
