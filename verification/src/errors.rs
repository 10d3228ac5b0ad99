use vstd::prelude::*;

verus! {

/// Everything that can end a replay: a DVCS failure, a metadata-store
/// failure, and the configuration refusals of the engine itself.
#[derive(Debug)]
pub enum ReplayError {
    /// An underlying DVCS library failure.
    Git(git2::Error),
    /// An underlying metadata-store failure.
    Db(rusqlite::Error),
    /// The named branch does not exist.
    BranchNotFound,
    /// The store already maps this branch: updating an already-replayed
    /// branch is refused.
    BranchExists,
    /// The branch has no valid name.
    BranchUnnamed,
    /// The ancestry walk did not reach a parentless commit within the
    /// address space's worth of steps; only a cyclic object store could
    /// cause this.
    HistoryTooLong,
}

} // verus!
