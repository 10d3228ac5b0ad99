use vstd::prelude::*;
use vstd::string::StringExecFns;
use crate::errors::ReplayError;

verus! {

/// A DVCS object identifier, rendered as lowercase hexadecimal; the form in
/// which identifiers are compared and persisted.
pub struct Oid {
    hex: String,
}

impl View for Oid {
    type V = Seq<char>;

    closed spec fn view(&self) -> Seq<char> {
        self.hex@
    }
}

impl Clone for Oid {
    fn clone(&self) -> (r: Self)
        ensures
            r == *self,
    {
        Oid { hex: self.hex.clone() }
    }
}

impl Oid {
    /// An identifier from its hexadecimal rendering.
    pub fn from_hex(hex: &str) -> (r: Oid)
        ensures
            r@ == hex@,
    {
        Oid { hex: String::from_str(hex) }
    }

    /// The hexadecimal rendering.
    pub fn hex_str(&self) -> (r: &str)
        ensures
            r@ == self@,
    {
        self.hex.as_str()
    }

    /// Whether two identifiers render alike, which for a fixed-width hash is
    /// their identity.
    pub fn same_as(&self, other: &Oid) -> (r: bool)
        ensures
            r == (self@ == other@),
    {
        self.hex == other.hex
    }
}

#[verifier::external_type_specification]
#[verifier::external_body]
pub struct ExGitRepository(git2::Repository);

#[verifier::external_type_specification]
#[verifier::external_body]
pub struct ExGitBranch<'a>(git2::Branch<'a>);

#[verifier::external_type_specification]
#[verifier::external_body]
pub struct ExGitBlob<'a>(git2::Blob<'a>);

#[verifier::external_type_specification]
#[verifier::external_body]
pub struct ExGitError(git2::Error);

/// The identifier of the first parent of the commit so identified, if it
/// lists one. A commit object in a content-addressed store is named by its
/// hash, so the parent list written in the object is a function of the
/// identifier alone; whether the parent object itself is present on disk is
/// not asked here.
pub uninterp spec fn parent_oid_of(oid: Seq<char>) -> Option<Seq<char>>;

/// Relies on git2::Repository::open.
#[verifier::external_body]
fn repo_open(path: &str) -> (r: Result<git2::Repository, git2::Error>) {
    git2::Repository::open(path)
}

/// Relies on git2::Repository::find_branch; its structured "not found" error
/// becomes `None`, any other failure stays a failure.
#[verifier::external_body]
fn find_branch_raw<'a>(repo: &'a git2::Repository, name: &str, remote: bool) -> (r: Result<
    Option<git2::Branch<'a>>,
    git2::Error,
>) {
    let kind = if remote {
        git2::BranchType::Remote
    } else {
        git2::BranchType::Local
    };
    match repo.find_branch(name, kind) {
        Ok(b) => Ok(Some(b)),
        Err(e) if e.code() == git2::ErrorCode::NotFound => Ok(None),
        Err(e) => Err(e),
    }
}

/// Relies on git2::Branch::name: the branch's name where it is valid UTF-8.
#[verifier::external_body]
fn branch_name_raw(b: &git2::Branch<'_>) -> (r: Result<Option<String>, git2::Error>) {
    match b.name() {
        Ok(Some(s)) => Ok(Some(s.to_string())),
        Ok(None) => Ok(None),
        Err(e) => Err(e),
    }
}

/// Relies on git2::Branch::get and git2::Reference::peel_to_commit: the
/// identifier of the commit at the branch tip.
#[verifier::external_body]
fn branch_tip_oid(b: &git2::Branch<'_>) -> (r: Result<Oid, git2::Error>) {
    match b.get().peel_to_commit() {
        Ok(c) => Ok(Oid { hex: format!("{}", c.id()) }),
        Err(e) => Err(e),
    }
}

/// Relies on git2::Repository::find_commit and git2::Commit::parent_id: the
/// identifier of the first parent the commit object lists, read from the
/// object itself without loading the parent, so its only failure is a commit
/// that lists no parent at all; that failure becomes `None`.
#[verifier::external_body]
fn first_parent(repo: &git2::Repository, oid: &Oid) -> (r: Result<Option<Oid>, git2::Error>)
    ensures
        r matches Ok(Some(q)) ==> parent_oid_of(oid@) == Some(q@),
        r matches Ok(None) ==> parent_oid_of(oid@) is None,
{
    let goid = git2::Oid::from_str(&oid.hex)?;
    let c = repo.find_commit(goid)?;
    match c.parent_id(0) {
        Ok(p) => Ok(Some(Oid { hex: format!("{}", p) })),
        Err(_) => Ok(None),
    }
}

/// Relies on git2::Oid::from_str and git2::Repository::find_blob.
#[verifier::external_body]
fn find_blob_raw<'a>(repo: &'a git2::Repository, oid: &Oid) -> (r: Result<
    git2::Blob<'a>,
    git2::Error,
>) {
    repo.find_blob(git2::Oid::from_str(&oid.hex)?)
}

/// A read-only view of the DVCS repository.
pub struct GitRepository {
    inner: git2::Repository,
}

/// A branch of the repository.
pub struct GitBranch<'repo> {
    inner: git2::Branch<'repo>,
}

impl GitRepository {
    pub fn open(path: &str) -> (r: Result<GitRepository, ReplayError>)
        ensures
            r is Err ==> r matches Err(ReplayError::Git(_)),
    {
        match repo_open(path) {
            Ok(inner) => Ok(GitRepository { inner }),
            Err(e) => Err(ReplayError::Git(e)),
        }
    }

    /// The raw repository handle, for the callers that walk trees and read
    /// blob contents themselves.
    pub fn raw(&self) -> &git2::Repository {
        &self.inner
    }

    /// The blob object so identified; the walk driver reads its content and
    /// its binary hint.
    pub fn blob(&self, oid: &Oid) -> (r: Result<git2::Blob<'_>, ReplayError>)
        ensures
            r is Err ==> r matches Err(ReplayError::Git(_)),
    {
        match find_blob_raw(&self.inner, oid) {
            Ok(b) => Ok(b),
            Err(e) => Err(ReplayError::Git(e)),
        }
    }

    /// Looks a branch up, local or remote-tracking; `None` when no branch of
    /// that name exists.
    pub fn branch(&self, name: &str, remote: bool) -> (r: Result<Option<GitBranch<'_>>, ReplayError>)
        ensures
            r is Err ==> r matches Err(ReplayError::Git(_)),
    {
        match find_branch_raw(&self.inner, name, remote) {
            Ok(Some(inner)) => Ok(Some(GitBranch { inner })),
            Ok(None) => Ok(None),
            Err(e) => Err(ReplayError::Git(e)),
        }
    }

}

impl GitBranch<'_> {
    /// The branch's name; a branch without a valid name is an error rather
    /// than a panic.
    pub fn name(&self) -> (r: Result<String, ReplayError>)
        ensures
            r is Err ==> (r matches Err(ReplayError::Git(_)) || r matches Err(
                ReplayError::BranchUnnamed,
            )),
    {
        match branch_name_raw(&self.inner) {
            Ok(Some(s)) => Ok(s),
            Ok(None) => Err(ReplayError::BranchUnnamed),
            Err(e) => Err(ReplayError::Git(e)),
        }
    }

    /// The branch's ancestry linearized oldest-first: from the tip, first
    /// parents are followed until a commit without one; merges are thus
    /// squashed onto the mainline.
    ///
    /// Law: in the returned sequence each commit is the first parent of the
    /// one after it, and the oldest has none.
    pub fn linear_history(&self, repo: &GitRepository) -> (r: Result<Vec<Oid>, ReplayError>)
        ensures
            r is Err ==> (r matches Err(ReplayError::Git(_)) || r matches Err(
                ReplayError::HistoryTooLong,
            )),
            r matches Ok(cs) ==> {
                &&& cs@.len() >= 1
                &&& parent_oid_of(cs@[0]@) is None
                &&& forall|i: int|
                    1 <= i < cs@.len() ==> parent_oid_of((#[trigger] cs@[i])@) == Some(
                        cs@[i - 1]@,
                    )
            },
    {
        let tip = match branch_tip_oid(&self.inner) {
            Ok(t) => t,
            Err(e) => {
                return Err(ReplayError::Git(e));
            },
        };
        let mut cs: Vec<Oid> = Vec::new();
        let mut current: Oid = tip;
        let mut done = false;
        let mut fuel: usize = usize::MAX;
        while !done
            invariant
                !done ==> cs@.len() > 0 ==> parent_oid_of(cs@[0]@) == Some(current@),
                done ==> cs@.len() > 0 && parent_oid_of(cs@[0]@) is None,
                forall|i: int|
                    1 <= i < cs@.len() ==> parent_oid_of((#[trigger] cs@[i])@) == Some(
                        cs@[i - 1]@,
                    ),
            decreases fuel,
        {
            if fuel == 0 {
                return Err(ReplayError::HistoryTooLong);
            }
            fuel = fuel - 1;
            let p = match first_parent(repo.raw(), &current) {
                Ok(p) => p,
                Err(e) => {
                    return Err(ReplayError::Git(e));
                },
            };
            let ghost pre = cs@;
            cs.insert(0, current.clone());
            proof {
                assert(cs@[0] == current);
                assert forall|i: int|
                    1 <= i < cs@.len() implies parent_oid_of((#[trigger] cs@[i])@) == Some(
                    cs@[i - 1]@,
                ) by {
                    if i == 1 {
                        assert(cs@[1] == pre[0]);
                    } else {
                        assert(cs@[i] == pre[i - 1] && cs@[i - 1] == pre[i - 2]);
                    }
                }
            }
            match p {
                Some(pp) => {
                    current = pp;
                },
                None => {
                    done = true;
                },
            }
        }
        Ok(cs)
    }
}

} // verus!
