use vstd::prelude::*;
use rusqlite::OptionalExtension;
use crate::errors::ReplayError;
use crate::git::Oid;

verus! {

#[verifier::external_type_specification]
#[verifier::external_body]
pub struct ExSqlConnection(rusqlite::Connection);

#[verifier::external_type_specification]
#[verifier::external_body]
pub struct ExSqlError(rusqlite::Error);

/// The identifier views of a sequence of identifiers.
pub open spec fn oids_view(s: Seq<Oid>) -> Seq<Seq<char>> {
    s.map_values(|o: Oid| o@)
}

/// The commit rows a fully written branch holds: each identifier paired with
/// its position, counting from zero.
pub open spec fn indexed_rows(oids: Seq<Seq<char>>) -> Seq<(Seq<char>, int)> {
    Seq::new(oids.len(), |i: int| (oids[i], i))
}

/// The rows recorded for a branch, empty when none are.
pub open spec fn rows_of(m: Map<Seq<char>, Seq<(Seq<char>, int)>>, b: Seq<char>) -> Seq<
    (Seq<char>, int),
> {
    if m.contains_key(b) {
        m[b]
    } else {
        Seq::empty()
    }
}

/// What the metadata store holds: the branch mapping table and, per branch,
/// its commit rows in insertion order.
pub struct DatabaseV {
    pub mappings: Map<Seq<char>, Seq<char>>,
    pub rows: Map<Seq<char>, Seq<(Seq<char>, int)>>,
}

/// The metadata store: a file-backed table of branch mappings and one of the
/// linearized commits applied per branch. The two ghost maps model what the
/// store holds; the statement wrappers below are the only places that speak
/// for them, and they assume what the rest of the crate assumes, that the
/// store file is owned by this process alone for the run.
pub struct Database {
    conn: rusqlite::Connection,
    model_mappings: Ghost<Map<Seq<char>, Seq<char>>>,
    model_rows: Ghost<Map<Seq<char>, Seq<(Seq<char>, int)>>>,
    model_saved: Ghost<Option<(Map<Seq<char>, Seq<char>>, Map<Seq<char>, Seq<(Seq<char>, int)>>)>>,
}

impl View for Database {
    type V = DatabaseV;

    closed spec fn view(&self) -> DatabaseV {
        DatabaseV { mappings: self.model_mappings@, rows: self.model_rows@ }
    }
}

/// Relies on rusqlite::Connection::open.
#[verifier::external_body]
fn db_open(path: &str) -> (r: Result<rusqlite::Connection, rusqlite::Error>) {
    rusqlite::Connection::open(path)
}

/// Relies on rusqlite::Connection::execute_batch: runs the statements of
/// `sql`, which bind no parameters.
#[verifier::external_body]
fn db_batch(conn: &rusqlite::Connection, sql: &str) -> (r: Result<(), rusqlite::Error>) {
    conn.execute_batch(sql)
}

impl Database {
    /// No transaction is open.
    pub closed spec fn wf(&self) -> bool {
        self.model_saved@ is None
    }

    /// The state snapshot an open transaction would roll back to.
    closed spec fn saved_state(&self) -> Option<
        (Map<Seq<char>, Seq<char>>, Map<Seq<char>, Seq<(Seq<char>, int)>>),
    > {
        self.model_saved@
    }

    /// Pairs a provisioned connection with the model of its store; the maps
    /// hold whatever the store file holds, which nothing constrains here.
    #[verifier::external_body]
    fn attach(conn: rusqlite::Connection) -> (r: Database)
        ensures
            r.wf(),
    {
        Database {
            conn,
            model_mappings: Ghost(Map::empty()),
            model_rows: Ghost(Map::empty()),
            model_saved: Ghost(None),
        }
    }

    /// Relies on rusqlite::Connection::execute_batch running `BEGIN`: opens a
    /// transaction, remembering the present state as what a rollback
    /// restores; the store itself is unchanged.
    #[verifier::external_body]
    fn tx_begin(&mut self) -> (r: Result<(), rusqlite::Error>)
        requires
            old(self).wf(),
        ensures
            final(self)@ == old(self)@,
            r is Ok ==> final(self).saved_state() == Some(
                (old(self)@.mappings, old(self)@.rows),
            ),
            r is Err ==> final(self).wf(),
    {
        self.conn.execute_batch("BEGIN")
    }

    /// Relies on rusqlite::Connection::execute_batch running `COMMIT`: makes
    /// the changes since `BEGIN` durable; what the store holds is unchanged
    /// by the commit itself.
    #[verifier::external_body]
    fn tx_commit(&mut self) -> (r: Result<(), rusqlite::Error>)
        ensures
            final(self)@ == old(self)@,
            r is Ok ==> final(self).wf(),
            r is Err ==> final(self).saved_state() == old(self).saved_state(),
    {
        self.conn.execute_batch("COMMIT")
    }

    /// Relies on rusqlite::Connection::execute_batch running `ROLLBACK` and
    /// on SQLite's transaction semantics: the changes since `BEGIN` are
    /// discarded whether the statement itself succeeds or the transaction
    /// was already aborted, so the store is back at the remembered state.
    #[verifier::external_body]
    fn tx_rollback(&mut self)
        requires
            old(self).saved_state() is Some,
        ensures
            final(self).wf(),
            final(self)@.mappings == old(self).saved_state().unwrap().0,
            final(self)@.rows == old(self).saved_state().unwrap().1,
    {
        let _discarded = self.conn.execute_batch("ROLLBACK");
    }

    /// Relies on rusqlite::Connection::execute: `INSERT OR REPLACE` of the
    /// branch mapping row keyed by `git`; a failed statement changes nothing.
    #[verifier::external_body]
    fn upsert_mapping(&mut self, git: &str, cvs: &str) -> (r: Result<(), rusqlite::Error>)
        ensures
            final(self).saved_state() == old(self).saved_state(),
            final(self)@.rows == old(self)@.rows,
            r is Ok ==> final(self)@.mappings == old(self)@.mappings.insert(git@, cvs@),
            r is Err ==> final(self)@.mappings == old(self)@.mappings,
    {
        self.conn
            .execute("INSERT OR REPLACE INTO branch_mappings (git, cvs) VALUES (?, ?)", (git, cvs))
            .map(|_| ())
    }

    /// Relies on rusqlite::Connection::execute: `DELETE` of every commit row
    /// of the branch; a failed statement changes nothing.
    #[verifier::external_body]
    fn delete_branch_rows(&mut self, branch: &str) -> (r: Result<(), rusqlite::Error>)
        ensures
            final(self).saved_state() == old(self).saved_state(),
            final(self)@.mappings == old(self)@.mappings,
            r is Ok ==> final(self)@.rows == old(self)@.rows.insert(
                branch@,
                Seq::<(Seq<char>, int)>::empty(),
            ),
            r is Err ==> final(self)@.rows == old(self)@.rows,
    {
        self.conn
            .execute("DELETE FROM commit_branches WHERE branch = ?", (branch,))
            .map(|_| ())
    }

    /// Relies on rusqlite::Connection::execute: `INSERT` of one commit row
    /// for the branch; a failed statement changes nothing.
    #[verifier::external_body]
    fn insert_commit_row(&mut self, oid_hex: &str, branch: &str, idx: usize) -> (r: Result<
        (),
        rusqlite::Error,
    >)
        ensures
            final(self).saved_state() == old(self).saved_state(),
            final(self)@.mappings == old(self)@.mappings,
            r is Ok ==> final(self)@.rows == old(self)@.rows.insert(
                branch@,
                rows_of(old(self)@.rows, branch@).push((oid_hex@, idx as int)),
            ),
            r is Err ==> final(self)@.rows == old(self)@.rows,
    {
        self.conn
            .execute(
                "INSERT INTO commit_branches (oid, branch, branch_index) VALUES (?, ?, ?)",
                (oid_hex, branch, idx as i64),
            )
            .map(|_| ())
    }

    /// Relies on rusqlite::Connection::query_row and
    /// OptionalExtension::optional: the `cvs` column of the row whose `git`
    /// key matches, exactly what the mapping table records.
    #[verifier::external_body]
    fn lookup_mapping(&self, git: &str) -> (r: Result<Option<String>, rusqlite::Error>)
        ensures
            r matches Ok(Some(s)) ==> self@.mappings.contains_key(git@) && s@
                == self@.mappings[git@],
            r matches Ok(None) ==> !self@.mappings.contains_key(git@),
    {
        self.conn
            .query_row("SELECT cvs FROM branch_mappings WHERE git = ?", (git,), |row| row.get(0))
            .optional()
    }

    /// Opens or creates the store at `path` and provisions its two tables;
    /// provisioning is idempotent, so re-opening an up-to-date store is a
    /// no-op. The handle's model holds whatever the opened store holds.
    pub fn open(path: &str) -> (r: Result<Database, ReplayError>)
        ensures
            r matches Ok(d) ==> d.wf(),
            r is Err ==> r matches Err(ReplayError::Db(_)),
    {
        let conn = match db_open(path) {
            Ok(c) => c,
            Err(e) => {
                return Err(ReplayError::Db(e));
            },
        };
        let provision =
            "CREATE TABLE IF NOT EXISTS branch_mappings (git TEXT PRIMARY KEY, cvs TEXT NOT NULL); CREATE TABLE IF NOT EXISTS commit_branches (oid TEXT, branch TEXT, branch_index INTEGER);";
        match db_batch(&conn, provision) {
            Ok(_) => Ok(Database::attach(conn)),
            Err(e) => Err(ReplayError::Db(e)),
        }
    }

    /// The LVCS branch name the store maps a DVCS branch to, if a replay
    /// already recorded one.
    pub fn get_cvs_branch(&self, git: &str) -> (r: Result<Option<String>, ReplayError>)
        ensures
            r matches Ok(Some(s)) ==> self@.mappings.contains_key(git@) && s@
                == self@.mappings[git@],
            r matches Ok(None) ==> !self@.mappings.contains_key(git@),
            r is Err ==> r matches Err(ReplayError::Db(_)),
    {
        match self.lookup_mapping(git) {
            Ok(v) => Ok(v),
            Err(e) => Err(ReplayError::Db(e)),
        }
    }

    /// Within one transaction: upserts the branch mapping, deletes every
    /// commit row of the branch, and inserts one row per commit with its
    /// position counting from zero. On success the store records exactly the
    /// given mapping and sequence; on any failure it is left as it was.
    pub fn write_branch(&mut self, git_branch: &str, cvs_branch: &str, commits: &Vec<Oid>) -> (r:
        Result<(), ReplayError>)
        requires
            old(self).wf(),
        ensures
            final(self).wf(),
            r is Ok ==> final(self)@.mappings == old(self)@.mappings.insert(
                git_branch@,
                cvs_branch@,
            ) && final(self)@.rows == old(self)@.rows.insert(
                git_branch@,
                indexed_rows(oids_view(commits@)),
            ),
            r is Err ==> final(self)@.mappings == old(self)@.mappings && final(self)@.rows == old(
                self,
            )@.rows,
            r is Err ==> r matches Err(ReplayError::Db(_)),
    {
        match self.tx_begin() {
            Ok(_) => {},
            Err(e) => {
                return Err(ReplayError::Db(e));
            },
        }
        match self.write_branch_rows(git_branch, cvs_branch, commits) {
            Ok(_) => match self.tx_commit() {
                Ok(_) => Ok(()),
                Err(e) => {
                    self.tx_rollback();
                    Err(ReplayError::Db(e))
                },
            },
            Err(e) => {
                self.tx_rollback();
                Err(e)
            },
        }
    }

    fn write_branch_rows(&mut self, git_branch: &str, cvs_branch: &str, commits: &Vec<Oid>) -> (r:
        Result<(), ReplayError>)
        ensures
            final(self).saved_state() == old(self).saved_state(),
            r is Ok ==> final(self)@.mappings == old(self)@.mappings.insert(
                git_branch@,
                cvs_branch@,
            ) && final(self)@.rows == old(self)@.rows.insert(
                git_branch@,
                indexed_rows(oids_view(commits@)),
            ),
            r is Err ==> r matches Err(ReplayError::Db(_)),
    {
        match self.upsert_mapping(git_branch, cvs_branch) {
            Ok(_) => {},
            Err(e) => {
                return Err(ReplayError::Db(e));
            },
        }
        match self.delete_branch_rows(git_branch) {
            Ok(_) => {},
            Err(e) => {
                return Err(ReplayError::Db(e));
            },
        }
        proof {
            assert(indexed_rows(oids_view(commits@).take(0)) =~= Seq::<(Seq<char>, int)>::empty());
            assert(self@.rows =~= old(self)@.rows.insert(
                git_branch@,
                indexed_rows(oids_view(commits@).take(0)),
            ));
        }
        let mut i: usize = 0;
        while i < commits.len()
            invariant
                i <= commits@.len(),
                self.saved_state() == old(self).saved_state(),
                self@.mappings == old(self)@.mappings.insert(git_branch@, cvs_branch@),
                self@.rows == old(self)@.rows.insert(
                    git_branch@,
                    indexed_rows(oids_view(commits@).take(i as int)),
                ),
            decreases commits@.len() - i,
        {
            let ghost pre_rows = self@.rows;
            match self.insert_commit_row(commits[i].hex_str(), git_branch, i) {
                Ok(_) => {},
                Err(e) => {
                    return Err(ReplayError::Db(e));
                },
            }
            proof {
                assert(pre_rows.contains_key(git_branch@));
                assert(rows_of(pre_rows, git_branch@) == indexed_rows(
                    oids_view(commits@).take(i as int),
                ));
                assert(oids_view(commits@)[i as int] == commits@[i as int]@);
                assert(indexed_rows(oids_view(commits@).take(i as int)).push(
                    (commits@[i as int]@, i as int),
                ) =~= indexed_rows(oids_view(commits@).take(i + 1 as int)));
                assert(self@.rows =~= old(self)@.rows.insert(
                    git_branch@,
                    indexed_rows(oids_view(commits@).take(i + 1 as int)),
                ));
            }
            i = i + 1;
        }
        proof {
            assert(oids_view(commits@).take(commits@.len() as int) =~= oids_view(commits@));
        }
        Ok(())
    }
}

} // verus!
