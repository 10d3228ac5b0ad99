use gitcvs::database::Database;
use gitcvs::engine::prepare_replay;
use gitcvs::errors::ReplayError;
use gitcvs::git::GitRepository;

fn make_commit(
    repo: &git2::Repository,
    parents: &[&git2::Commit<'_>],
    files: &[(&str, &str)],
) -> git2::Oid {
    let mut tb = repo.treebuilder(None).unwrap();
    for (name, content) in files {
        let boid = repo.blob(content.as_bytes()).unwrap();
        tb.insert(name, boid, 0o100644).unwrap();
    }
    let tree_oid = tb.write().unwrap();
    let tree = repo.find_tree(tree_oid).unwrap();
    let sig = git2::Signature::now("tester", "tester@example.com").unwrap();
    repo.commit(None, &sig, &sig, "msg", &tree, parents).unwrap()
}

#[test]
fn linear_history_is_oldest_first() {
    let dir = tempfile::tempdir().unwrap();
    let repo = git2::Repository::init(dir.path()).unwrap();
    let c1 = make_commit(&repo, &[], &[("a.txt", "one")]);
    let c1c = repo.find_commit(c1).unwrap();
    let c2 = make_commit(&repo, &[&c1c], &[("a.txt", "two")]);
    let c2c = repo.find_commit(c2).unwrap();
    repo.branch("work", &c2c, true).unwrap();

    let g = GitRepository::open(dir.path().to_str().unwrap()).unwrap();
    let b = g.branch("work", false).unwrap().unwrap();
    assert_eq!(b.name().unwrap(), "work");
    let hist = b.linear_history(&g).unwrap();
    assert_eq!(hist.len(), 2);
    assert_eq!(hist[0].hex_str(), c1.to_string().as_str());
    assert_eq!(hist[1].hex_str(), c2.to_string().as_str());
}

#[test]
fn linear_history_follows_first_parents_through_merges() {
    let dir = tempfile::tempdir().unwrap();
    let repo = git2::Repository::init(dir.path()).unwrap();
    let c1 = make_commit(&repo, &[], &[("a.txt", "one")]);
    let c1c = repo.find_commit(c1).unwrap();
    let c2 = make_commit(&repo, &[&c1c], &[("a.txt", "two")]);
    let c2c = repo.find_commit(c2).unwrap();
    let side = make_commit(&repo, &[&c1c], &[("b.txt", "side")]);
    let sidec = repo.find_commit(side).unwrap();
    let merge = make_commit(&repo, &[&c2c, &sidec], &[("a.txt", "two"), ("b.txt", "side")]);
    let mergec = repo.find_commit(merge).unwrap();
    repo.branch("merged", &mergec, true).unwrap();

    let g = GitRepository::open(dir.path().to_str().unwrap()).unwrap();
    let b = g.branch("merged", false).unwrap().unwrap();
    let hist = b.linear_history(&g).unwrap();
    let hex: Vec<String> = hist.iter().map(|o| o.hex_str().to_string()).collect();
    assert_eq!(hex, vec![c1.to_string(), c2.to_string(), merge.to_string()]);
}

#[test]
fn blob_lookup_reads_content() {
    let dir = tempfile::tempdir().unwrap();
    let repo = git2::Repository::init(dir.path()).unwrap();
    let boid = repo.blob(b"hello\n").unwrap();
    let g = GitRepository::open(dir.path().to_str().unwrap()).unwrap();
    let blob = g.blob(&gitcvs::git::Oid::from_hex(&boid.to_string())).unwrap();
    assert_eq!(blob.content(), b"hello\n");
    assert!(!blob.is_binary());
}

#[test]
fn missing_branch_is_none() {
    let dir = tempfile::tempdir().unwrap();
    git2::Repository::init(dir.path()).unwrap();
    let g = GitRepository::open(dir.path().to_str().unwrap()).unwrap();
    assert!(g.branch("nope", false).unwrap().is_none());
}

#[test]
fn prepare_replay_sanitises_persists_and_then_refuses() {
    let dir = tempfile::tempdir().unwrap();
    let repo = git2::Repository::init(dir.path()).unwrap();
    let c1 = make_commit(&repo, &[], &[("a.txt", "one")]);
    let c1c = repo.find_commit(c1).unwrap();
    let c2 = make_commit(&repo, &[&c1c], &[("a.txt", "two")]);
    let c2c = repo.find_commit(c2).unwrap();
    repo.branch("feat/x", &c2c, true).unwrap();

    let dbdir = tempfile::tempdir().unwrap();
    let dbp = dbdir.path().join("meta.sqlite").to_str().unwrap().to_string();
    let mut db = Database::open(&dbp).unwrap();
    let g = GitRepository::open(dir.path().to_str().unwrap()).unwrap();

    let plan = prepare_replay(&mut db, &g, "feat/x", false).unwrap();
    assert_eq!(plan.cvs_branch, "feat__u00002fx");
    assert_eq!(plan.commits.len(), 2);
    assert_eq!(plan.commits[0].hex_str(), c1.to_string().as_str());
    assert_eq!(db.get_cvs_branch("feat/x").unwrap().unwrap(), "feat__u00002fx");

    let again = prepare_replay(&mut db, &g, "feat/x", false);
    assert!(matches!(again, Err(ReplayError::BranchExists)));
    let conn = rusqlite::Connection::open(&dbp).unwrap();
    let n: i64 = conn
        .query_row("SELECT COUNT(*) FROM commit_branches", [], |r| r.get(0))
        .unwrap();
    assert_eq!(n, 2);
}

#[test]
fn unknown_branch_is_a_configuration_error() {
    let dir = tempfile::tempdir().unwrap();
    git2::Repository::init(dir.path()).unwrap();
    let dbdir = tempfile::tempdir().unwrap();
    let dbp = dbdir.path().join("meta.sqlite").to_str().unwrap().to_string();
    let mut db = Database::open(&dbp).unwrap();
    let g = GitRepository::open(dir.path().to_str().unwrap()).unwrap();
    let r = prepare_replay(&mut db, &g, "ghost", false);
    assert!(matches!(r, Err(ReplayError::BranchNotFound)));
}

#[test]
fn unreadable_repository_is_a_git_error() {
    let r = GitRepository::open("/nonexistent/path/to/nothing");
    assert!(matches!(r, Err(ReplayError::Git(_))));
}
