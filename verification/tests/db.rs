use gitcvs::database::Database;
use gitcvs::git::Oid;

fn temp_db_path(dir: &tempfile::TempDir) -> String {
    dir.path().join("meta.sqlite").to_str().unwrap().to_string()
}

#[test]
fn open_provisions_and_reopens_idempotently() {
    let dir = tempfile::tempdir().unwrap();
    let p = temp_db_path(&dir);
    {
        let db = Database::open(&p).unwrap();
        assert!(db.get_cvs_branch("main").unwrap().is_none());
    }
    let db = Database::open(&p).unwrap();
    assert!(db.get_cvs_branch("main").unwrap().is_none());
}

#[test]
fn write_branch_records_mapping_and_ordered_commits() {
    let dir = tempfile::tempdir().unwrap();
    let p = temp_db_path(&dir);
    let mut db = Database::open(&p).unwrap();
    let commits = vec![Oid::from_hex("aa11"), Oid::from_hex("bb22")];
    db.write_branch("main", "main-cvs", &commits).unwrap();
    assert_eq!(db.get_cvs_branch("main").unwrap().unwrap(), "main-cvs");
    let conn = rusqlite::Connection::open(&p).unwrap();
    let mut stmt = conn
        .prepare("SELECT oid, branch, branch_index FROM commit_branches ORDER BY branch_index")
        .unwrap();
    let rows: Vec<(String, String, i64)> = stmt
        .query_map([], |r| Ok((r.get(0)?, r.get(1)?, r.get(2)?)))
        .unwrap()
        .map(|x| x.unwrap())
        .collect();
    assert_eq!(
        rows,
        vec![
            ("aa11".to_string(), "main".to_string(), 0),
            ("bb22".to_string(), "main".to_string(), 1)
        ]
    );
}

#[test]
fn rewrite_deletes_the_old_rows_first() {
    let dir = tempfile::tempdir().unwrap();
    let p = temp_db_path(&dir);
    let mut db = Database::open(&p).unwrap();
    db.write_branch("b", "b", &vec![Oid::from_hex("aa"), Oid::from_hex("bb")]).unwrap();
    db.write_branch("b", "b", &vec![Oid::from_hex("cc")]).unwrap();
    let conn = rusqlite::Connection::open(&p).unwrap();
    let n: i64 = conn
        .query_row("SELECT COUNT(*) FROM commit_branches WHERE branch = 'b'", [], |r| r.get(0))
        .unwrap();
    assert_eq!(n, 1);
    let oid: String = conn
        .query_row("SELECT oid FROM commit_branches WHERE branch = 'b'", [], |r| r.get(0))
        .unwrap();
    assert_eq!(oid, "cc");
}

#[test]
fn failed_write_leaves_the_store_unchanged() {
    let dir = tempfile::tempdir().unwrap();
    let p = temp_db_path(&dir);
    let mut db = Database::open(&p).unwrap();
    db.write_branch("b", "first", &vec![Oid::from_hex("aa")]).unwrap();
    {
        let conn = rusqlite::Connection::open(&p).unwrap();
        conn.execute_batch("DROP TABLE commit_branches").unwrap();
    }
    let r = db.write_branch("b", "second", &vec![Oid::from_hex("cc")]);
    assert!(r.is_err());
    assert_eq!(db.get_cvs_branch("b").unwrap().unwrap(), "first");
}

#[test]
fn unreachable_store_is_a_db_error() {
    let r = Database::open("/nonexistent/dir/meta.sqlite");
    assert!(matches!(r, Err(gitcvs::errors::ReplayError::Db(_))));
}
