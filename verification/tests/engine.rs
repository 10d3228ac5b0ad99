use gitcvs::engine::{
    apply_blob_entry, apply_tree_entry, check_branch_unmapped, entry_rel_path, plan_commit_ops,
    BlobAction,
};
use gitcvs::errors::ReplayError;
use gitcvs::git::Oid;
use gitcvs::state::{Commit, Global};

fn strings(xs: &[&str]) -> Vec<String> {
    xs.iter().map(|s| s.to_string()).collect()
}

#[test]
fn entry_paths_join_prefix_and_name() {
    assert_eq!(entry_rel_path("", &Some("a.txt".to_string())), "a.txt");
    assert_eq!(entry_rel_path("bin", &Some("x".to_string())), "bin/x");
    assert_eq!(entry_rel_path("p", &None), "p");
}

#[test]
fn single_commit_replay_plan() {
    let mut g = Global::new("/w".to_string(), "src".to_string());
    let mut c = Commit::new();
    let a = apply_blob_entry(&mut g, &mut c, "a.txt", &Oid::from_hex("aa"), 0o100644, false);
    assert!(matches!(a, BlobAction::Write { executable: false }));
    assert!(apply_tree_entry(&g, &mut c, "bin", false));
    let b = apply_blob_entry(&mut g, &mut c, "bin/x", &Oid::from_hex("bb"), 0o100755, true);
    assert!(matches!(b, BlobAction::Write { executable: true }));
    let ops = plan_commit_ops(&mut g, &c, 1000);
    assert!(ops.removed.is_empty());
    assert!(ops.remove_batches.is_empty());
    assert_eq!(ops.text_add_batches, vec![strings(&["src/a.txt", "src/bin"])]);
    assert_eq!(ops.binary_add_batches, vec![strings(&["src/bin/x"])]);
}

#[test]
fn deletion_across_commits() {
    let mut g = Global::new("/w".to_string(), "src".to_string());
    let mut c1 = Commit::new();
    apply_blob_entry(&mut g, &mut c1, "a.txt", &Oid::from_hex("aa"), 0o100644, false);
    let _ = plan_commit_ops(&mut g, &c1, 1000);
    let c2 = Commit::new();
    let ops = plan_commit_ops(&mut g, &c2, 1000);
    assert_eq!(ops.removed.len(), 1);
    assert_eq!(ops.removed[0].cvs_relative_path(), "src/a.txt");
    assert_eq!(ops.remove_batches, vec![strings(&["src/a.txt"])]);
    assert!(ops.text_add_batches.is_empty());
    assert!(ops.binary_add_batches.is_empty());
}

#[test]
fn content_identical_commit_plans_nothing() {
    let mut g = Global::new("/w".to_string(), "src".to_string());
    let mut c1 = Commit::new();
    apply_blob_entry(&mut g, &mut c1, "a.txt", &Oid::from_hex("aa"), 0o100644, false);
    let _ = plan_commit_ops(&mut g, &c1, 1000);
    let mut c2 = Commit::new();
    let act = apply_blob_entry(&mut g, &mut c2, "a.txt", &Oid::from_hex("aa"), 0o100644, false);
    assert!(matches!(act, BlobAction::Unchanged));
    let ops = plan_commit_ops(&mut g, &c2, 1000);
    assert!(ops.removed.is_empty());
    assert!(ops.remove_batches.is_empty());
    assert!(ops.text_add_batches.is_empty());
    assert!(ops.binary_add_batches.is_empty());
}

#[test]
fn modified_file_rewritten_but_not_readded() {
    let mut g = Global::new("/w".to_string(), "src".to_string());
    let mut c1 = Commit::new();
    apply_blob_entry(&mut g, &mut c1, "a.txt", &Oid::from_hex("aa"), 0o100644, false);
    let _ = plan_commit_ops(&mut g, &c1, 1000);
    let mut c2 = Commit::new();
    let act = apply_blob_entry(&mut g, &mut c2, "a.txt", &Oid::from_hex("bb"), 0o100644, false);
    assert!(matches!(act, BlobAction::Write { executable: false }));
    let ops = plan_commit_ops(&mut g, &c2, 1000);
    assert!(ops.removed.is_empty());
    assert!(ops.text_add_batches.is_empty());
    assert!(ops.binary_add_batches.is_empty());
}

#[test]
fn existing_directory_is_left_alone() {
    let g = Global::new("/w".to_string(), "src".to_string());
    let mut c = Commit::new();
    assert!(!apply_tree_entry(&g, &mut c, "bin", true));
    assert!(c.iter_new_non_binary_files().is_empty());
}

#[test]
fn branch_guard_refuses_mapped_branch() {
    assert!(check_branch_unmapped(&None).is_ok());
    let r = check_branch_unmapped(&Some("main".to_string()));
    assert!(matches!(r, Err(ReplayError::BranchExists)));
}
