use gitcvs::git::Oid;
use gitcvs::state::{join_paths, Commit, Global};

#[test]
fn file_paths_share_the_environment() {
    let g = Global::new("/tmp/w".to_string(), "src".to_string());
    let f = g.file("a/b.txt");
    assert_eq!(f.absolute_path(), "/tmp/w/src/a/b.txt");
    assert_eq!(f.cvs_relative_path(), "src/a/b.txt");
}

#[test]
fn file_paths_with_dot_target() {
    let g = Global::new("/tmp/w".to_string(), ".".to_string());
    let f = g.file("a.txt");
    assert_eq!(f.absolute_path(), "/tmp/w/./a.txt");
    assert_eq!(f.cvs_relative_path(), "./a.txt");
}

#[test]
fn file_identity_is_the_relative_path() {
    let g1 = Global::new("/one".to_string(), "src".to_string());
    let g2 = Global::new("/two".to_string(), "other".to_string());
    assert!(g1.file("same") == g2.file("same"));
    assert!(g1.file("a") != g1.file("b"));
}

#[test]
fn join_paths_empty_left() {
    assert_eq!(join_paths("", "a.txt"), "a.txt");
    assert_eq!(join_paths("dir", "a.txt"), "dir/a.txt");
}

#[test]
fn oid_save_and_get() {
    let mut g = Global::new("/w".to_string(), "src".to_string());
    let f = g.file("a");
    assert!(g.get_oid(&f).is_none());
    g.save_oid(f.clone(), &Oid::from_hex("ab12"));
    assert!(g.get_oid(&f).unwrap().same_as(&Oid::from_hex("ab12")));
    g.save_oid(f.clone(), &Oid::from_hex("cd34"));
    assert!(g.get_oid(&f).unwrap().same_as(&Oid::from_hex("cd34")));
}

#[test]
fn remove_unseen_drops_exactly_the_unvisited() {
    let mut g = Global::new("/t".to_string(), "src".to_string());
    let fa = g.file("a");
    let fb = g.file("b");
    g.save_oid(fa.clone(), &Oid::from_hex("01"));
    g.save_oid(fb.clone(), &Oid::from_hex("02"));
    let mut c = Commit::new();
    c.seen_file(fa.clone());
    assert!(c.saw(&fa));
    assert!(!c.saw(&fb));
    let removed = g.remove_files_unseen_in_commit(&c);
    assert_eq!(removed.len(), 1);
    assert_eq!(removed[0].cvs_relative_path(), "src/b");
    assert!(g.get_oid(&fb).is_none());
    assert!(g.get_oid(&fa).unwrap().same_as(&Oid::from_hex("01")));
}

#[test]
fn commit_lists_keep_order_and_kind() {
    let g = Global::new("/w".to_string(), "src".to_string());
    let mut c = Commit::new();
    c.new_file(g.file("d"), false);
    c.new_file(g.file("d/x.bin"), true);
    c.new_file(g.file("d/y.txt"), false);
    let text = c.iter_new_non_binary_files();
    assert_eq!(text.len(), 2);
    assert_eq!(text[0].cvs_relative_path(), "src/d");
    assert_eq!(text[1].cvs_relative_path(), "src/d/y.txt");
    let bins = c.iter_new_binary_files();
    assert_eq!(bins.len(), 1);
    assert_eq!(bins[0].cvs_relative_path(), "src/d/x.bin");
}

#[test]
fn oid_hex_roundtrip() {
    let o = Oid::from_hex("deadbeef");
    assert_eq!(o.hex_str(), "deadbeef");
    assert!(o.same_as(&o.clone()));
    assert!(!o.same_as(&Oid::from_hex("deadbeee")));
}
