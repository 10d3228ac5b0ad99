use gitcvs::cvs::{
    add_args, add_chunk_args, checkout_args, commit_args, remove_args, remove_chunk_args,
};

fn strings(xs: &[&str]) -> Vec<String> {
    xs.iter().map(|s| s.to_string()).collect()
}

#[test]
fn checkout_wire_shape() {
    assert_eq!(
        checkout_args("anon@host:/repo", "mymod", "/tmp/co"),
        strings(&["-d", "anon@host:/repo", "checkout", "-d", "/tmp/co", "-R", "mymod"])
    );
}

#[test]
fn add_wire_shapes() {
    assert_eq!(add_args("src/a.txt", false), strings(&["add", "src/a.txt"]));
    assert_eq!(add_args("src/b.bin", true), strings(&["add", "-kb", "src/b.bin"]));
    assert_eq!(
        add_chunk_args(&strings(&["x", "y"]), false),
        strings(&["add", "x", "y"])
    );
    assert_eq!(
        add_chunk_args(&strings(&["x", "y"]), true),
        strings(&["add", "-kb", "x", "y"])
    );
}

#[test]
fn remove_wire_shapes() {
    assert_eq!(remove_args("src/a.txt"), strings(&["remove", "src/a.txt"]));
    assert_eq!(
        remove_chunk_args(&strings(&["p", "q"])),
        strings(&["remove", "p", "q"])
    );
}

#[test]
fn commit_wire_shape() {
    assert_eq!(commit_args("/tmp/msgfile"), strings(&["commit", "-F", "/tmp/msgfile"]));
}
