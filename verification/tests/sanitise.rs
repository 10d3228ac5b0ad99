use gitcvs::sanitise_branch;

#[test]
fn test_sanitise_branch() {
    assert_eq!("foo", sanitise_branch("foo"));
    assert_eq!("foo-Bar_quux0", sanitise_branch("foo-Bar_quux0"));
    assert_eq!("__u000020", sanitise_branch(" "));
}

#[test]
fn sanitise_escapes_slash_and_dot() {
    assert_eq!("release__u00002f1__u00002e0", sanitise_branch("release/1.0"));
}

#[test]
fn sanitise_space_alone() {
    assert_eq!("__u000020", sanitise_branch(" "));
}

#[test]
fn sanitise_non_ascii_scalar() {
    assert_eq!("__u0000e9", sanitise_branch("\u{e9}"));
}

#[test]
fn sanitise_identity_on_allowed_alphabet() {
    assert_eq!("main", sanitise_branch("main"));
    assert_eq!("A-Z_09z", sanitise_branch("A-Z_09z"));
    assert_eq!("", sanitise_branch(""));
}

#[test]
fn sanitise_distinct_inputs_distinct_outputs() {
    assert_ne!(sanitise_branch("a b"), sanitise_branch("a-b"));
    assert_ne!(sanitise_branch("x/y"), sanitise_branch("x.y"));
}
