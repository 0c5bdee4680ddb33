use must::error::Error;
use must::paths::{ensure_within_root, path_join, validate_name_no_traversal};

#[test]
fn normal_path_passes() {
    let result = ensure_within_root("/tmp/project", "bin/tool");
    assert!(result.is_ok());
    assert_eq!(result.unwrap(), "/tmp/project/bin/tool");
}

#[test]
fn paths_traversal_rejected() {
    let result = ensure_within_root("/tmp/project", "../../etc/passwd");
    assert!(result.is_err());
}

#[test]
fn dot_dot_in_middle_rejected() {
    let result = ensure_within_root("/tmp/project", "foo/../../etc/passwd");
    assert!(result.is_err());
}

#[test]
fn simple_name_passes() {
    assert!(validate_name_no_traversal("build", false).is_ok());
    assert!(validate_name_no_traversal("my-recipe", false).is_ok());
}

#[test]
fn name_with_dot_dot_rejected() {
    assert!(validate_name_no_traversal("../evil", false).is_err());
}

#[test]
fn name_with_separator_rejected() {
    assert!(validate_name_no_traversal("foo/bar", false).is_err());
}

#[test]
fn traversal_error_names_path() {
    match ensure_within_root("/tmp/project", "a/../b") {
        Err(Error::Config { path, message }) => {
            assert_eq!(path, "a/../b");
            assert_eq!(message, "path must not contain '..' components");
        }
        other => panic!("unexpected: {:?}", other),
    }
}

#[test]
fn join_adds_one_separator() {
    assert_eq!(path_join("/tmp/project", "bin"), "/tmp/project/bin");
    assert_eq!(path_join("/tmp/project/", "bin"), "/tmp/project/bin");
}

#[test]
fn name_separator_follows_platform() {
    assert!(validate_name_no_traversal("foo\\bar", true).is_err());
    assert!(validate_name_no_traversal("foo\\bar", false).is_ok());
    assert!(validate_name_no_traversal("foo/bar", true).is_ok());
    assert!(validate_name_no_traversal("..", true).is_err());
}
