use try_rs::paths::expand_path;
use try_rs::paths::join_path;

#[test]
fn expand_path_tilde() {
    let home = Some(String::from("/home/user"));
    let expanded = expand_path("~/some/dir", &home);
    assert!(!expanded.starts_with("~"));
    assert!(expanded.ends_with("some/dir"));
}

#[test]
fn expand_path_absolute() {
    let home = Some(String::from("/home/user"));
    let expanded = expand_path("/absolute/path", &home);
    assert_eq!(expanded, "/absolute/path");
}

#[test]
fn expand_path_relative() {
    let home = Some(String::from("/home/user"));
    let expanded = expand_path("relative/path", &home);
    assert_eq!(expanded, "relative/path");
}

#[test]
fn expand_path_just_tilde() {
    let home = Some(String::from("/home/user"));
    let expanded = expand_path("~", &home);
    assert_eq!(expanded, "~");
}

#[test]
fn expand_path_without_home_keeps_tilde() {
    let expanded = expand_path("~/some/dir", &None);
    assert_eq!(expanded, "~/some/dir");
}

#[test]
fn utils_test_expand_path_tilde() {
    let home = Some(String::from("/home/user"));
    let expanded = expand_path("~/some/dir", &home);
    assert!(!expanded.starts_with("~"));
    assert!(expanded.ends_with("some/dir"));
}

#[test]
fn utils_test_expand_path_absolute() {
    let home = Some(String::from("/home/user"));
    let expanded = expand_path("/absolute/path", &home);
    assert_eq!(expanded, "/absolute/path");
}

#[test]
fn join_path_inserts_separator() {
    assert_eq!(join_path("/base", "child"), "/base/child");
    assert_eq!(join_path("", "x"), "/x");
}
