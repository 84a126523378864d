use tempdir::TempDir;
use try_rs::git::first_line;
use try_rs::git::is_git_worktree;

#[test]
fn first_line_basic() {
    let input = b"gitdir: /some/path/to/worktree\n";
    let result = first_line(input);
    assert_eq!(String::from_utf8_lossy(&result), "/some/path/to/worktree");
}

#[test]
fn first_line_no_newline() {
    let input = b"gitdir: /path/without/newline";
    let result = first_line(input);
    assert_eq!(String::from_utf8_lossy(&result), "/path/without/newline");
}

#[test]
fn first_line_without_space_is_empty() {
    let result = first_line(b"gitdir\n");
    assert!(result.is_empty());
}

#[test]
fn is_git_worktree_not_worktree() {
    let tmp = TempDir::new("worktree-test").unwrap();
    assert!(!is_git_worktree(tmp.path().to_str().unwrap()));
}
