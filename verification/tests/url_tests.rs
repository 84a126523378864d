use try_rs::urls::extract_repo_name;
use try_rs::urls::is_git_url;

#[test]
fn is_git_url_valid_urls() {
    assert!(is_git_url("https://github.com/user/repo.git"));
    assert!(is_git_url("http://github.com/user/repo"));
    assert!(is_git_url("git@github.com:user/repo.git"));
    assert!(is_git_url("ssh://git@github.com/user/repo"));
    assert!(is_git_url("some-repo.git"));
}

#[test]
fn is_git_url_rejects_plain_names() {
    assert!(!is_git_url("my-project"));
    assert!(!is_git_url("foo/bar"));
    assert!(!is_git_url(""));
}

#[test]
fn is_git_url_edge_cases() {
    assert!(is_git_url("https://gitlab.com/group/subgroup/repo.git"));
    assert!(is_git_url("git@gitlab.com:group/repo.git"));
    assert!(is_git_url("ssh://user@host:22/repo"));
    assert!(!is_git_url("ftp://server/file"));
    assert!(!is_git_url("just-a-name"));
    assert!(!is_git_url("path/to/dir"));
}

#[test]
fn extract_repo_name_from_https() {
    assert_eq!(extract_repo_name("https://github.com/user/repo.git"), "repo");
    assert_eq!(extract_repo_name("https://github.com/user/repo"), "repo");
}

#[test]
fn extract_repo_name_from_ssh() {
    assert_eq!(extract_repo_name("git@github.com:user/repo.git"), "repo");
}

#[test]
fn extract_repo_name_trailing_slash() {
    assert_eq!(extract_repo_name("https://github.com/user/repo/"), "repo");
}

#[test]
fn extract_repo_name_edge_cases() {
    assert_eq!(
        extract_repo_name("https://github.com/user/my-repo.git/"),
        "my-repo"
    );
    assert_eq!(extract_repo_name("git@github.com:org/project"), "project");
    assert_eq!(extract_repo_name("ssh://git@host/deep/nested/repo.git"), "repo");
}

#[test]
fn extract_repo_name_fallback() {
    assert_eq!(extract_repo_name(""), "cloned-repo");
}

#[test]
fn utils_test_is_git_url_valid_urls() {
    assert!(is_git_url("https://github.com/user/repo.git"));
    assert!(is_git_url("http://github.com/user/repo"));
    assert!(is_git_url("git@github.com:user/repo.git"));
    assert!(is_git_url("ssh://git@github.com/user/repo"));
    assert!(is_git_url("some-repo.git"));
}

#[test]
fn utils_test_is_git_url_rejects_plain_names() {
    assert!(!is_git_url("my-project"));
    assert!(!is_git_url("foo/bar"));
    assert!(!is_git_url(""));
}

#[test]
fn utils_test_extract_repo_name_from_https() {
    assert_eq!(extract_repo_name("https://github.com/user/repo.git"), "repo");
    assert_eq!(extract_repo_name("https://github.com/user/repo"), "repo");
}

#[test]
fn utils_test_extract_repo_name_from_ssh() {
    assert_eq!(extract_repo_name("git@github.com:user/repo.git"), "repo");
}

#[test]
fn utils_test_extract_repo_name_trailing_slash() {
    assert_eq!(extract_repo_name("https://github.com/user/repo/"), "repo");
}
