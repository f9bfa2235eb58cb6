use spawn_core::github::parse_repo_from_url;

#[test]
fn test_parse_https_url() {
    let url = "https://github.com/owner/repo.git";
    assert_eq!(
        parse_repo_from_url(url),
        Some(("owner".to_string(), "repo".to_string()))
    );
}

#[test]
fn test_parse_https_url_no_git_suffix() {
    let url = "https://github.com/owner/repo";
    assert_eq!(
        parse_repo_from_url(url),
        Some(("owner".to_string(), "repo".to_string()))
    );
}

#[test]
fn test_parse_ssh_url() {
    let url = "git@github.com:owner/repo.git";
    assert_eq!(
        parse_repo_from_url(url),
        Some(("owner".to_string(), "repo".to_string()))
    );
}

#[test]
fn test_parse_invalid_url_returns_none() {
    assert_eq!(parse_repo_from_url("not-a-url"), None);
}

#[test]
fn test_parse_gitlab_url_returns_none() {
    assert_eq!(
        parse_repo_from_url("https://gitlab.com/owner/repo.git"),
        None
    );
}

#[test]
fn test_parse_repeated_git_suffix_trimmed() {
    assert_eq!(
        parse_repo_from_url("https://github.com/owner/repo.git.git"),
        Some(("owner".to_string(), "repo".to_string()))
    );
}

#[test]
fn test_parse_empty_owner_returns_none() {
    assert_eq!(parse_repo_from_url("https://github.com//repo"), None);
}

#[test]
fn test_parse_empty_repo_returns_none() {
    assert_eq!(parse_repo_from_url("https://github.com/owner/"), None);
}

#[test]
fn test_parse_no_slash_returns_none() {
    assert_eq!(parse_repo_from_url("https://github.com/owner"), None);
}

#[test]
fn test_parse_extra_path_kept_in_repo() {
    assert_eq!(
        parse_repo_from_url("git@github.com:owner/repo/extra"),
        Some(("owner".to_string(), "repo/extra".to_string()))
    );
}
