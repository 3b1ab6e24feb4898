use link_guardian::github::{parse_github_url, readme_url, GithubUrlError};
use link_guardian::strutil::{str_contains, str_eq, u16_to_dec};

#[test]
fn test_parse_github_url() {
    let (owner, repo) = parse_github_url("https://github.com/rust-lang/rust").unwrap();
    assert_eq!(owner, "rust-lang");
    assert_eq!(repo, "rust");
}

#[test]
fn test_parse_github_url_with_git() {
    let (owner, repo) = parse_github_url("https://github.com/user/repo.git").unwrap();
    assert_eq!(owner, "user");
    assert_eq!(repo, "repo");
}

#[test]
fn test_parse_invalid_url() {
    let result = parse_github_url("https://gitlab.com/user/repo");
    assert!(result.is_err());
    assert_eq!(result.unwrap_err(), GithubUrlError::NotGithubUrl);
}

#[test]
fn parse_github_url_without_repo_is_invalid() {
    let result = parse_github_url("https://github.com/onlyowner");
    assert_eq!(result.unwrap_err(), GithubUrlError::InvalidFormat);
}

#[test]
fn parse_github_url_accepts_bare_and_www_forms() {
    let (owner, repo) = parse_github_url("github.com/user/repo").unwrap();
    assert_eq!((owner.as_str(), repo.as_str()), ("user", "repo"));
    let (owner, repo) = parse_github_url("http://www.github.com/user/repo/tree/main").unwrap();
    assert_eq!((owner.as_str(), repo.as_str()), ("user", "repo"));
}

#[test]
fn readme_url_names_the_branch() {
    assert_eq!(
        readme_url("rust-lang", "rust", "main"),
        "https://raw.githubusercontent.com/rust-lang/rust/main/README.md",
    );
    assert_eq!(
        readme_url("user", "repo", "master"),
        "https://raw.githubusercontent.com/user/repo/master/README.md",
    );
}

#[test]
fn string_helpers_behave_like_std() {
    assert!(str_eq("abc", "abc"));
    assert!(!str_eq("abc", "abd"));
    assert!(str_contains("a dns failure", "dns"));
    assert!(!str_contains("a name server failure", "dns"));
    assert!(str_contains("", ""));
    assert_eq!(u16_to_dec(0), "0");
    assert_eq!(u16_to_dec(65535), "65535");
    assert_eq!(u16_to_dec(301), "301");
}
