use git_c::{normalize, resolve, to_filesystem_path, to_filesystem_path_with, CasePolicy};

#[test]
fn main_github_https() {
    let url = "https://github.com/lihram/rust-clone-organized.git";
    let expected = "git/github.com/lihram/rust-clone-organized";
    let actual = to_filesystem_path("git", url).unwrap();

    assert_eq!(actual, expected);
}

#[test]
fn main_github_ssh() {
    let url = "git@github.com:lihram/rust-clone-organized.git";
    let expected = "git/github.com/lihram/rust-clone-organized";
    let actual = to_filesystem_path("git", url).unwrap();

    assert_eq!(actual, expected);
}

#[test]
fn tests_github_https() {
    let url = "https://github.com/lihram/rust-clone-organized.git";
    let expected = "git/github.com/lihram/rust-clone-organized";
    let actual = to_filesystem_path("git", url).unwrap();

    assert_eq!(actual, expected);
}

#[test]
fn tests_github_ssh() {
    let url = "git@github.com:lihram/rust-clone-organized.git";
    let expected = "git/github.com/lihram/rust-clone-organized";
    let actual = to_filesystem_path("git", url).unwrap();

    assert_eq!(actual, expected);
}

#[test]
fn https_round_trip_shape() {
    let actual = to_filesystem_path("git", "https://github.com/org/repo.git").unwrap();
    assert_eq!(actual, "git/github.com/org/repo");
}

#[test]
fn scp_form() {
    let actual = to_filesystem_path("git", "git@github.com:org/repo.git").unwrap();
    assert_eq!(actual, "git/github.com/org/repo");
}

#[test]
fn explicit_ssh_form() {
    let actual = to_filesystem_path("git", "ssh://git@github.com/org/repo").unwrap();
    assert_eq!(actual, "git/github.com/org/repo");
}

#[test]
fn not_a_url_fails() {
    assert!(resolve("git", "not a url at all").is_err());
    assert!(to_filesystem_path("git", "not a url at all").is_err());
}

#[test]
fn empty_input_fails() {
    assert!(to_filesystem_path("git", "").is_err());
}

#[test]
fn host_only_https_has_no_trailing_slash() {
    let actual = to_filesystem_path("git", "https://github.com").unwrap();
    assert_eq!(actual, "git/github.com");
}

#[test]
fn uri_without_host_never_falls_through_to_ssh() {
    // The scp grammar alone would accept this, but the standard-uri reading
    // wins and it has no host.
    assert!(to_filesystem_path("git", "unix:/run/foo.socket").is_err());
}

#[test]
fn file_uri_without_usable_host_fails() {
    assert!(to_filesystem_path("git", "file:///tmp/somewhere").is_err());
}

#[test]
fn normalize_trims_and_strips_one_suffix() {
    assert_eq!(normalize("  https://github.com/org/repo.git \n"), "https://github.com/org/repo");
    assert_eq!(normalize(".git.git"), ".git");
    assert_eq!(normalize("  .git"), "");
    assert_eq!(normalize("repo.GIT"), "repo.GIT");
}

#[test]
fn normalize_trims_unicode_whitespace() {
    assert_eq!(normalize("\u{000B}x"), "x");
    assert_eq!(normalize("\u{00A0}https://github.com/org/repo.git\u{2028}"), "https://github.com/org/repo");
    assert_eq!(
        to_filesystem_path("git", "\u{00A0}https://github.com/org/repo\u{000C}").unwrap(),
        to_filesystem_path("git", "https://github.com/org/repo").unwrap(),
    );
}

#[test]
fn normalize_is_idempotent_on_ordinary_urls() {
    let u = "  https://github.com/org/repo.git  ";
    assert_eq!(normalize(&normalize(u)), normalize(u));
}

#[test]
fn normalize_can_uncover_trailing_whitespace() {
    // Stripping the suffix may expose whitespace; a second pass then trims it.
    assert_eq!(normalize("x .git"), "x ");
    assert_eq!(normalize(&normalize("x .git")), "x");
}

#[test]
fn lowercase_policy_folds_before_resolving() {
    let url = "HTTPS://GitHub.com/Org/Repo.GIT";
    let folded = to_filesystem_path_with(CasePolicy::Lowercase, "git", url).unwrap();
    assert_eq!(folded, "git/github.com/org/repo");
    let kept = to_filesystem_path_with(CasePolicy::Preserve, "git", url).unwrap();
    assert_eq!(kept, "git/github.com/Org/Repo.GIT");
}

#[test]
fn resolved_path_starts_with_base() {
    let actual = to_filesystem_path("repos", "https://example.net/a/b").unwrap();
    assert!(actual.starts_with("repos/"));
    assert!(!actual.is_empty());
}
