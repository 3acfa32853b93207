use git_c::cli::{ArgError, GitConfig};

fn strings(args: &[&str]) -> Vec<String> {
    args.iter().map(|a| a.to_string()).collect()
}

#[test]
fn forwards_recognized_flags_and_values() {
    let args = strings(&["--quiet", "--depth", "3", "https://github.com/org/repo.git"]);
    let req = GitConfig::classify_args(&args).unwrap();
    assert_eq!(req.git_args, strings(&["--quiet", "--depth", "3"]));
    assert_eq!(req.url.as_deref(), Some("https://github.com/org/repo.git"));
    assert_eq!(req.base, None);
}

#[test]
fn prefix_overrides_the_base_directory() {
    let args = strings(&["--prefix", "/srv/repos", "git@github.com:org/repo"]);
    let req = GitConfig::classify_args(&args).unwrap();
    assert!(req.git_args.is_empty());
    assert_eq!(req.url.as_deref(), Some("git@github.com:org/repo"));
    assert_eq!(req.base.as_deref(), Some("/srv/repos"));
}

#[test]
fn unsupported_flag_is_rejected() {
    let args = strings(&["--wat", "https://github.com/org/repo"]);
    let r = GitConfig::classify_args(&args);
    assert!(matches!(r, Err(ArgError::Unsupported(a)) if a == "--wat"));
}

#[test]
fn excess_positional_is_rejected() {
    let args = strings(&["https://github.com/org/repo", "elsewhere"]);
    let r = GitConfig::classify_args(&args);
    assert!(matches!(r, Err(ArgError::ExcessArgument(a)) if a == "elsewhere"));
}

#[test]
fn url_may_be_omitted() {
    let args = strings(&["--verbose"]);
    let req = GitConfig::classify_args(&args).unwrap();
    assert_eq!(req.git_args, strings(&["--verbose"]));
    assert_eq!(req.url, None);
}

#[test]
fn clone_args_appends_url_and_directory() {
    let args = strings(&["--quiet", "https://github.com/org/repo"]);
    let req = GitConfig::classify_args(&args).unwrap();
    let full = req.clone_args(
        "https://github.com/org/repo".to_string(),
        "git/github.com/org/repo".to_string(),
    );
    assert_eq!(
        full,
        strings(&["--quiet", "https://github.com/org/repo", "git/github.com/org/repo"])
    );
}

#[test]
fn option_value_is_taken_verbatim() {
    // The argument after a value-taking option is its value, even where it
    // looks like a flag.
    let args = strings(&["--branch", "--quiet", "repo-url"]);
    let req = GitConfig::classify_args(&args).unwrap();
    assert_eq!(req.git_args, strings(&["--branch", "--quiet"]));
    assert_eq!(req.url.as_deref(), Some("repo-url"));
}
