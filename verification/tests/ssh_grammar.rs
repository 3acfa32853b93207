use git_c::remote::ParsedRemote;
use git_c::ssh::{parse_url, parts};

#[test]
fn parses_scp() {
    let (server, project) = parts("user@server:project", ':').unwrap();

    assert_eq!(&server, "server");
    assert_eq!(project, "project");
}

#[test]
fn parses_url() {
    let (server, project) = parts("user@server/project", '/').unwrap();

    assert_eq!(&server, "server");
    assert_eq!(&project, "project");
}

#[test]
fn parses_edge_cases() {
    let urls = [
        ("User@Server:Project.Api.Dto", ("Server", "Project.Api.Dto")),
        ("User@Server:Project-Api-Dto", ("Server", "Project-Api-Dto")),
    ];

    for url in &urls {
        let (actual_server, actual_project) = parts(url.0, ':').unwrap();
        let (expected_server, expected_project) = url.1;
        assert_eq!(expected_server, &actual_server);
        assert_eq!(expected_project, &actual_project);
    }
}

#[test]
fn scp_without_user_segment() {
    let (server, project) = parts("server:project", ':').unwrap();
    assert_eq!(&server, "server");
    assert_eq!(&project, "project");
}

#[test]
fn project_keeps_inner_slashes_verbatim() {
    let (server, project) = parts("git@host.example:a/b/c", ':').unwrap();
    assert_eq!(&server, "host.example");
    assert_eq!(&project, "a/b/c");
}

#[test]
fn project_stops_at_whitespace() {
    let (server, project) = parts("git@host:proj extra", ':').unwrap();
    assert_eq!(&server, "host");
    assert_eq!(&project, "proj");
}

#[test]
fn missing_separator_fails() {
    assert!(parts("user@serverproject", ':').is_err());
}

#[test]
fn wrong_separator_fails() {
    assert!(parts("user@server/project", ':').is_err());
}

#[test]
fn empty_host_fails() {
    assert!(parts("user@:project", ':').is_err());
}

#[test]
fn empty_project_fails() {
    assert!(parts("user@server:", ':').is_err());
}

#[test]
fn leading_at_joins_the_host() {
    // No user segment can be empty, so a leading `@` belongs to the host.
    let (server, project) = parts("@server:project", ':').unwrap();
    assert_eq!(&server, "@server");
    assert_eq!(&project, "project");
}

#[test]
fn explicit_scheme_switches_the_separator() {
    let resolved = parse_url("ssh://user@server/project", "base").unwrap();
    assert_eq!(resolved, "base/server/project");
    assert!(parse_url("ssh://user@server:project", "base").is_err());
}

#[test]
fn scp_resolves_under_base() {
    let resolved = parse_url("git@github.com:org/repo", "git").unwrap();
    assert_eq!(resolved, "git/github.com/org/repo");
}

#[test]
fn remote_joins_segments_with_slashes() {
    let remote = ParsedRemote {
        host: "example.com".to_string(),
        // The leading empty segment renders the slash after the host.
        path_segments: vec![String::new(), "org".to_string(), "repo".to_string()],
    };
    assert_eq!(remote.resolved("base"), "base/example.com/org/repo");
}
