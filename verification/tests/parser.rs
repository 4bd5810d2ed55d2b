use credential_agent::parser::parse_input;
use credential_agent::parser::request_complete;
use credential_agent::parser::ParseError;

fn lines(items: &[&str]) -> Vec<String> {
    items.iter().map(|s| s.to_string()).collect()
}

#[test]
fn parses_valid_path_and_protocol() {
    let r = parse_input(&lines(&["path=org/repo", "protocol=https"])).unwrap();
    assert_eq!(r.organization, "org");
    assert_eq!(r.name, "repo");
}

#[test]
fn strips_git_suffix_from_name() {
    let r = parse_input(&lines(&["path=org/repo.git", "protocol=https"])).unwrap();
    assert_eq!(r.organization, "org");
    assert_eq!(r.name, "repo");
}

#[test]
fn strips_git_suffix_only_once() {
    let r = parse_input(&lines(&["path=org/repo.git.git", "protocol=https"])).unwrap();
    assert_eq!(r.name, "repo.git");
}

#[test]
fn rejects_non_https_protocol() {
    let r = parse_input(&lines(&["path=org/repo", "protocol=ssh"]));
    assert_eq!(r.unwrap_err(), ParseError::UnsupportedProtocol);
}

#[test]
fn rejects_missing_protocol() {
    let r = parse_input(&lines(&["path=org/repo", ""]));
    assert_eq!(r.unwrap_err(), ParseError::UnsupportedProtocol);
}

#[test]
fn rejects_path_without_slash() {
    let r = parse_input(&lines(&["path=repo", "protocol=https"]));
    assert_eq!(r.unwrap_err(), ParseError::InvalidRepoPath);
}

#[test]
fn rejects_missing_path() {
    let r = parse_input(&lines(&["protocol=https", ""]));
    assert_eq!(r.unwrap_err(), ParseError::MissingRepoPath);
}

#[test]
fn rejects_empty_path_value() {
    let r = parse_input(&lines(&["path=", "protocol=https"]));
    assert_eq!(r.unwrap_err(), ParseError::MissingRepoPath);
}

#[test]
fn rejects_line_without_equals() {
    let r = parse_input(&lines(&["path org/repo"]));
    assert_eq!(r.unwrap_err(), ParseError::MalformedInput);
}

#[test]
fn ignores_unknown_attributes() {
    let r = parse_input(&lines(&[
        "username=someone",
        "host=example.com",
        "path=org/repo",
        "protocol=https",
    ]))
    .unwrap();
    assert_eq!(r.organization, "org");
    assert_eq!(r.name, "repo");
}

#[test]
fn stops_reading_once_complete() {
    // Both attributes are seen after two lines; the malformed third line is
    // never reached.
    let r = parse_input(&lines(&["protocol=https", "path=org/repo", "no equals sign here"]))
        .unwrap();
    assert_eq!(r.organization, "org");
    assert_eq!(r.name, "repo");
}

#[test]
fn stops_reading_at_blank_line() {
    // The blank line ends the request before the protocol is seen.
    let r = parse_input(&lines(&["", "path=org/repo", "protocol=https"]));
    assert_eq!(r.unwrap_err(), ParseError::UnsupportedProtocol);
}

#[test]
fn repeated_attribute_accumulates() {
    let r = parse_input(&lines(&["path=or", "path=g/repo", "protocol=https"])).unwrap();
    assert_eq!(r.organization, "org");
    assert_eq!(r.name, "repo");
}

#[test]
fn splits_at_first_slash() {
    let r = parse_input(&lines(&["path=org/sub/repo", "protocol=https"])).unwrap();
    assert_eq!(r.organization, "org");
    assert_eq!(r.name, "sub/repo");
}

#[test]
fn splits_at_first_equals() {
    let r = parse_input(&lines(&["path=org/re=po", "protocol=https"])).unwrap();
    assert_eq!(r.organization, "org");
    assert_eq!(r.name, "re=po");
}

#[test]
fn empty_input_is_missing_protocol() {
    let r = parse_input(&Vec::new());
    assert_eq!(r.unwrap_err(), ParseError::UnsupportedProtocol);
}

#[test]
fn request_complete_when_both_attributes_seen() {
    assert!(request_complete(&lines(&["path=org/repo", "protocol=https"])));
}

#[test]
fn request_complete_at_blank_line() {
    assert!(request_complete(&lines(&["protocol=https", ""])));
}

#[test]
fn request_complete_on_malformed_line() {
    assert!(request_complete(&lines(&["garbage"])));
}

#[test]
fn request_incomplete_without_stop() {
    assert!(!request_complete(&lines(&["protocol=https"])));
    assert!(!request_complete(&Vec::new()));
}
