use pty_sessions::command::split_command;

#[test]
fn split_two_tokens() {
    let toks = split_command(&"echo ready".to_string());
    assert_eq!(toks, vec!["echo".to_string(), "ready".to_string()]);
}

#[test]
fn split_collapses_runs_of_whitespace() {
    let toks = split_command(&"  ls \t -la   /tmp \n".to_string());
    assert_eq!(toks, vec!["ls".to_string(), "-la".to_string(), "/tmp".to_string()]);
}

#[test]
fn split_single_token() {
    let toks = split_command(&"sh".to_string());
    assert_eq!(toks, vec!["sh".to_string()]);
}

#[test]
fn split_empty_string_yields_no_tokens() {
    let toks = split_command(&"".to_string());
    assert!(toks.is_empty());
}

#[test]
fn split_whitespace_only_yields_no_tokens() {
    let toks = split_command(&" \t\n  ".to_string());
    assert!(toks.is_empty());
}

#[test]
fn split_does_not_honor_quoting() {
    let toks = split_command(&"echo \"a b\"".to_string());
    assert_eq!(
        toks,
        vec!["echo".to_string(), "\"a".to_string(), "b\"".to_string()]
    );
}
