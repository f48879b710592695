use run_cli::workbench::config::Cmd::{CmdString, CmdVec};
use run_cli::workbench::config::{CmdError, Config, Mode};

#[test]
fn test_cmd_vec() {
    let tests = [
        (vec!["ls"], ("ls", vec![])),
        (vec!["ls", "-la"], ("ls", vec!["-la"])),
    ];

    for test in &tests {
        let cmd = CmdVec(test.0.iter().map(|s| s.to_string()).collect());
        let expected: (String, Vec<String>) = (
            (test.1).0.to_string(),
            (test.1).1.iter().map(|s| s.to_string()).collect(),
        );
        let out = cmd
            .parse()
            .expect("implementation error: should not fail in these tests");
        assert_eq!(out, expected);
    }
}

#[test]
fn test_cmd_string_parsing_ok() {
    let tests = [
        ("ls", ("ls", vec![])),
        ("ls -la", ("ls", vec!["-la"])),
        ("ls -la -- what?", ("ls", vec!["-la", "--", "what?"])),
        (" ls  -la ", ("ls", vec!["-la"])),
    ];

    for test in &tests {
        let cmd = CmdString(test.0.to_string());
        let expected: (String, Vec<String>) = (
            (test.1).0.to_string(),
            (test.1).1.iter().map(|s| s.to_string()).collect(),
        );
        let out = cmd
            .parse()
            .expect("implementation error: should not fail in these tests");
        assert_eq!(out, expected);
    }
}

#[test]
fn cmd_string_with_open_quote_is_rejected() {
    let cmd = CmdString("echo 'unterminated".to_string());
    assert_eq!(cmd.parse(), Err(CmdError::Unbalanced));
}

#[test]
fn cmd_without_words_is_rejected() {
    assert_eq!(CmdVec(vec![]).parse(), Err(CmdError::Empty));
    assert_eq!(CmdString("   ".to_string()).parse(), Err(CmdError::Empty));
}

#[test]
fn cmd_string_quotes_group_words() {
    let cmd = CmdString("echo 'a b' c".to_string());
    let (program, args) = cmd.parse().unwrap();
    assert_eq!(program, "echo");
    assert_eq!(args, vec!["a b".to_string(), "c".to_string()]);
}

#[test]
fn workbench_defaults() {
    let config = Config::default();
    assert_eq!(config.mode, Mode::Sequential);
    assert_eq!(config.tmux.program, "tmux");
    assert_eq!(config.tmux.session_prefix, "workbench-");
    assert_eq!(config.tmux.socket_path, "/tmp/tmux.workbench.sock");
    assert!(config.runs.is_empty());
}
