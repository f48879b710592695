use run_cli::cli::Cli;
use run_cli::config::{resolve_bool, Command, Config, ConfigError, Mode};
use run_cli::paths::{join_path, path_is_absolute};
use run_cli::runner::{RunnerMode, RunnerOpenai, RunnerOptions, RunnerPrefix};

fn run(words: &[&str]) -> Command {
    Command { command_cmd: words.iter().map(|w| w.to_string()).collect(), ..Default::default() }
}

fn resolve(config: Config) -> Result<RunnerOptions, ConfigError> {
    RunnerOptions::from_config(config, "/home/me".to_string(), "/tmp".to_string())
}

#[test]
fn flags_resolve_with_defaults() {
    assert!(resolve_bool(None, true));
    assert!(!resolve_bool(None, false));
    assert!(resolve_bool(Some(None), false));
    assert!(!resolve_bool(Some(Some(false)), true));
    assert!(resolve_bool(Some(Some(true)), false));
}

#[test]
fn paths_join_like_a_filesystem() {
    assert!(path_is_absolute("/a"));
    assert!(!path_is_absolute("a"));
    assert!(!path_is_absolute(""));
    assert_eq!(join_path("/a", "b"), "/a/b");
    assert_eq!(join_path("/a/", "b"), "/a/b");
    assert_eq!(join_path("/a", "/c"), "/c");
}

#[test]
fn defaults_are_applied() {
    let config = Config { runs: vec![run(&["ls", "-la"])], ..Default::default() };
    let o = resolve(config).unwrap();
    assert_eq!(o.commands.len(), 1);
    let c = &o.commands[0];
    assert_eq!(c.program, "ls");
    assert_eq!(c.args, vec!["-la".to_string()]);
    assert_eq!(c.name, "ls");
    assert_eq!(c.workdir, "/home/me");
    assert_eq!(o.mode, RunnerMode::Sequential);
    assert_eq!(o.prefix, RunnerPrefix::Enabled);
    assert_eq!(o.openai, RunnerOpenai::Disabled);
    assert!(o.log.terminations);
    assert!(!o.log.spawns);
    assert!(o.tags.is_empty());
    assert!(o.tmux.kill_duplicate_session);
    assert_eq!(o.tmux.program, "tmux");
    assert_eq!(o.tmux.session_prefix, "run-cli-");
    assert_eq!(o.tmux.socket_path, "/tmp/tmux.run_cli.sock");
}

#[test]
fn settings_override_defaults() {
    let mut config = Config {
        runs: vec![Command {
            command_cmd: vec!["make".to_string()],
            command_envs: vec!["B=2".to_string()],
            command_name: Some("build".to_string()),
            command_tags: vec!["ci".to_string()],
            command_workdir: Some("sub".to_string()),
            ..Default::default()
        }],
        envs: vec!["A=1=x".to_string()],
        mode: Some(Mode::Parallel),
        tags: Some(vec!["ci".to_string()]),
        workdir: Some("/srv".to_string()),
        ..Default::default()
    };
    config.openai.openai_enabled = Some(None);
    config.openai.openai_api_key = Some("secret".to_string());
    config.log.log_enabled = Some(Some(false));
    config.tmux.tmux_socket_path = Some("/run/s.sock".to_string());
    let o = resolve(config).unwrap();
    let c = &o.commands[0];
    assert_eq!(c.name, "build");
    assert_eq!(c.workdir, "/srv/sub");
    assert_eq!(
        c.envs,
        vec![("A".to_string(), "1=x".to_string()), ("B".to_string(), "2".to_string())]
    );
    assert_eq!(c.tags, vec!["ci".to_string()]);
    assert_eq!(o.mode, RunnerMode::Parallel);
    assert_eq!(
        o.openai,
        RunnerOpenai::Enabled {
            api_key: "secret".to_string(),
            api_base_url: "https://api.openai.com".to_string()
        }
    );
    assert!(!o.log.terminations);
    assert_eq!(o.tags, vec!["ci".to_string()]);
    assert_eq!(o.tmux.socket_path, "/run/s.sock");
}

#[test]
fn raw_output_disables_processors() {
    let mut config = Config { runs: vec![run(&["ls"])], raw: Some(None), ..Default::default() };
    config.openai.openai_enabled = Some(Some(true));
    config.openai.openai_api_key = Some("k".to_string());
    let o = resolve(config).unwrap();
    assert_eq!(o.prefix, RunnerPrefix::Disabled);
    assert_eq!(o.openai, RunnerOpenai::Disabled);
}

#[test]
fn relative_workdir_is_rejected() {
    let config = Config { runs: vec![run(&["ls"])], workdir: Some("rel".to_string()), ..Default::default() };
    assert_eq!(resolve(config), Err(ConfigError::RelativeWorkdir));
}

#[test]
fn no_commands_is_rejected() {
    assert_eq!(resolve(Config::default()), Err(ConfigError::NoCommands));
}

#[test]
fn command_without_program_is_rejected() {
    let config = Config { runs: vec![run(&["ls"]), run(&[])], ..Default::default() };
    assert_eq!(resolve(config), Err(ConfigError::NoProgram));
}

#[test]
fn environment_entry_without_equals_is_rejected() {
    let config = Config {
        runs: vec![Command { command_cmd: vec!["ls".to_string()], command_envs: vec!["NOPE".to_string()], ..Default::default() }],
        ..Default::default()
    };
    assert_eq!(resolve(config), Err(ConfigError::InvalidEnv("NOPE".to_string())));
}

#[test]
fn command_lines_are_split_into_words() {
    let mut config = Config::default();
    let lines = vec!["echo 'a b'".to_string(), "ls -la".to_string()];
    assert_eq!(config.append_command_lines(&lines), Ok(()));
    assert_eq!(config.runs.len(), 2);
    assert_eq!(config.runs[0].command_cmd, vec!["echo".to_string(), "a b".to_string()]);
    assert_eq!(config.runs[1], run(&["ls", "-la"]));
}

#[test]
fn command_line_with_open_quote_is_rejected() {
    let mut config = Config::default();
    let lines = vec!["ls".to_string(), "echo \"oops".to_string()];
    assert_eq!(
        config.append_command_lines(&lines),
        Err(ConfigError::UnbalancedQuote("echo \"oops".to_string()))
    );
}

#[test]
fn config_file_choice() {
    let mut cli = Cli::default();
    assert_eq!(cli.config_file(), Some("run.toml".to_string()));
    cli.commands.push("ls".to_string());
    assert_eq!(cli.config_file(), None);
    cli.file = Some("dev.toml".to_string());
    assert_eq!(cli.config_file(), Some("dev.toml".to_string()));
}
