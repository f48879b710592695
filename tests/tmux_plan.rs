use run_cli::error::RunError;
use run_cli::runner::{
    Runner, RunnerCommand, RunnerLog, RunnerMode, RunnerOpenai, RunnerOptions, RunnerPrefix,
    RunnerTmux,
};
use run_cli::tmux::TmuxCall;

fn command(name: &str, program: &str, args: &[&str], workdir: &str) -> RunnerCommand {
    RunnerCommand {
        program: program.to_string(),
        args: args.iter().map(|a| a.to_string()).collect(),
        description: None,
        envs: vec![],
        name: name.to_string(),
        tags: vec![],
        workdir: workdir.to_string(),
    }
}

fn runner(commands: Vec<RunnerCommand>, kill: bool) -> Runner {
    Runner::new(RunnerOptions {
        commands,
        log: RunnerLog { spawns: false, terminations: true },
        mode: RunnerMode::Tmux,
        openai: RunnerOpenai::Disabled,
        prefix: RunnerPrefix::Disabled,
        tags: vec![],
        tmux: RunnerTmux {
            kill_duplicate_session: kill,
            program: "tmux".to_string(),
            session_prefix: "run-cli-".to_string(),
            socket_path: "/tmp/tmux.run_cli.sock".to_string(),
        },
    })
}

fn subcommands(plan: &[TmuxCall]) -> Vec<String> {
    plan.iter().map(|c| c.args[0].clone()).collect()
}

fn three() -> Runner {
    runner(
        vec![
            command("one", "echo", &["1"], "/a"),
            command("two", "echo", &["2"], "/b"),
            command("three", "echo", &["3"], "/c"),
        ],
        false,
    )
}

#[test]
fn tmux_pane_protocol_for_three_commands() {
    let r = three();
    let plan = r.tmux_plan(&"run-cli-x".to_string());
    let subs = subcommands(&plan);
    let count = |s: &str| subs.iter().filter(|x| x.as_str() == s).count();
    assert_eq!(count("new-session"), 1);
    assert_eq!(count("split-window"), 2);
    assert_eq!(count("select-pane"), 3);
    assert_eq!(count("select-layout"), 3);
    assert_eq!(
        &subs[0..9],
        &[
            "new-session",
            "select-pane",
            "select-layout",
            "split-window",
            "select-pane",
            "select-layout",
            "split-window",
            "select-pane",
            "select-layout"
        ]
    );
    assert_eq!(count("set-option"), 16);
    assert_eq!(subs.last().unwrap(), "attach-session");
    assert_eq!(plan.len(), 9 + 16 + 1);
    assert!(plan.iter().all(|c| c.required));
}

#[test]
fn tmux_pane_calls_carry_workdir_line_and_title() {
    let r = three();
    let plan = r.tmux_plan(&"s".to_string());
    assert_eq!(plan[0].args, ["new-session", "-s", "s", "-d", "-c", "/a", "echo 1; read"]);
    assert_eq!(plan[1].args, ["select-pane", "-t", "s", "-T", "one"]);
    assert_eq!(plan[2].args, ["select-layout", "-t", "s", "even-vertical"]);
    assert_eq!(plan[3].args, ["split-window", "-t", "s", "-v", "-c", "/b", "echo 2; read"]);
    assert_eq!(plan[9].args, ["set-option", "-t", "s", "-s", "mouse", "on"]);
    assert_eq!(plan[25].args, ["attach-session", "-t", "s"]);
}

#[test]
fn tmux_pane_line_quotes_arguments() {
    let r = runner(vec![command("q", "printf", &["a b", "it's"], "/")], false);
    let plan = r.tmux_plan(&"s".to_string());
    assert_eq!(plan[0].args[6], "printf 'a b' 'it'\\''s'; read");
}

#[test]
fn tmux_kill_of_stale_session_comes_first_and_may_fail() {
    let r = runner(vec![command("one", "true", &[], "/")], true);
    let plan = r.tmux_plan(&"s".to_string());
    assert_eq!(plan[0].args, ["kill-session", "-t", "s"]);
    assert!(!plan[0].required);
    assert_eq!(plan[0].check(false), Ok(()));
    assert!(plan[1..].iter().all(|c| c.required));
    assert_eq!(plan[1].args[0], "new-session");
}

#[test]
fn tmux_failed_required_call_names_its_subcommand() {
    let r = three();
    let plan = r.tmux_plan(&"s".to_string());
    assert_eq!(plan[3].check(true), Ok(()));
    assert_eq!(
        plan[3].check(false),
        Err(RunError::TmuxProtocol { subcommand: "split-window".to_string() })
    );
}

#[test]
fn tmux_calls_go_through_the_private_socket() {
    let r = three();
    let call = TmuxCall { args: vec!["attach-session".to_string()], required: true };
    assert_eq!(r.tmux_argv(&call), ["-S", "/tmp/tmux.run_cli.sock", "attach-session"]);
}

#[test]
fn tmux_session_name_is_prefix_and_run_id() {
    let r = three();
    assert_eq!(r.session_name(&"4242".to_string()), "run-cli-4242");
}
