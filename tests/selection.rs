use run_cli::runner::{
    Runner, RunnerCommand, RunnerLog, RunnerMode, RunnerOpenai, RunnerOptions, RunnerPrefix,
    RunnerTmux,
};

fn command(name: &str, tags: &[&str]) -> RunnerCommand {
    RunnerCommand {
        program: "echo".to_string(),
        args: vec![name.to_string()],
        description: None,
        envs: vec![],
        name: name.to_string(),
        tags: tags.iter().map(|t| t.to_string()).collect(),
        workdir: "/".to_string(),
    }
}

fn options(commands: Vec<RunnerCommand>, tags: &[&str]) -> RunnerOptions {
    RunnerOptions {
        commands,
        log: RunnerLog { spawns: false, terminations: true },
        mode: RunnerMode::Sequential,
        openai: RunnerOpenai::Disabled,
        prefix: RunnerPrefix::Enabled,
        tags: tags.iter().map(|t| t.to_string()).collect(),
        tmux: RunnerTmux {
            kill_duplicate_session: true,
            program: "tmux".to_string(),
            session_prefix: "run-cli-".to_string(),
            socket_path: "/tmp/tmux.run_cli.sock".to_string(),
        },
    }
}

fn names(runner: &Runner) -> Vec<String> {
    runner.commands.iter().map(|c| c.name.clone()).collect()
}

#[test]
fn selection_orders_by_filter_priority() {
    let cmds = vec![command("a", &["x"]), command("b", &["y"]), command("c", &["x", "y"])];
    let runner = Runner::new(options(cmds, &["y", "x"]));
    assert_eq!(names(&runner), vec!["b", "c", "a"]);
}

#[test]
fn selection_drops_commands_without_matching_tag() {
    let cmds = vec![
        command("a", &["x"]),
        command("untagged", &[]),
        command("other", &["z"]),
        command("b", &["y"]),
    ];
    let runner = Runner::new(options(cmds, &["y", "x"]));
    assert_eq!(names(&runner), vec!["b", "a"]);
}

#[test]
fn selection_without_filter_keeps_everything_in_order() {
    let cmds = vec![command("c", &["z"]), command("a", &[]), command("b", &["x"])];
    let runner = Runner::new(options(cmds.clone(), &[]));
    assert_eq!(runner.commands, cmds);
}

#[test]
fn selection_keeps_input_order_among_ties() {
    let cmds = vec![
        command("one", &["x"]),
        command("two", &["w", "x"]),
        command("three", &["x"]),
    ];
    let runner = Runner::new(options(cmds, &["x"]));
    assert_eq!(names(&runner), vec!["one", "two", "three"]);
}

#[test]
fn selection_uses_the_best_tag_of_each_command() {
    let cmds = vec![command("late", &["c"]), command("mixed", &["c", "a"]), command("mid", &["b"])];
    let runner = Runner::new(options(cmds, &["a", "b", "c"]));
    assert_eq!(names(&runner), vec!["mixed", "mid", "late"]);
}

#[test]
fn selection_with_repeated_filter_tag_uses_first_position() {
    let cmds = vec![command("x1", &["x"]), command("y1", &["y"])];
    let runner = Runner::new(options(cmds, &["y", "x", "y"]));
    assert_eq!(names(&runner), vec!["y1", "x1"]);
}

#[test]
fn runner_keeps_modes_and_settings() {
    let mut opts = options(vec![command("a", &[])], &[]);
    opts.mode = RunnerMode::Parallel;
    let runner = Runner::new(opts);
    assert_eq!(runner.mode, RunnerMode::Parallel);
    assert_eq!(runner.prefix, RunnerPrefix::Enabled);
    assert_eq!(runner.openai, RunnerOpenai::Disabled);
    assert_eq!(runner.tmux.program, "tmux");
}
