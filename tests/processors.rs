use run_cli::error::RunError;
use run_cli::executor::{apply_chain, Executor, Processor};
use run_cli::pipeline::{Choice, Message, OpenaiResponse, Pipeline};
use run_cli::processors::openai::{advice_block, advice_text, frame_lines, Openai};
use run_cli::processors::prefix::Prefix;
use run_cli::runner::{
    Runner, RunnerCommand, RunnerLog, RunnerMode, RunnerOpenai, RunnerOptions, RunnerPrefix,
    RunnerTmux,
};
use run_cli::text::join_lines;

fn runner(prefix: RunnerPrefix, openai: RunnerOpenai) -> Runner {
    Runner::new(RunnerOptions {
        commands: vec![],
        log: RunnerLog { spawns: false, terminations: true },
        mode: RunnerMode::Sequential,
        openai,
        prefix,
        tags: vec![],
        tmux: RunnerTmux {
            kill_duplicate_session: false,
            program: "tmux".to_string(),
            session_prefix: "run-cli-".to_string(),
            socket_path: "/tmp/s.sock".to_string(),
        },
    })
}

fn command(name: &str) -> RunnerCommand {
    RunnerCommand {
        program: "echo".to_string(),
        args: vec![],
        description: None,
        envs: vec![],
        name: name.to_string(),
        tags: vec![],
        workdir: "/".to_string(),
    }
}

#[test]
fn prefix_lines_keep_order_and_content() {
    let mut executor = Executor::new();
    executor.push_out(Processor::Prefix(Prefix::new("[x]".to_string())));
    let out: Vec<String> = ["l1", "l2"]
        .iter()
        .map(|l| executor.process_out(l.to_string()))
        .collect();
    assert_eq!(out, vec!["[x] l1".to_string(), "[x] l2".to_string()]);
}

#[test]
fn empty_chains_leave_streams_inherited() {
    let executor = Executor::new();
    assert!(!executor.captures_out());
    assert!(!executor.captures_err());
    let mut only_err = Executor::new();
    only_err.push_err(Processor::Prefix(Prefix::new("[e]".to_string())));
    assert!(!only_err.captures_out());
    assert!(only_err.captures_err());
}

#[test]
fn empty_chain_passes_lines_unchanged() {
    let mut chain: Vec<Processor> = vec![];
    assert_eq!(apply_chain(&mut chain, "hello".to_string()), "hello");
}

#[test]
fn chain_applies_processors_in_declared_order() {
    let mut chain = vec![
        Processor::Openai(Openai::new("http://h".to_string(), "k".to_string())),
        Processor::Prefix(Prefix::new("[a]".to_string())),
        Processor::Prefix(Prefix::new("[b]".to_string())),
    ];
    assert_eq!(apply_chain(&mut chain, "line".to_string()), "[b] [a] line");
    match &chain[0] {
        Processor::Openai(o) => assert_eq!(o.lines, vec!["line".to_string()]),
        _ => panic!("the advice processor moved"),
    }
}

#[test]
fn advice_processor_collects_lines_unchanged() {
    let mut o = Openai::new("https://example.test".to_string(), "key".to_string());
    assert_eq!(o.request(), None);
    assert_eq!(o.process("first".to_string()), "first");
    assert_eq!(o.process("second".to_string()), "second");
    let req = o.request().expect("lines were collected");
    assert_eq!(req.url, "https://example.test/v1/chat/completions");
    assert_eq!(req.api_key, "key");
    assert_eq!(req.model, "gpt-3.5-turbo");
    assert!(req.prompt.ends_with("\n\nfirst\nsecond"));
    assert!(req.prompt.starts_with("I am a developer working in a terminal."));
}

#[test]
fn prefix_processors_send_nothing_at_the_end() {
    let p = Processor::Prefix(Prefix::new("[x]".to_string()));
    assert_eq!(p.flush_request(), None);
    let empty = Processor::Openai(Openai::new("u".to_string(), "k".to_string()));
    assert_eq!(empty.flush_request(), None);
}

#[test]
fn join_lines_puts_newlines_between() {
    assert_eq!(join_lines(&vec![]), "");
    assert_eq!(join_lines(&vec!["a".to_string()]), "a");
    assert_eq!(join_lines(&vec!["a".to_string(), "b".to_string(), "".to_string()]), "a\nb\n");
}

#[test]
fn frame_pads_each_line_to_the_width() {
    let lines = frame_lines(&vec!["hi".to_string()]);
    assert_eq!(lines.len(), 7);
    assert_eq!(lines[0], "");
    assert_eq!(
        lines[1],
        "+=============================[ ChatGPT Feedback ]=============================+"
    );
    assert_eq!(lines[3], format!("| {:<76} |", "hi"));
    assert_eq!(lines[3].chars().count(), 80);
    assert_eq!(
        lines[5],
        "+==============================================================================+"
    );
    assert_eq!(lines[6], "");
}

#[test]
fn frame_keeps_overlong_lines_whole() {
    let long = "x".repeat(90);
    let lines = frame_lines(&vec![long.clone()]);
    assert_eq!(lines[3], format!("| {} |", long));
}

#[test]
fn advice_block_trims_and_wraps_the_reply() {
    let words = vec!["word"; 30].join(" ");
    let reply = format!("  {}  \n", words);
    let lines = advice_block(&reply);
    assert_eq!(lines.len(), 8);
    assert_eq!(lines[3], format!("| {:<76} |", vec!["word"; 15].join(" ")));
    assert_eq!(lines[4], format!("| {:<76} |", vec!["word"; 15].join(" ")));
}

#[test]
fn advice_text_takes_the_first_choice() {
    let mut resp = OpenaiResponse::default();
    assert_eq!(advice_text(&resp), Err(RunError::NoAdvice));
    resp.choices.push(Choice {
        message: Message { role: "assistant".to_string(), content: "do this".to_string() },
        finish_reason: "stop".to_string(),
        index: 0,
    });
    resp.choices.push(Choice::default());
    assert_eq!(advice_text(&resp), Ok("do this".to_string()));
}

#[test]
fn executor_chains_follow_the_settings() {
    let plain = runner(RunnerPrefix::Disabled, RunnerOpenai::Disabled).executor_for(&command("web"));
    assert!(plain.out_processors.is_empty());
    assert!(plain.err_processors.is_empty());

    let full = runner(
        RunnerPrefix::Enabled,
        RunnerOpenai::Enabled { api_key: "k".to_string(), api_base_url: "http://b".to_string() },
    )
    .executor_for(&command("web"));
    assert_eq!(full.out_processors, vec![Processor::Prefix(Prefix::new("[web]".to_string()))]);
    assert_eq!(
        full.err_processors,
        vec![
            Processor::Openai(Openai::new("http://b".to_string(), "k".to_string())),
            Processor::Prefix(Prefix::new("[web]".to_string())),
        ]
    );
}

#[test]
fn pipeline_chains() {
    let p = Pipeline::new("[p]".to_string(), None);
    assert_eq!(p.out_processors, vec![Processor::Prefix(Prefix::new("[p]".to_string()))]);
    assert_eq!(p.err_processors, vec![Processor::Prefix(Prefix::new("[p]".to_string()))]);
    let mut q = Pipeline::new("[p]".to_string(), Some("key".to_string()));
    assert_eq!(q.err_processors.len(), 2);
    assert_eq!(q.process_err("oops".to_string()), "[p] oops");
    assert_eq!(q.process_out("fine".to_string()), "[p] fine");
    match &q.err_processors[0] {
        Processor::Openai(o) => {
            assert_eq!(o.api_base_url, "https://api.openai.com");
            assert_eq!(o.lines, vec!["oops".to_string()]);
        }
        _ => panic!("the advice processor comes first"),
    }
}
