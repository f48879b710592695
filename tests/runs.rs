use run_cli::error::RunError;
use run_cli::runner::{outcome_result, ParallelRun, RunStep, SequentialRun};

#[test]
fn sequential_run_stops_at_the_first_failure() {
    let names = ["echo a", "exit 2", "echo b"].map(|n| n.to_string());
    let mut run = SequentialRun::new(3);
    let mut executed = vec![];
    let outcomes = [Ok(Some(0)), Ok(Some(2)), Ok(Some(0))];
    while let RunStep::Exec(i) = run.step() {
        executed.push(i);
        run.record(&names[i], outcomes[i].clone());
    }
    assert_eq!(executed, vec![0, 1]);
    assert_eq!(
        run.into_result(),
        Err(RunError::Exit { name: "exit 2".to_string(), code: Some(2) })
    );
}

#[test]
fn sequential_run_of_successes_runs_everything_in_order() {
    let mut run = SequentialRun::new(3);
    let mut executed = vec![];
    while let RunStep::Exec(i) = run.step() {
        executed.push(i);
        run.record(&"ok".to_string(), Ok(Some(0)));
    }
    assert_eq!(executed, vec![0, 1, 2]);
    assert_eq!(run.into_result(), Ok(()));
}

#[test]
fn sequential_run_stops_on_a_spawn_error() {
    let mut run = SequentialRun::new(2);
    assert_eq!(run.step(), RunStep::Exec(0));
    let err = RunError::Spawn {
        program: "nope".to_string(),
        workdir: "/".to_string(),
        reason: "not found".to_string(),
    };
    run.record(&"nope".to_string(), Err(err.clone()));
    assert_eq!(run.step(), RunStep::Done);
    assert_eq!(run.into_result(), Err(err));
}

#[test]
fn empty_sequential_run_succeeds() {
    let run = SequentialRun::new(0);
    assert_eq!(run.step(), RunStep::Done);
    assert_eq!(run.into_result(), Ok(()));
}

#[test]
fn parallel_run_waits_for_all_and_keeps_the_first_failure() {
    let mut run = ParallelRun::new(3);
    run.record(&"a".to_string(), Ok(Some(0)));
    assert!(!run.is_done());
    run.record(&"b".to_string(), Ok(None));
    run.record(&"c".to_string(), Ok(Some(1)));
    assert!(run.is_done());
    assert_eq!(run.into_result(), Err(RunError::Exit { name: "b".to_string(), code: None }));
}

#[test]
fn parallel_run_of_successes_succeeds() {
    let mut run = ParallelRun::new(2);
    run.record(&"a".to_string(), Ok(Some(0)));
    run.record(&"b".to_string(), Ok(Some(0)));
    assert!(run.is_done());
    assert_eq!(run.into_result(), Ok(()));
}

#[test]
fn only_exit_code_zero_is_success() {
    let n = "cmd".to_string();
    assert_eq!(outcome_result(&n, Ok(Some(0))), Ok(()));
    assert_eq!(
        outcome_result(&n, Ok(Some(1))),
        Err(RunError::Exit { name: n.clone(), code: Some(1) })
    );
    let e = RunError::Stream { program: "p".to_string(), reason: "bad utf-8".to_string() };
    assert_eq!(outcome_result(&n, Err(e.clone())), Err(e));
}

#[test]
fn error_messages_name_their_context() {
    let e = RunError::Spawn {
        program: "prog".to_string(),
        workdir: "/w".to_string(),
        reason: "gone".to_string(),
    };
    assert_eq!(e.message(), "could not spawn prog in /w: gone");
    let t = RunError::TmuxProtocol { subcommand: "split-window".to_string() };
    assert_eq!(t.message(), "tmux command failed: split-window");
    assert_eq!(RunError::NoAdvice.message(), "no choice returned by the advice service");
    let p = RunError::Processor { program: "p".to_string(), reason: "timeout".to_string() };
    assert_eq!(p.message(), "a processor failed on the output of p: timeout");
    let x = RunError::Exit { name: "n".to_string(), code: Some(3) };
    assert_eq!(x.message(), "command exited unsuccessfully: n");
}
