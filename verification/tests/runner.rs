use chirp::runner::{
    prepare_command, run_sequence, tokenize_command, CommandError, RunStatus, StepEvent,
    StepFailure, StepRunner,
};

#[test]
fn commands_tokenize_by_shell_word_rules() {
    let argv = tokenize_command(&"echo hello".to_string()).expect("plain words split");
    assert_eq!(argv, vec!["echo".to_string(), "hello".to_string()]);

    let argv = tokenize_command(&"sh -c \"echo one two\"".to_string()).expect("quotes group");
    assert_eq!(
        argv,
        vec!["sh".to_string(), "-c".to_string(), "echo one two".to_string()]
    );
}

#[test]
fn malformed_and_empty_commands_are_rejected() {
    assert!(matches!(
        tokenize_command(&"echo \"unclosed".to_string()),
        Err(CommandError::Tokenize { .. })
    ));
    match tokenize_command(&"".to_string()) {
        Err(CommandError::Empty { command }) => assert_eq!(command, ""),
        other => panic!("expected an empty-command rejection, got {:?}", other),
    }
}

#[test]
fn prepare_command_splits_program_from_arguments() {
    let (prog, args) = prepare_command(&"echo hello world".to_string()).expect("splits");
    assert_eq!(prog, "echo");
    assert_eq!(args, vec!["hello".to_string(), "world".to_string()]);
}

fn named_steps(names: &[&str]) -> Vec<(String, String)> {
    names
        .iter()
        .map(|n| (n.to_string(), format!("echo {}", n)))
        .collect()
}

#[test]
fn steps_run_in_declared_order_to_success() {
    let mut run = StepRunner::new(named_steps(&["a", "b", "c"]));
    let mut seen = Vec::new();
    while let Some(step) = run.current_step() {
        seen.push(step.0.clone());
        run.record(StepEvent::Exited(0));
    }
    assert_eq!(seen, vec!["a", "b", "c"]);
    assert!(matches!(run.status, RunStatus::Succeeded));
}

#[test]
fn a_failing_step_stops_the_run_before_later_steps() {
    let mut run = StepRunner::new(named_steps(&["a", "b", "c"]));
    assert_eq!(run.current_step().unwrap().0, "a");
    run.record(StepEvent::Exited(0));
    assert_eq!(run.current_step().unwrap().0, "b");
    run.record(StepEvent::Exited(2));
    // c must never execute once b has failed.
    assert!(run.current_step().is_none());
    assert!(matches!(
        run.status,
        RunStatus::Failed {
            at: 1,
            failure: StepFailure::NonZeroExit(2)
        }
    ));
}

#[test]
fn a_spawn_failure_stops_the_run() {
    let mut run = StepRunner::new(named_steps(&["a", "b"]));
    run.record(StepEvent::SpawnFailed);
    assert!(run.current_step().is_none());
    assert!(matches!(
        run.status,
        RunStatus::Failed {
            at: 0,
            failure: StepFailure::Spawn
        }
    ));
}

#[test]
fn a_run_with_no_steps_has_already_succeeded() {
    let run = StepRunner::new(Vec::new());
    assert!(matches!(run.status, RunStatus::Succeeded));
    assert!(run.current_step().is_none());
}

#[test]
fn a_whole_run_consumes_outcomes_in_step_order() {
    let all_good = vec![
        StepEvent::Exited(0),
        StepEvent::Exited(0),
        StepEvent::Exited(0),
    ];
    let run = run_sequence(named_steps(&["a", "b", "c"]), &all_good);
    assert!(matches!(run.status, RunStatus::Succeeded));
    assert_eq!(run.pos, 3);

    let middle_fails = vec![
        StepEvent::Exited(0),
        StepEvent::Exited(9),
        StepEvent::Exited(0),
    ];
    let run = run_sequence(named_steps(&["a", "b", "c"]), &middle_fails);
    // only the first two outcomes were consumed: c never executed
    assert!(matches!(
        run.status,
        RunStatus::Failed {
            at: 1,
            failure: StepFailure::NonZeroExit(9)
        }
    ));
    assert_eq!(run.pos, 1);
}
