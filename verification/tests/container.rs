use chirp::container::{
    run_to_completion, ContainerAction, ContainerEvent, ContainerRun, Phase, RunOutcome,
};
use chirp::runner::tokenize_command;

fn argvs_of(commands: &[&str]) -> Vec<Vec<String>> {
    commands
        .iter()
        .map(|c| tokenize_command(&c.to_string()).expect("test commands tokenize"))
        .collect()
}

/// Drive one run, answering every step exec with the scripted exit codes
/// (in order) and every other action with `setup`. Returns the number of
/// removal actions performed and the exec argument vectors seen, in order.
fn drive(
    run: &mut ContainerRun,
    setup: &mut dyn FnMut(&ContainerAction) -> ContainerEvent,
) -> (usize, Vec<Vec<String>>) {
    let mut removals = 0;
    let mut execs = Vec::new();
    loop {
        let ev = match run.current_action() {
            None => break,
            Some(action) => {
                match &action {
                    ContainerAction::RemoveContainer => removals += 1,
                    ContainerAction::ExecStep(argv) => execs.push((*argv).clone()),
                    _ => {}
                }
                setup(&action)
            }
        };
        run.observe(ev);
    }
    (removals, execs)
}

#[test]
fn all_steps_succeed_and_the_container_is_removed_once() {
    let mut run = ContainerRun::new("alpine".to_string(), argvs_of(&["echo one", "echo two"]));
    let (removals, execs) = drive(&mut run, &mut |a| match a {
        ContainerAction::ExecStep(_) => ContainerEvent::Exited(0),
        _ => ContainerEvent::Completed,
    });
    assert_eq!(run.outcome(), Some(RunOutcome::Success));
    assert_eq!(removals, 1);
    assert_eq!(execs.len(), 2);
    assert!(run.created && run.removed);
}

#[test]
fn a_failing_step_still_removes_the_container_exactly_once() {
    let mut run = ContainerRun::new(
        "alpine".to_string(),
        argvs_of(&["echo one", "false", "echo never"]),
    );
    let (removals, execs) = drive(&mut run, &mut |a| match a {
        ContainerAction::ExecStep(argv) => {
            if argv[0] == "false" {
                ContainerEvent::Exited(7)
            } else {
                ContainerEvent::Exited(0)
            }
        }
        _ => ContainerEvent::Completed,
    });
    assert_eq!(run.outcome(), Some(RunOutcome::StepFailed { step: 1, code: 7 }));
    assert_eq!(removals, 1);
    // the step after the failing one never ran
    assert_eq!(execs.len(), 2);
    assert!(run.created && run.removed);
}

#[test]
fn a_failed_image_pull_leaves_no_container_behind() {
    let mut run = ContainerRun::new("missing:image".to_string(), argvs_of(&["echo one"]));
    let (removals, execs) = drive(&mut run, &mut |a| match a {
        ContainerAction::PullImage(_) => ContainerEvent::Errored,
        ContainerAction::ExecStep(_) => ContainerEvent::Exited(0),
        _ => ContainerEvent::Completed,
    });
    assert_eq!(run.outcome(), Some(RunOutcome::PullFailed));
    // no container was ever created, so none exists and none was removed
    assert_eq!(removals, 0);
    assert_eq!(execs.len(), 0);
    assert!(!run.created && !run.removed);
}

#[test]
fn a_start_failure_still_tears_the_container_down() {
    let mut run = ContainerRun::new("alpine".to_string(), argvs_of(&["echo one"]));
    let (removals, _) = drive(&mut run, &mut |a| match a {
        ContainerAction::StartContainer => ContainerEvent::Errored,
        ContainerAction::ExecStep(_) => ContainerEvent::Exited(0),
        _ => ContainerEvent::Completed,
    });
    assert_eq!(run.outcome(), Some(RunOutcome::StartFailed));
    assert_eq!(removals, 1);
    assert!(run.created && run.removed);
}

#[test]
fn steps_exec_in_declared_order() {
    let mut run = ContainerRun::new("alpine".to_string(), argvs_of(&["echo a", "echo b"]));
    assert!(matches!(run.phase, Phase::Pulling));
    let (_, execs) = drive(&mut run, &mut |a| match a {
        ContainerAction::ExecStep(_) => ContainerEvent::Exited(0),
        _ => ContainerEvent::Completed,
    });
    assert_eq!(
        execs,
        vec![
            vec!["echo".to_string(), "a".to_string()],
            vec!["echo".to_string(), "b".to_string()]
        ]
    );
}

#[test]
fn a_whole_scripted_run_cleans_up_on_every_path() {
    // pull, create, start, two zero exits, removal
    let all_good = vec![
        ContainerEvent::Completed,
        ContainerEvent::Completed,
        ContainerEvent::Completed,
        ContainerEvent::Exited(0),
        ContainerEvent::Exited(0),
        ContainerEvent::Completed,
    ];
    let run = run_to_completion("alpine".to_string(), argvs_of(&["echo a", "echo b"]), &all_good);
    assert_eq!(run.outcome(), Some(RunOutcome::Success));
    assert!(run.created && run.removed);

    // the first step exits nonzero; the removal still happens
    let step_fails = vec![
        ContainerEvent::Completed,
        ContainerEvent::Completed,
        ContainerEvent::Completed,
        ContainerEvent::Exited(4),
        ContainerEvent::Completed,
    ];
    let run = run_to_completion("alpine".to_string(), argvs_of(&["false", "echo b"]), &step_fails);
    assert_eq!(run.outcome(), Some(RunOutcome::StepFailed { step: 0, code: 4 }));
    assert!(run.created && run.removed);

    // the pull fails; no container ever exists
    let pull_fails = vec![ContainerEvent::Errored];
    let run = run_to_completion("missing".to_string(), argvs_of(&["echo a"]), &pull_fails);
    assert_eq!(run.outcome(), Some(RunOutcome::PullFailed));
    assert!(!run.created && !run.removed);
}
