//! End-to-end scenario at the model level: one cron-triggered host-mode job
//! runs its single step, its output reaches the live stream, and a
//! completion event follows.

use chirp::broadcaster::Broadcaster;
use chirp::registry::{build_plan, Launch, ResolvedSource, Source, Task};
use chirp::runner::{prepare_command, RunStatus, StepEvent, StepRunner};

#[test]
fn one_cron_tick_streams_the_step_output_then_a_completion_event() {
    // configure one job {name: "ping", source: cron, steps: {echo: echo hello}}
    let jobs = vec![(
        "ping".to_string(),
        Launch {
            source: Source::Cron("* * * * * *".to_string()),
            task: Task::Command {
                steps: vec![("echo".to_string(), "echo hello".to_string())],
                docker: None,
            },
        },
    )];
    let plan = build_plan(jobs).expect("the configuration is valid");
    assert!(matches!(&plan[0].source, ResolvedSource::Tick { .. }));

    let Task::Command { steps, docker } = &plan[0].task;
    assert!(docker.is_none());

    let mut stream = Broadcaster::new();
    let subscriber = stream.new_client();

    // one tick arrives: run the job's steps in host mode
    let mut run = StepRunner::new(steps.clone());
    while let Some(step) = run.current_step() {
        let (prog, args) = prepare_command(&step.1).expect("the step tokenizes");
        assert_eq!(prog, "echo");
        assert_eq!(args, vec!["hello".to_string()]);
        // the spawned process prints one line, forwarded to the stream
        stream.send("hello");
        run.record(StepEvent::Exited(0));
    }
    assert!(matches!(run.status, RunStatus::Succeeded));
    stream.send("Job done");

    let events = stream.take_events(subscriber);
    assert_eq!(
        events,
        vec![
            "data: connected\n\n".to_string(),
            "data: hello\n\n".to_string(),
            "data: Job done\n\n".to_string(),
        ]
    );
}
