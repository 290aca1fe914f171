use chirp::registry::{
    build_plan, namespaces, parse_locator, validate_cron, BackendKind, ConfigError, Launch,
    ResolvedJob, ResolvedSource, Source, Task,
};

fn command_task(steps: Vec<(&str, &str)>, docker: Option<&str>) -> Task {
    Task::Command {
        steps: steps
            .into_iter()
            .map(|(n, c)| (n.to_string(), c.to_string()))
            .collect(),
        docker: docker.map(|s| s.to_string()),
    }
}

#[test]
fn locator_schemes_select_backend_kinds() {
    assert!(matches!(parse_locator(&None), Ok(BackendKind::InProcess)));
    assert!(matches!(
        parse_locator(&Some("default".to_string())),
        Ok(BackendKind::InProcess)
    ));
    assert!(matches!(
        parse_locator(&Some("redis://localhost:6379".to_string())),
        Ok(BackendKind::Redis)
    ));
    assert!(matches!(
        parse_locator(&Some("mysql://db/jobs".to_string())),
        Ok(BackendKind::Mysql)
    ));
    assert!(matches!(
        parse_locator(&Some("postgresql://db/jobs".to_string())),
        Ok(BackendKind::Postgres)
    ));
    assert!(matches!(
        parse_locator(&Some("sqlite://file.db".to_string())),
        Ok(BackendKind::Sqlite)
    ));
}

#[test]
fn unknown_scheme_is_rejected() {
    match parse_locator(&Some("ftp://elsewhere".to_string())) {
        Err(ConfigError::UnknownScheme { locator }) => assert_eq!(locator, "ftp://elsewhere"),
        other => panic!("expected an unknown-scheme rejection, got {:?}", other),
    }
}

#[test]
fn cron_expressions_validate() {
    assert!(validate_cron(&"* * * * * *".to_string()));
    assert!(validate_cron(&"0 0 * * * *".to_string()));
    assert!(!validate_cron(&"not a schedule".to_string()));
    assert!(!validate_cron(&"".to_string()));
}

#[test]
fn build_plan_resolves_sources_in_order() {
    let jobs = vec![
        (
            "ping".to_string(),
            Launch {
                source: Source::Cron("* * * * * *".to_string()),
                task: command_task(vec![("echo", "echo hello")], None),
            },
        ),
        (
            "orders".to_string(),
            Launch {
                source: Source::Http {
                    backend: Some("redis://localhost".to_string()),
                },
                task: command_task(vec![("work", "true")], None),
            },
        ),
        (
            "local".to_string(),
            Launch {
                source: Source::Http { backend: None },
                task: command_task(vec![("work", "true")], Some("alpine")),
            },
        ),
    ];
    let plan: Vec<ResolvedJob> = build_plan(jobs).expect("a valid configuration must plan");
    assert_eq!(plan.len(), 3);
    assert_eq!(plan[0].namespace, "ping");
    assert!(matches!(&plan[0].source, ResolvedSource::Tick { schedule } if schedule == "* * * * * *"));
    assert_eq!(plan[1].namespace, "orders");
    assert!(matches!(
        &plan[1].source,
        ResolvedSource::Store {
            kind: BackendKind::Redis,
            locator: Some(l)
        } if l == "redis://localhost"
    ));
    assert_eq!(plan[2].namespace, "local");
    assert!(matches!(
        &plan[2].source,
        ResolvedSource::Store {
            kind: BackendKind::InProcess,
            locator: None
        }
    ));
}

#[test]
fn duplicate_job_names_are_fatal() {
    let jobs = vec![
        (
            "same".to_string(),
            Launch {
                source: Source::Http { backend: None },
                task: command_task(vec![("a", "true")], None),
            },
        ),
        (
            "same".to_string(),
            Launch {
                source: Source::Http { backend: None },
                task: command_task(vec![("b", "false")], None),
            },
        ),
    ];
    match build_plan(jobs) {
        Err(ConfigError::DuplicateNamespace { namespace }) => assert_eq!(namespace, "same"),
        other => panic!("expected a duplicate-namespace rejection, got {:?}", other),
    }
}

#[test]
fn invalid_cron_is_fatal() {
    let jobs = vec![(
        "bad".to_string(),
        Launch {
            source: Source::Cron("eleven o'clock".to_string()),
            task: command_task(vec![("a", "true")], None),
        },
    )];
    match build_plan(jobs) {
        Err(ConfigError::InvalidCron { schedule }) => assert_eq!(schedule, "eleven o'clock"),
        other => panic!("expected an invalid-cron rejection, got {:?}", other),
    }
}

#[test]
fn unresolvable_locator_is_fatal() {
    let jobs = vec![(
        "odd".to_string(),
        Launch {
            source: Source::Http {
                backend: Some("carrier-pigeon://loft".to_string()),
            },
            task: command_task(vec![("a", "true")], None),
        },
    )];
    assert!(matches!(
        build_plan(jobs),
        Err(ConfigError::UnknownScheme { .. })
    ));
}

#[test]
fn a_plan_exposes_its_namespaces_in_order() {
    let jobs = vec![
        (
            "alpha".to_string(),
            Launch {
                source: Source::Http { backend: None },
                task: command_task(vec![("a", "true")], None),
            },
        ),
        (
            "beta".to_string(),
            Launch {
                source: Source::Cron("* * * * * *".to_string()),
                task: command_task(vec![("b", "true")], None),
            },
        ),
    ];
    let plan = build_plan(jobs).unwrap();
    assert_eq!(
        namespaces(&plan),
        vec!["alpha".to_string(), "beta".to_string()]
    );
}
