use kubes_cd_sidecar::classify::{
    classify, ContainerObservation, Phase, RawContainerState, RawTermination,
};
use kubes_cd_sidecar::engine::{evaluate_container, TickAction};
use kubes_cd_sidecar::errors::SidecarError;
use kubes_cd_sidecar::report::{aggregate_notification, build_step_report, conclusion_of};
use kubes_cd_sidecar::resolve::{EnvEntry, PodSpecContainer, Resolver, TableEntry};
use kubes_cd_sidecar::track::{is_sidecar_name, reportable_count, CompletionTracker};

const SIDECAR: &str = "kubes-cd-sidecar";

fn waiting(name: &str) -> ContainerObservation {
    ContainerObservation {
        name: name.to_string(),
        state: RawContainerState { running: false, terminated: None },
    }
}

fn running(name: &str) -> ContainerObservation {
    ContainerObservation {
        name: name.to_string(),
        state: RawContainerState { running: true, terminated: None },
    }
}

fn terminated(name: &str, exit_code: i32) -> ContainerObservation {
    ContainerObservation {
        name: name.to_string(),
        state: RawContainerState {
            running: false,
            terminated: Some(RawTermination {
                exit_code,
                started_at: Some("2020-05-01T10:00:00+00:00".to_string()),
                finished_at: Some("2020-05-01T10:05:00+00:00".to_string()),
            }),
        },
    }
}

fn spec_container(name: &str, check_run_id: Option<&str>) -> PodSpecContainer {
    PodSpecContainer {
        name: name.to_string(),
        env: check_run_id.map(|id| {
            vec![
                EnvEntry { name: "HOME".to_string(), value: Some("/root".to_string()) },
                EnvEntry { name: "CHECK_RUN_ID".to_string(), value: Some(id.to_string()) },
            ]
        }),
    }
}

/// Drives the poll-loop decisions over a sequence of ticks, the way the
/// process shell does, and returns the emitted step reports (name,
/// conclusion) and whether the aggregate notification fired.
fn drive(
    ticks: Vec<Vec<ContainerObservation>>,
    spec_containers: Vec<PodSpecContainer>,
    resolver: Resolver,
) -> Result<(Vec<(String, String)>, bool, usize), SidecarError> {
    let mut tracker = CompletionTracker::new();
    let mut emitted: Vec<(String, String)> = Vec::new();
    let mut ticks_used: usize = 0;
    for tick in ticks {
        ticks_used += 1;
        let count = reportable_count(&tick);
        for obs in tick {
            match evaluate_container(&tracker, &resolver, &spec_containers, obs)? {
                TickAction::Skip => {}
                TickAction::NotFinished => {}
                TickAction::Report(pending) => {
                    let report = build_step_report(
                        &pending,
                        "org/repo".to_string(),
                        "line one\nline two".to_string(),
                    );
                    emitted.push((pending.name.clone(), report.conclusion.clone()));
                    let success = pending.exit_code == 0;
                    if !tracker.is_reported(pending.name.as_str()) {
                        tracker.record(pending.name, success);
                    }
                }
            }
        }
        if tracker.is_finished(count) {
            let fired = aggregate_notification(
                &tracker,
                7,
                "org/repo".to_string(),
                "abc123".to_string(),
                Some("main".to_string()),
            )
            .is_some();
            return Ok((emitted, fired, ticks_used));
        }
    }
    panic!("pod never finished within the given ticks");
}

#[test]
fn scenario_build_succeeds_then_pod_finished() {
    // Pod has {sidecar, build}; build terminates at tick 2 with exit code 0.
    let ticks = vec![
        vec![running(SIDECAR), running("build")],
        vec![running(SIDECAR), terminated("build", 0)],
    ];
    let spec = vec![spec_container(SIDECAR, None), spec_container("build", Some("41"))];
    let (emitted, fired, ticks_used) = drive(ticks, spec, Resolver::EnvLookup).unwrap();
    assert_eq!(emitted, vec![("build".to_string(), "success".to_string())]);
    assert!(fired);
    assert_eq!(ticks_used, 2);
}

#[test]
fn scenario_one_step_fails_no_aggregate() {
    // Pod has {sidecar, build, test}; build exits 0, test exits 137.
    let ticks = vec![
        vec![running(SIDECAR), running("build"), waiting("test")],
        vec![running(SIDECAR), terminated("build", 0), running("test")],
        vec![running(SIDECAR), terminated("build", 0), terminated("test", 137)],
    ];
    let spec = vec![
        spec_container(SIDECAR, None),
        spec_container("build", Some("41")),
        spec_container("test", Some("42")),
    ];
    let (emitted, fired, _) = drive(ticks, spec, Resolver::EnvLookup).unwrap();
    assert_eq!(
        emitted,
        vec![
            ("build".to_string(), "success".to_string()),
            ("test".to_string(), "failure".to_string()),
        ]
    );
    assert!(!fired);
}

#[test]
fn scenario_unresolvable_id_is_fatal_before_any_report() {
    // The resolver finds no id for a terminated container: fatal, and no
    // report is emitted for it.
    let ticks = vec![vec![running(SIDECAR), terminated("build", 0)]];
    let spec = vec![spec_container(SIDECAR, None), spec_container("build", None)];
    let err = drive(ticks, spec, Resolver::EnvLookup).unwrap_err();
    assert_eq!(err, SidecarError::IdResolutionError);
}

#[test]
fn terminated_container_reported_exactly_once_across_ticks() {
    // The same terminated container is observed on many ticks; one report.
    let ticks = vec![
        vec![running(SIDECAR), terminated("build", 0), running("slow")],
        vec![running(SIDECAR), terminated("build", 0), running("slow")],
        vec![running(SIDECAR), terminated("build", 0), terminated("slow", 1)],
    ];
    let spec = vec![
        spec_container(SIDECAR, None),
        spec_container("build", Some("41")),
        spec_container("slow", Some("42")),
    ];
    let (emitted, fired, _) = drive(ticks, spec, Resolver::EnvLookup).unwrap();
    assert_eq!(
        emitted,
        vec![
            ("build".to_string(), "success".to_string()),
            ("slow".to_string(), "failure".to_string()),
        ]
    );
    assert!(!fired);
}

#[test]
fn duplicate_observation_within_one_tick_reports_once() {
    // Even if one tick's snapshot listed the same terminated container
    // twice, recording after the first report makes the second a skip.
    let ticks = vec![vec![
        running(SIDECAR),
        terminated("build", 0),
        terminated("build", 0),
    ]];
    let spec = vec![spec_container(SIDECAR, None), spec_container("build", Some("41"))];
    let mut tracker = CompletionTracker::new();
    let mut emitted = 0;
    for obs in ticks.into_iter().next().unwrap() {
        match evaluate_container(&tracker, &Resolver::EnvLookup, &spec, obs).unwrap() {
            TickAction::Report(pending) => {
                emitted += 1;
                let success = pending.exit_code == 0;
                tracker.record(pending.name, success);
            }
            _ => {}
        }
    }
    assert_eq!(emitted, 1);
    assert_eq!(tracker.reported_count(), 1);
}

#[test]
fn sidecar_is_never_reported_and_never_counted() {
    let tick = vec![terminated(SIDECAR, 0), terminated("build", 0)];
    assert_eq!(reportable_count(&tick), 1);
    let mut tracker = CompletionTracker::new();
    let spec = vec![spec_container(SIDECAR, Some("99")), spec_container("build", Some("41"))];
    let action =
        evaluate_container(&tracker, &Resolver::EnvLookup, &spec, terminated(SIDECAR, 0)).unwrap();
    assert!(matches!(action, TickAction::Skip));
    // Even a terminated sidecar with a resolvable id leaves the tracker empty.
    assert!(!tracker.is_reported(SIDECAR));
    assert_eq!(tracker.reported_count(), 0);
    tracker.record("build".to_string(), true);
    assert!(!tracker.is_reported(SIDECAR));
}

#[test]
fn finish_boundary_is_exact_equality() {
    let mut tracker = CompletionTracker::new();
    assert!(tracker.is_finished(0));
    assert!(!tracker.is_finished(2));
    tracker.record("build".to_string(), true);
    assert!(!tracker.is_finished(2)); // not one report early
    tracker.record("test".to_string(), true);
    assert!(tracker.is_finished(2)); // exactly when the counts match
    assert!(!tracker.is_finished(3)); // and never past it
}

#[test]
fn completion_set_grows_by_one_per_record() {
    let mut tracker = CompletionTracker::new();
    assert_eq!(tracker.reported_count(), 0);
    tracker.record("a".to_string(), true);
    assert_eq!(tracker.reported_count(), 1);
    tracker.record("b".to_string(), false);
    assert_eq!(tracker.reported_count(), 2);
    assert!(tracker.is_reported("a"));
    assert!(tracker.is_reported("b"));
    assert!(!tracker.is_reported("c"));
}

#[test]
fn conclusion_success_iff_exit_code_zero() {
    assert_eq!(conclusion_of(0), "success");
    assert_eq!(conclusion_of(1), "failure");
    assert_eq!(conclusion_of(-1), "failure");
    assert_eq!(conclusion_of(137), "failure");
    assert_eq!(conclusion_of(i32::MIN), "failure");
    assert_eq!(conclusion_of(i32::MAX), "failure");
}

#[test]
fn aggregate_fires_iff_every_conclusion_succeeded() {
    let mut all_ok = CompletionTracker::new();
    all_ok.record("a".to_string(), true);
    all_ok.record("b".to_string(), true);
    let note = aggregate_notification(
        &all_ok,
        7,
        "org/repo".to_string(),
        "abc123".to_string(),
        Some("main".to_string()),
    );
    let body = note.expect("all steps succeeded, so the notification fires");
    assert_eq!(body.step_section, 7);
    assert_eq!(body.repo_name, "org/repo");
    assert_eq!(body.commit_sha, "abc123");
    assert_eq!(body.branch_name.as_deref(), Some("main"));

    let mut one_failed = CompletionTracker::new();
    one_failed.record("a".to_string(), true);
    one_failed.record("b".to_string(), false);
    assert!(aggregate_notification(
        &one_failed,
        7,
        "org/repo".to_string(),
        "abc123".to_string(),
        None,
    )
    .is_none());
}

#[test]
fn classify_covers_all_phases() {
    let wait = classify(RawContainerState { running: false, terminated: None }).unwrap();
    assert!(matches!(wait, Phase::Waiting));
    let run = classify(RawContainerState { running: true, terminated: None }).unwrap();
    assert!(matches!(run, Phase::Running));
    let term = classify(RawContainerState {
        running: false,
        terminated: Some(RawTermination {
            exit_code: 137,
            started_at: None,
            finished_at: Some("2020-05-01T10:05:00+00:00".to_string()),
        }),
    })
    .unwrap();
    match term {
        Phase::Terminated { exit_code, started_at, finished_at } => {
            assert_eq!(exit_code, 137);
            assert_eq!(started_at, None);
            assert_eq!(finished_at, "2020-05-01T10:05:00+00:00");
        }
        _ => panic!("expected a terminated phase"),
    }
}

#[test]
fn classify_rejects_termination_without_finish_time() {
    let err = classify(RawContainerState {
        running: false,
        terminated: Some(RawTermination { exit_code: 0, started_at: None, finished_at: None }),
    })
    .unwrap_err();
    assert_eq!(err, SidecarError::UnexpectedShape);
}

#[test]
fn step_report_fields_are_fixed_at_build() {
    let spec = vec![spec_container("build", Some("41"))];
    let tracker = CompletionTracker::new();
    let action =
        evaluate_container(&tracker, &Resolver::EnvLookup, &spec, terminated("build", 0)).unwrap();
    let pending = match action {
        TickAction::Report(p) => p,
        _ => panic!("expected a report"),
    };
    assert_eq!(pending.check_run_id, 41);
    let report = build_step_report(&pending, "org/repo".to_string(), "the logs".to_string());
    assert_eq!(report.check_run_id, 41);
    assert_eq!(report.repo_name, "org/repo");
    assert_eq!(report.status, "completed");
    assert_eq!(report.started_at.as_deref(), Some("2020-05-01T10:00:00+00:00"));
    assert_eq!(report.finished_at.as_deref(), Some("2020-05-01T10:05:00+00:00"));
    assert_eq!(report.logs, "the logs");
    assert_eq!(report.conclusion, "success");
}

#[test]
fn table_lookup_resolves_first_match() {
    let table = vec![
        TableEntry { name: "build".to_string(), id: 5 },
        TableEntry { name: "test".to_string(), id: 6 },
        TableEntry { name: "build".to_string(), id: 7 },
    ];
    let resolver = Resolver::TableLookup { table };
    let spec: Vec<PodSpecContainer> = Vec::new();
    assert_eq!(resolver.resolve(&spec, "build"), Ok(5));
    assert_eq!(resolver.resolve(&spec, "test"), Ok(6));
    assert_eq!(resolver.resolve(&spec, "deploy"), Err(SidecarError::IdResolutionError));
}

#[test]
fn env_lookup_failure_modes() {
    let resolver = Resolver::EnvLookup;
    // Status names a container the spec does not declare.
    let spec = vec![spec_container("build", Some("41"))];
    assert_eq!(resolver.resolve(&spec, "ghost"), Err(SidecarError::UnexpectedShape));
    // Declared, but with no environment at all.
    let bare = vec![spec_container("build", None)];
    assert_eq!(resolver.resolve(&bare, "build"), Err(SidecarError::IdResolutionError));
    // Declared, but the id is not a number.
    let garbled = vec![spec_container("build", Some("not-a-number"))];
    assert_eq!(resolver.resolve(&garbled, "build"), Err(SidecarError::IdResolutionError));
    // An entry with no value.
    let valueless = vec![PodSpecContainer {
        name: "build".to_string(),
        env: Some(vec![EnvEntry { name: "CHECK_RUN_ID".to_string(), value: None }]),
    }];
    assert_eq!(resolver.resolve(&valueless, "build"), Err(SidecarError::IdResolutionError));
}

#[test]
fn sidecar_name_is_reserved() {
    assert!(is_sidecar_name("kubes-cd-sidecar"));
    assert!(!is_sidecar_name("kubes-cd-sidecar2"));
    assert!(!is_sidecar_name("build"));
    assert!(!is_sidecar_name(""));
}

#[test]
fn error_descriptions_are_distinct() {
    let all = [
        SidecarError::ConfigMissing,
        SidecarError::ClusterApiError,
        SidecarError::UnexpectedShape,
        SidecarError::IdResolutionError,
        SidecarError::NotificationTransportError,
    ];
    for (i, a) in all.iter().enumerate() {
        for (j, b) in all.iter().enumerate() {
            if i != j {
                assert_ne!(a.describe(), b.describe());
            }
        }
    }
}
