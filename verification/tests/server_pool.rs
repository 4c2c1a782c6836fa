use pg_doorman::errors::{Error, ServerIdentifier};
use pg_doorman::pool::fallback::{
    exhausted_round, race_first_success, record_wave, FailureReason, FailureSummary,
};
use pg_doorman::pool::server_pool::{
    is_backend_unreachable, is_host_independent_error, lifetime_exceeded, startup_with_timeout,
};
use pg_doorman::pool::types::Metrics;

/// A connection that was made at this time.
fn metrics_with_lifetime(lifetime_ms: u64) -> Metrics {
    Metrics::new(lifetime_ms, 0, 0, 1_000)
}

fn id() -> ServerIdentifier {
    ServerIdentifier::new("alice".to_string(), "db", "pool_a")
}

fn rejection_err() -> Error {
    Error::ServerStartupParameterRejection {
        sqlstate: "22023".to_string(),
        message: "invalid_value".to_string(),
        server_identifier: id(),
    }
}

fn timeout_err() -> Error {
    Error::ConnectError("server startup timed out after 5s".to_string())
}

fn resource_exhausted_err() -> Error {
    Error::ConnectResourceExhausted("too many open files".to_string())
}

#[test]
fn is_host_independent_error_covers_resource_exhaustion_and_startup_rejection() {
    assert!(is_host_independent_error(&resource_exhausted_err()));
    assert!(is_host_independent_error(&rejection_err()));
}

#[test]
fn is_host_independent_error_excludes_transport_failures() {
    assert!(
        !is_host_independent_error(&Error::ConnectError("connection refused".into())),
        "transport failures are candidate-specific"
    );
    assert!(
        !is_host_independent_error(&timeout_err()),
        "startup timeout is candidate-specific"
    );
    assert!(
        !is_host_independent_error(&Error::ServerUnavailableError(
            "the database system is starting up".into(),
            id(),
        )),
        "server unavailable is candidate-specific"
    );
}

#[test]
fn backend_unreachable_excludes_local_resource_exhaustion() {
    assert!(is_backend_unreachable(&Error::ConnectError("connection refused".into())));
    assert!(is_backend_unreachable(&Error::ServerUnavailableError(
        "the database system is starting up".into(),
        id(),
    )));
    assert!(
        !is_backend_unreachable(&resource_exhausted_err()),
        "EMFILE/ENFILE is pg_doorman resource exhaustion, not backend unreachability"
    );
}

#[test]
fn all_startup_parameter_rejection_false_when_empty() {
    let s = FailureSummary::default();
    assert!(
        !s.all_startup_parameter_rejection(),
        "empty summary must not claim everyone rejected on startup parameter"
    );
}

#[test]
fn all_startup_parameter_rejection_true_when_only_rejections() {
    let mut s = FailureSummary::default();
    s.record(rejection_err(), FailureReason::StartupParameterRejection);
    s.record(rejection_err(), FailureReason::StartupParameterRejection);
    assert!(s.all_startup_parameter_rejection());
}

#[test]
fn all_startup_parameter_rejection_false_when_mixed() {
    let mut s = FailureSummary::default();
    s.record(rejection_err(), FailureReason::StartupParameterRejection);
    s.record(timeout_err(), FailureReason::Timeout);
    assert!(
        !s.all_startup_parameter_rejection(),
        "a single non-rejection cause must veto the all-rejection shortcut"
    );
    assert!(
        s.has_startup_parameter_rejection(),
        "a single PG rejection must be retained even alongside transport failures"
    );
}

#[test]
fn into_startup_rejection_returns_first_typed_rejection() {
    let mut s = FailureSummary::default();
    s.record(timeout_err(), FailureReason::Timeout);
    s.record(rejection_err(), FailureReason::StartupParameterRejection);
    match s.into_startup_rejection() {
        Some(Error::ServerStartupParameterRejection { sqlstate, .. }) => {
            assert_eq!(sqlstate, "22023")
        }
        other => panic!("expected the retained rejection, got {other:?}"),
    }
}

#[test]
fn failure_summary_retains_resource_exhaustion() {
    let mut s = FailureSummary::default();
    s.record(timeout_err(), FailureReason::Timeout);
    s.record(resource_exhausted_err(), FailureReason::ResourceExhausted);

    assert!(s.has_resource_exhaustion());
    match s.into_resource_exhaustion() {
        Some(Error::ConnectResourceExhausted(msg)) => {
            assert!(msg.contains("too many open files"), "unexpected msg: {msg}");
        }
        other => panic!("expected resource exhaustion, got {other:?}"),
    }
}

#[test]
fn into_last_err_returns_most_recently_recorded() {
    let mut s = FailureSummary::default();
    s.record(timeout_err(), FailureReason::Timeout);
    s.record(rejection_err(), FailureReason::StartupParameterRejection);
    match s.into_last_err() {
        Some(Error::ServerStartupParameterRejection { sqlstate, .. }) => {
            assert_eq!(sqlstate, "22023")
        }
        other => panic!("expected the last-recorded rejection, got {other:?}"),
    }
}

#[test]
fn lifetime_exceeded_skipped_when_under_pressure() {
    let metrics = metrics_with_lifetime(1);
    assert!(lifetime_exceeded(&metrics, true, 1_005).is_none());
}

#[test]
fn lifetime_exceeded_returns_age_when_age_above_limit() {
    let metrics = metrics_with_lifetime(1);
    let age = lifetime_exceeded(&metrics, false, 1_005).expect("must exceed lifetime");
    assert!(age >= 1, "reported age {} must be > limit 1", age);
    assert_eq!(age, 5);
}

#[test]
fn lifetime_exceeded_none_when_lifetime_disabled() {
    let metrics = metrics_with_lifetime(0);
    assert!(lifetime_exceeded(&metrics, false, 1_002).is_none());
    assert!(lifetime_exceeded(&metrics, true, 1_002).is_none());
}

#[test]
fn lifetime_exceeded_none_when_age_within_limit() {
    let metrics = metrics_with_lifetime(60_000);
    assert!(lifetime_exceeded(&metrics, false, 1_000).is_none());
}

#[test]
fn startup_with_timeout_returns_connect_error_on_deadline() {
    let result: Result<(), Error> = startup_with_timeout(20, "1.2.3.4", 5432, None);
    match result {
        Err(Error::ConnectError(msg)) => {
            assert!(
                msg.contains("startup timed out") && msg.contains("1.2.3.4:5432"),
                "unexpected message: {msg}"
            );
        }
        other => panic!("expected ConnectError, got: {other:?}"),
    }
}

#[test]
fn failure_summary_format_aggregates_by_reason() {
    let mut s = FailureSummary::default();
    let startup_error = || {
        Error::ServerStartupError("auth fail".into(), ServerIdentifier::new("u".into(), "d", "p"))
    };
    s.record(startup_error(), FailureReason::StartupError);
    s.record(startup_error(), FailureReason::StartupError);
    s.record(Error::ConnectError("timed out".into()), FailureReason::Timeout);

    assert_eq!(s.format(), "2 startup_error, 1 timeout");
}

#[test]
fn failure_summary_format_no_candidates_when_empty() {
    let s = FailureSummary::default();
    assert_eq!(s.format(), "no candidates");
}

#[test]
fn startup_with_timeout_passes_through_when_inner_resolves() {
    let inner = Err::<(), _>(Error::ConnectError(
        "deliberate inner error to assert pass-through".into(),
    ));
    match startup_with_timeout(1_000, "1.2.3.4", 5432, Some(inner)) {
        Err(Error::ConnectError(msg)) => {
            assert!(msg.contains("pass-through"), "unexpected message: {msg}");
        }
        other => panic!("expected pass-through ConnectError, got: {other:?}"),
    }
    assert!(startup_with_timeout(1_000, "1.2.3.4", 5432, Some(Ok(7))).unwrap() == 7);
}

#[test]
fn race_first_success_returns_first_ok_with_index() {
    // The second candidate ends first; the first one fails later.
    let ended: Vec<(usize, Result<&str, &str>)> = vec![(1, Ok("won")), (0, Err("late err"))];
    let (val, idx) = race_first_success(ended).expect("expected Ok");
    assert_eq!(val, "won");
    assert_eq!(idx, 1);
}

#[test]
fn race_first_success_collects_all_errors_when_all_fail() {
    let ended: Vec<(usize, Result<&str, &str>)> =
        vec![(2, Err("e2")), (0, Err("e0")), (1, Err("e1"))];
    let errs = race_first_success(ended).expect_err("expected Err");
    assert_eq!(errs.len(), 3);
    let mut indices: Vec<usize> = errs.iter().map(|(i, _)| *i).collect();
    indices.sort();
    assert_eq!(indices, vec![0, 1, 2]);
    for (idx, err) in &errs {
        assert_eq!(*err, ["e0", "e1", "e2"][*idx]);
    }
}

#[test]
fn race_first_success_empty_input() {
    let errs: Vec<(usize, &str)> =
        race_first_success::<&str, &str>(vec![]).expect_err("expected Err");
    assert!(errs.is_empty(), "no candidates → no errors");
}

#[test]
fn race_first_success_first_ok_immediately() {
    let ended: Vec<(usize, Result<&str, &str>)> = vec![(0, Ok("first")), (1, Ok("late"))];
    let (val, idx) = race_first_success(ended).expect("expected Ok");
    assert_eq!(val, "first");
    assert_eq!(idx, 0);
}

#[test]
fn a_wave_records_every_failure_and_reports_the_rejection() {
    let mut summary = FailureSummary::default();
    let recorded = record_wave(&mut summary, vec![(0, timeout_err()), (1, rejection_err())], 0);
    assert_eq!(recorded.len(), 2);
    assert_eq!(recorded[0].0, 0);
    assert_eq!(recorded[1].0, 1);
    assert!(matches!(recorded[1].1, FailureReason::StartupParameterRejection));
    assert!(matches!(
        exhausted_round(&summary),
        Error::ServerStartupParameterRejection { .. }
    ));
}

#[test]
fn reasons_that_do_not_lie_with_a_host_cool_none_down() {
    assert!(!FailureReason::ResourceExhausted.warrants_host_cooldown());
    assert!(!FailureReason::StartupParameterRejection.warrants_host_cooldown());
    assert!(FailureReason::ConnectError.warrants_host_cooldown());
    assert!(FailureReason::Timeout.warrants_host_cooldown());
}
