use subdeploy::{HealthCheckError, HealthCheckSpec, HealthPoll, ProbeOutcome};

#[test]
fn wait_for_health_accepts_redirect_response() {
    let spec = HealthCheckSpec {
        url: "http://127.0.0.1:8080".to_owned(),
        timeout_ms: 2000,
        poll_interval_ms: 50,
    };
    let mut poll = HealthPoll::new();
    assert!(HealthPoll::should_probe(&spec, 0));
    assert!(poll.record(ProbeOutcome::Status(302)));
}

#[test]
fn wait_for_health_times_out_on_connection_refused() {
    let spec = HealthCheckSpec {
        url: "http://127.0.0.1:9".to_owned(),
        timeout_ms: 250,
        poll_interval_ms: 50,
    };
    let mut poll = HealthPoll::new();
    let mut elapsed = 0;
    while HealthPoll::should_probe(&spec, elapsed) {
        assert!(!poll.record(ProbeOutcome::Failed("connection refused".to_owned())));
        elapsed += spec.poll_interval_ms;
    }
    let error = poll.timeout_error();
    assert!(matches!(error, HealthCheckError::Timeout { .. }));
}

#[test]
fn health_status_classes() {
    let mut poll = HealthPoll::new();
    assert_eq!(poll.last_error, "未发起请求");
    assert!(poll.record(ProbeOutcome::Status(200)));
    assert!(poll.record(ProbeOutcome::Status(399)));
    assert!(!poll.record(ProbeOutcome::Status(404)));
    assert_eq!(poll.last_error, "HTTP 404");
    assert!(!poll.record(ProbeOutcome::Status(199)));
    assert_eq!(poll.last_error, "HTTP 199");
    assert!(!poll.record(ProbeOutcome::Status(503)));
    assert!(matches!(
        poll.timeout_error(),
        HealthCheckError::Timeout { ref last_error } if last_error == "HTTP 503"
    ));
}

#[test]
fn timeout_before_any_request() {
    let spec = HealthCheckSpec { url: "http://x".to_owned(), timeout_ms: 0, poll_interval_ms: 5 };
    assert!(!HealthPoll::should_probe(&spec, 0));
    let poll = HealthPoll::new();
    assert!(matches!(
        poll.timeout_error(),
        HealthCheckError::Timeout { ref last_error } if last_error == "未发起请求"
    ));
}
