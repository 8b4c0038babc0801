use rqcheck::checker::{
    accept_package_info, collect_results, format_result_line, package_url, report_lines, status_failure,
    PackageCheckResult, PackageInfo, PackageRequirement, RetryState, RetryStep,
};
use rqcheck::config::Config;
use rqcheck::error::RqCheckError;
use rqcheck::version::ReleaseInfo;

#[test]
fn test_package_requirement_creation() {
    let req = PackageRequirement {
        name: "requests".to_string(),
        version: "2.28.0".to_string(),
    };
    assert_eq!(req.name, "requests");
    assert_eq!(req.version, "2.28.0");
}

fn result(name: &str, current: &str, latest: &str, major: Option<&str>, minor: Option<&str>, update: bool) -> PackageCheckResult {
    PackageCheckResult {
        name: name.to_string(),
        current_version: current.to_string(),
        latest_version: latest.to_string(),
        latest_major_version: major.map(|s| s.to_string()),
        latest_minor_version: minor.map(|s| s.to_string()),
        has_update: update,
    }
}

#[test]
fn test_display_results_with_updates() {
    let results = vec![
        result("requests", "2.28.0", "2.32.0", None, Some("2.32.0"), true),
        result("flask", "2.3.0", "2.3.0", None, None, false),
    ];
    let lines = report_lines(&results);
    assert_eq!(lines, vec!["requests 2.28.0 -> latest: 2.32.0, latest minor: 2.32.0".to_string()]);
}

#[test]
fn test_display_results_no_updates() {
    let results = vec![result("requests", "2.28.0", "2.28.0", None, None, false)];
    let lines = report_lines(&results);
    assert!(lines.is_empty());
}

#[test]
fn result_line_with_both_lines() {
    let r = result("django", "3.2.0", "5.0.0", Some("4.2.8"), Some("3.2.23"), true);
    assert_eq!(
        format_result_line(&r),
        "django 3.2.0 -> latest: 5.0.0, latest major: 4.2.8, latest minor: 3.2.23"
    );
}

#[test]
fn version_normalization() {
    let info = PackageInfo { version: "v1.2.3".to_string(), releases: vec![] };
    let accepted = accept_package_info("package", Ok(info)).unwrap();
    assert_eq!(accepted.version, "1.2.3");
    let info = PackageInfo { version: "2.32.0".to_string(), releases: vec![] };
    assert_eq!(accept_package_info("requests", Ok(info)).unwrap().version, "2.32.0");
}

#[test]
fn undecodable_body_is_network_error() {
    match accept_package_info("flask", Err("expected value".to_string())) {
        Err(RqCheckError::NetworkError { package, reason }) => {
            assert_eq!(package, "flask");
            assert_eq!(reason, "expected value");
        }
        _ => panic!("expected a network error"),
    }
}

#[test]
fn http_status_failures() {
    assert!(status_failure("x", 200).is_none());
    assert!(status_failure("x", 299).is_none());
    match status_failure("nonexistent", 404) {
        Some(RqCheckError::HttpError { package, status }) => {
            assert_eq!(package, "nonexistent");
            assert_eq!(status, 404);
        }
        _ => panic!("expected an HTTP error"),
    }
    assert!(status_failure("x", 301).is_some());
    assert!(status_failure("x", 199).is_some());
}

#[test]
fn retries_double_the_delay_then_give_up() {
    let config = Config::default();
    let mut state = RetryState::new(&config);
    let mut delays = Vec::new();
    loop {
        assert!(state.next_delay_fits());
        match state.after_failure(RqCheckError::TimeoutError { package: "p".to_string() }) {
            RetryStep::Retry { attempt, delay_ms } => delays.push((attempt, delay_ms)),
            RetryStep::GiveUp(e) => {
                assert!(matches!(e, RqCheckError::TimeoutError { .. }));
                break;
            }
        }
    }
    assert_eq!(delays, vec![(1, 1000), (2, 2000), (3, 4000)]);
}

#[test]
fn retries_none_when_max_is_zero() {
    let mut config = Config::default();
    config.max_retries = 0;
    let mut state = RetryState::new(&config);
    assert!(matches!(
        state.after_failure(RqCheckError::ConfigError("x".to_string())),
        RetryStep::GiveUp(RqCheckError::ConfigError(_))
    ));
}

#[test]
fn retry_delay_overflow_is_detected() {
    let state = RetryState { attempt: 63, max_retries: 100, retry_delay_ms: 1 };
    assert!(state.next_delay_fits());
    let state = RetryState { attempt: 63, max_retries: 100, retry_delay_ms: 2 };
    assert!(!state.next_delay_fits());
    let state = RetryState { attempt: 64, max_retries: 100, retry_delay_ms: 0 };
    assert!(!state.next_delay_fits());
    let state = RetryState { attempt: 100, max_retries: 100, retry_delay_ms: u64::MAX };
    assert!(state.next_delay_fits());
}

#[test]
fn failed_checks_are_left_out() {
    let releases = |vs: &[&str]| PackageInfo {
        version: vs[0].to_string(),
        releases: vs.iter().map(|v| (v.to_string(), vec![ReleaseInfo { yanked: false }])).collect(),
    };
    let req = |name: &str, version: &str| PackageRequirement { name: name.to_string(), version: version.to_string() };
    let outcomes = vec![
        (req("a", "1.0.0"), Ok(releases(&["1.0.0"]))),
        (req("b", "1.0.0"), Err(RqCheckError::TimeoutError { package: "b".to_string() })),
        (req("c", "1.0.0"), Ok(releases(&["2.0.0", "1.0.0"]))),
    ];
    let kept = collect_results(outcomes, 10);
    assert_eq!(kept.len(), 2);
    assert_eq!(kept[0].name, "a");
    assert!(!kept[0].has_update);
    assert_eq!(kept[1].name, "c");
    assert_eq!(kept[1].latest_version, "2.0.0");
    assert_eq!(kept[1].latest_major_version, Some("1.0.0".to_string()));
}

#[test]
fn package_url_joins_base_and_name() {
    assert_eq!(package_url("https://pypi.org/pypi", "requests"), "https://pypi.org/pypi/requests/json");
}
