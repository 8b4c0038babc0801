use rqcheck::version::{
    analyze_parsed, analyze_versions, ParsedRelease, ReleaseInfo, SemVersion,
};

fn create_releases(versions: &[&str]) -> Vec<(String, Vec<ReleaseInfo>)> {
    versions
        .iter()
        .map(|v| (v.to_string(), vec![ReleaseInfo { yanked: false }]))
        .collect()
}

fn create_releases_with_yanked(versions: &[(&str, bool)]) -> Vec<(String, Vec<ReleaseInfo>)> {
    versions
        .iter()
        .map(|(v, yanked)| (v.to_string(), vec![ReleaseInfo { yanked: *yanked }]))
        .collect()
}

#[test]
fn test_major_update_available() {
    let releases = create_releases(&["3.0.0", "2.5.0", "2.0.5", "1.9.0"]);
    let analysis = analyze_versions("2.0.0", &releases, 10);

    assert_eq!(analysis.latest, "3.0.0");
    assert_eq!(analysis.latest_major, Some("2.5.0".to_string()));
    assert_eq!(analysis.latest_minor, Some("2.5.0".to_string()));
    assert!(analysis.has_update);
}

#[test]
fn test_minor_update_available() {
    let releases = create_releases(&["2.5.0", "2.3.0", "2.0.5", "1.9.0"]);
    let analysis = analyze_versions("2.0.0", &releases, 10);

    assert_eq!(analysis.latest, "2.5.0");
    assert_eq!(analysis.latest_major, Some("1.9.0".to_string()));
    assert_eq!(analysis.latest_minor, Some("2.5.0".to_string()));
    assert!(analysis.has_update);
}

#[test]
fn test_patch_update_available() {
    let releases = create_releases(&["2.0.5", "2.0.3", "2.0.1", "1.9.0"]);
    let analysis = analyze_versions("2.0.0", &releases, 10);

    assert_eq!(analysis.latest, "2.0.5");
    assert_eq!(analysis.latest_major, Some("1.9.0".to_string()));
    assert_eq!(analysis.latest_minor, Some("2.0.5".to_string()));
    assert!(analysis.has_update);
}

#[test]
fn version_test_already_on_latest() {
    let releases = create_releases(&["2.0.0", "1.9.0", "1.8.0"]);
    let analysis = analyze_versions("2.0.0", &releases, 10);

    assert_eq!(analysis.latest, "2.0.0");
    assert_eq!(analysis.latest_major, None);
    assert_eq!(analysis.latest_minor, None);
    assert!(!analysis.has_update);
}

#[test]
fn test_skip_prerelease_versions() {
    let releases = create_releases(&["3.0.0-rc1", "3.0.0-beta", "2.5.0", "2.0.0"]);
    let analysis = analyze_versions("2.0.0", &releases, 10);

    assert_eq!(analysis.latest, "2.5.0");
    assert!(analysis.has_update);
}

#[test]
fn test_skip_yanked_versions() {
    let releases = create_releases_with_yanked(&[
        ("3.0.0", true),
        ("2.5.0", false),
        ("2.0.0", false),
    ]);
    let analysis = analyze_versions("2.0.0", &releases, 10);

    assert_eq!(analysis.latest, "2.5.0");
    assert!(analysis.has_update);
}

#[test]
fn test_invalid_semver_versions() {
    let mut releases = create_releases(&["2.5.0", "2.0.0"]);
    releases.push(("invalid-version".to_string(), vec![ReleaseInfo { yanked: false }]));
    releases.push(("2024.01.01".to_string(), vec![ReleaseInfo { yanked: false }]));

    let analysis = analyze_versions("2.0.0", &releases, 10);

    assert_eq!(analysis.latest, "2.5.0");
    assert!(analysis.has_update);
}

#[test]
fn test_version_limit() {
    let releases = create_releases(&[
        "5.0.0", "4.0.0", "3.0.0", "2.5.0", "2.4.0", "2.3.0", "2.2.0", "2.1.0", "2.0.5", "2.0.0",
        "1.9.0", "1.8.0", "1.7.0",
    ]);
    let analysis = analyze_versions("2.0.0", &releases, 5);

    // Only the top 5 versions are considered: 5.0.0, 4.0.0, 3.0.0, 2.5.0, 2.4.0
    assert_eq!(analysis.latest, "5.0.0");
    assert_eq!(analysis.latest_major, Some("4.0.0".to_string()));
    assert_eq!(analysis.latest_minor, Some("2.5.0".to_string()));
}

#[test]
fn test_fewer_versions_than_limit() {
    let releases = create_releases(&["2.5.0", "2.0.0"]);
    let analysis = analyze_versions("2.0.0", &releases, 10);

    assert_eq!(analysis.latest, "2.5.0");
    assert!(analysis.has_update);
}

#[test]
fn test_invalid_current_version() {
    let releases = create_releases(&["2.5.0", "2.0.0"]);
    let analysis = analyze_versions("invalid", &releases, 10);

    assert_eq!(analysis.latest, "invalid");
    assert_eq!(analysis.latest_major, None);
    assert_eq!(analysis.latest_minor, None);
    assert!(!analysis.has_update);
}

#[test]
fn test_no_valid_releases() {
    let releases = create_releases(&[]);
    let analysis = analyze_versions("2.0.0", &releases, 10);

    assert_eq!(analysis.latest, "2.0.0");
    assert!(!analysis.has_update);
}

#[test]
fn test_only_older_versions() {
    let releases = create_releases(&["1.9.0", "1.8.0", "1.7.0"]);
    let analysis = analyze_versions("2.0.0", &releases, 10);

    assert_eq!(analysis.latest, "1.9.0");
    assert!(!analysis.has_update);
}

#[test]
fn test_latest_minor_same_as_latest() {
    let releases = create_releases(&["2.5.0", "2.3.0", "1.9.0"]);
    let analysis = analyze_versions("2.0.0", &releases, 10);

    assert_eq!(analysis.latest, "2.5.0");
    assert_eq!(analysis.latest_major, Some("1.9.0".to_string()));
    assert_eq!(analysis.latest_minor, Some("2.5.0".to_string()));
}

// Further cases of the analysis.

#[test]
fn analysis_ignores_release_order() {
    let forward = create_releases(&["1.0.0", "1.2.0", "3.1.4", "2.0.0", "1.10.0"]);
    let mut backward = forward.clone();
    backward.reverse();
    let a = analyze_versions("1.1.0", &forward, 10);
    let b = analyze_versions("1.1.0", &backward, 10);
    assert_eq!(a, b);
    assert_eq!(a.latest, "3.1.4");
    assert_eq!(a.latest_major, Some("2.0.0".to_string()));
    assert_eq!(a.latest_minor, Some("1.10.0".to_string()));
}

#[test]
fn analysis_orders_numbers_numerically() {
    let releases = create_releases(&["1.9.0", "1.10.0", "1.2.0"]);
    let analysis = analyze_versions("1.9.0", &releases, 10);
    assert_eq!(analysis.latest, "1.10.0");
    assert!(analysis.has_update);
    assert_eq!(analysis.latest_major, None);
    assert_eq!(analysis.latest_minor, Some("1.10.0".to_string()));
}

#[test]
fn analysis_current_prerelease_is_older_than_release() {
    let releases = create_releases(&["2.0.0"]);
    let analysis = analyze_versions("2.0.0-rc.1", &releases, 10);
    assert_eq!(analysis.latest, "2.0.0");
    assert!(analysis.has_update);
    assert_eq!(analysis.latest_minor, Some("2.0.0".to_string()));
}

#[test]
fn analysis_renders_build_metadata() {
    let releases = create_releases(&["1.0.0+build.5", "0.9.0"]);
    let analysis = analyze_versions("0.9.0", &releases, 10);
    assert_eq!(analysis.latest, "1.0.0+build.5");
    assert!(analysis.has_update);
    assert_eq!(analysis.latest_major, Some("0.9.0".to_string()));
    assert_eq!(analysis.latest_minor, None);
}

#[test]
fn analysis_yanked_if_any_file_is_yanked() {
    let releases = vec![
        ("3.0.0".to_string(), vec![ReleaseInfo { yanked: false }, ReleaseInfo { yanked: true }]),
        ("2.1.0".to_string(), vec![]),
    ];
    let analysis = analyze_versions("2.0.0", &releases, 10);
    assert_eq!(analysis.latest, "2.1.0");
    assert!(analysis.has_update);
}

#[test]
fn analysis_with_zero_limit_keeps_nothing() {
    let releases = create_releases(&["3.0.0"]);
    let analysis = analyze_versions("2.0.0", &releases, 0);
    assert_eq!(analysis.latest, "2.0.0");
    assert!(!analysis.has_update);
    assert_eq!(analysis.latest_major, None);
    assert_eq!(analysis.latest_minor, None);
}

#[test]
fn analysis_older_majors_do_not_count_without_update() {
    let releases = create_releases(&["2.0.0", "1.0.0"]);
    let analysis = analyze_versions("3.0.0", &releases, 10);
    assert_eq!(analysis.latest, "2.0.0");
    assert!(!analysis.has_update);
    assert_eq!(analysis.latest_major, None);
}

fn parsed(text: &str, yanked: bool) -> ParsedRelease {
    ParsedRelease { version: SemVersion::parse(text), yanked }
}

#[test]
fn analysis_of_parsed_releases() {
    let releases = vec![
        parsed("3.0.0", false),
        parsed("2.5.0", false),
        parsed("4.0.0", true),
        parsed("3.1.0-rc1", false),
        parsed("not a version", false),
        parsed("1.9.0", false),
    ];
    let analysis = analyze_parsed("2.0.0", SemVersion::parse("2.0.0"), releases, 10);
    assert_eq!(analysis.latest, "3.0.0");
    assert_eq!(analysis.latest_major, Some("2.5.0".to_string()));
    assert_eq!(analysis.latest_minor, Some("2.5.0".to_string()));
    assert!(analysis.has_update);
}

#[test]
fn analysis_without_parsed_current_version() {
    let analysis = analyze_parsed("latest", None, vec![parsed("3.0.0", false)], 10);
    assert_eq!(analysis.latest, "latest");
    assert!(!analysis.has_update);
    assert_eq!(analysis.latest_major, None);
}

#[test]
fn parsed_version_text() {
    let v = SemVersion::parse("1.2.3-beta.1+build.5").unwrap();
    assert_eq!(v.text(), "1.2.3-beta.1+build.5");
    assert!(SemVersion::parse("1.2").is_none());
}
