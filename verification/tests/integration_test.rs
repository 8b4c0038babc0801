use rqcheck::checker::{accept_package_info, check_single_package, collect_results, PackageInfo, PackageRequirement};
use rqcheck::config::{Config, ConfigFile, ConfigSource, EnvSettings};
use rqcheck::version::ReleaseInfo;

fn info(version: &str, releases: &[(&str, bool)]) -> PackageInfo {
    PackageInfo {
        version: version.to_string(),
        releases: releases
            .iter()
            .map(|(v, yanked)| (v.to_string(), vec![ReleaseInfo { yanked: *yanked }]))
            .collect(),
    }
}

fn requirement(name: &str, version: &str) -> PackageRequirement {
    PackageRequirement { name: name.to_string(), version: version.to_string() }
}

#[test]
fn test_config_file_loading() {
    let table: toml::Table = toml::from_str("\nbatch_size = 25\ntimeout_seconds = 60\nmax_retries = 5\n").unwrap();
    let number = |key: &str| table.get(key).and_then(|v| v.as_integer());
    let source = ConfigSource::Settings(ConfigFile {
        batch_size: number("batch_size").map(|v| v as usize),
        timeout_seconds: number("timeout_seconds").map(|v| v as u64),
        max_retries: number("max_retries").map(|v| v as u32),
        retry_delay_ms: number("retry_delay_ms").map(|v| v as u64),
        pypi_base_url: None,
        verbose: None,
        max_versions_to_check: None,
    });
    let config = Config::load(source, &EnvSettings::unset()).unwrap();
    assert_eq!(config.batch_size, 25);
    assert_eq!(config.timeout_seconds, 60);
    assert_eq!(config.max_retries, 5);
}

#[test]
fn test_cli_batch_size_override() {
    let mut config = Config::default();
    assert_eq!(config.batch_size, 10); // Default

    config.apply_cli_overrides(Some(20), None, None, false);
    assert_eq!(config.batch_size, 20); // Overridden
}

#[test]
fn test_version_analysis_major_update() {
    let config = Config::default();
    let pypi = info(
        "5.0.0",
        &[("5.0.0", false), ("4.2.8", false), ("4.2.0", false), ("3.2.23", false), ("3.2.0", false)],
    );
    let result = check_single_package(requirement("django", "3.2.0"), &pypi, config.max_versions_to_check);

    assert!(result.has_update);
    assert_eq!(result.latest_version, "5.0.0");
    assert_eq!(result.latest_major_version, Some("4.2.8".to_string()));
    assert_eq!(result.latest_minor_version, Some("3.2.23".to_string()));
}

#[test]
fn test_version_analysis_skip_prerelease() {
    let config = Config::default();
    let pypi = info(
        "3.0.0-rc1",
        &[("3.0.0-rc1", false), ("3.0.0-beta", false), ("2.5.0", false), ("2.0.0", false)],
    );
    let result = check_single_package(requirement("package", "2.0.0"), &pypi, config.max_versions_to_check);

    assert!(result.has_update);
    // The pre-releases are skipped: 2.5.0 is the newest release
    assert_eq!(result.latest_version, "2.5.0");
}

#[test]
fn test_version_analysis_skip_yanked() {
    let config = Config::default();
    let pypi = info("3.0.0", &[("3.0.0", true), ("2.5.0", false), ("2.0.0", false)]);
    let result = check_single_package(requirement("package", "2.0.0"), &pypi, config.max_versions_to_check);

    assert!(result.has_update);
    // The yanked 3.0.0 is skipped: 2.5.0 is the newest release
    assert_eq!(result.latest_version, "2.5.0");
}

#[test]
fn test_max_versions_configuration() {
    let mut config = Config::default();
    config.max_versions_to_check = 5; // Only the 5 newest versions
    let pypi = info(
        "5.0.0",
        &[
            ("5.0.0", false),
            ("4.0.0", false),
            ("3.0.0", false),
            ("2.5.0", false),
            ("2.4.0", false),
            ("2.3.0", false),
            ("2.2.0", false),
            ("2.1.0", false),
            ("2.0.5", false),
            ("2.0.0", false),
            ("1.9.0", false),
        ],
    );
    let result = check_single_package(requirement("package", "2.0.0"), &pypi, config.max_versions_to_check);

    assert!(result.has_update);
    assert_eq!(result.latest_version, "5.0.0");
}

#[test]
fn integration_test_test_already_on_latest() {
    let config = Config::default();
    let pypi = info("2.5.0", &[("2.5.0", false), ("2.4.0", false), ("2.3.0", false)]);
    let result = check_single_package(requirement("package", "2.5.0"), &pypi, config.max_versions_to_check);

    assert!(!result.has_update);
    assert_eq!(result.latest_version, "2.5.0");
    assert_eq!(result.latest_major_version, None);
    assert_eq!(result.latest_minor_version, None);
}

// The scenario of the end-to-end check, with the answers of PyPI given as
// decoded bodies: both packages have an update, and both results are kept.
#[test]
fn two_packages_from_decoded_answers() {
    let config = Config::default();
    let requests = accept_package_info(
        "requests",
        Ok(info("2.32.0", &[("2.32.0", false), ("2.31.0", false), ("2.28.0", false)])),
    )
    .unwrap();
    let flask =
        accept_package_info("flask", Ok(info("3.0.0", &[("3.0.0", false), ("2.3.0", false)]))).unwrap();
    let outcomes = vec![
        (requirement("requests", "2.28.0"), Ok(requests)),
        (requirement("flask", "2.3.0"), Ok(flask)),
    ];
    let results = collect_results(outcomes, config.max_versions_to_check);
    assert_eq!(results.len(), 2);
    assert!(results.iter().all(|r| r.has_update));
    assert_eq!(results[0].latest_version, "2.32.0");
    assert_eq!(results[0].latest_minor_version, Some("2.32.0".to_string()));
    assert_eq!(results[1].latest_version, "3.0.0");
    assert_eq!(results[1].latest_major_version, Some("2.3.0".to_string()));
    assert_eq!(results[1].latest_minor_version, None);
}

// Each result of a batch is the analysis of its package's releases, as a
// separate call of the analysis gives it.
#[test]
fn batch_result_equals_separate_analysis() {
    let pypi = info(
        "5.0.0",
        &[("5.0.0", false), ("4.2.8", false), ("4.2.0", false), ("3.2.23", false), ("3.2.0", false)],
    );
    let expected = rqcheck::version::analyze_versions("3.2.0", &pypi.releases, 10);
    let results = collect_results(vec![(requirement("django", "3.2.0"), Ok(pypi))], 10);
    assert_eq!(results.len(), 1);
    assert_eq!(results[0].name, "django");
    assert_eq!(results[0].current_version, "3.2.0");
    assert_eq!(results[0].latest_version, expected.latest);
    assert_eq!(results[0].latest_major_version, expected.latest_major);
    assert_eq!(results[0].latest_minor_version, expected.latest_minor);
    assert_eq!(results[0].has_update, expected.has_update);
}
