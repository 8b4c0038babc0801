use rqcheck::error::RqCheckError;

#[test]
fn test_file_read_error_display() {
    let error = RqCheckError::FileReadError {
        path: "test.txt".to_string(),
        reason: "file not found".to_string(),
    };
    let msg = error.message();
    assert!(msg.contains("test.txt"));
    assert!(msg.contains("Failed to read requirements file"));
}

#[test]
fn test_requirements_parse_error_display() {
    let error = RqCheckError::RequirementsParseError("invalid syntax".to_string());
    let msg = error.message();
    assert!(msg.contains("Failed to parse requirements file"));
    assert!(msg.contains("invalid syntax"));
}

#[test]
fn test_config_error_display() {
    let error = RqCheckError::ConfigError("invalid config".to_string());
    let msg = error.message();
    assert!(msg.contains("Failed to load configuration"));
    assert!(msg.contains("invalid config"));
}

#[test]
fn test_version_parse_error_display() {
    let error = RqCheckError::VersionParseError {
        package: "requests".to_string(),
        reason: "empty version".to_string(),
    };
    let msg = error.message();
    assert!(msg.contains("requests"));
    assert!(msg.contains("empty version"));
}

#[test]
fn test_invalid_requirement_display() {
    let error = RqCheckError::InvalidRequirement("missing name".to_string());
    let msg = error.message();
    assert!(msg.contains("Invalid package requirement"));
    assert!(msg.contains("missing name"));
}

#[test]
fn test_http_error_display() {
    let error = RqCheckError::HttpError {
        package: "flask".to_string(),
        status: 404,
    };
    let msg = error.message();
    assert!(msg.contains("flask"));
    assert!(msg.contains("404"));
}

// The whole messages.

#[test]
fn error_messages_in_full() {
    assert_eq!(
        RqCheckError::FileReadError { path: "r.txt".to_string(), reason: "gone".to_string() }.message(),
        "Failed to read requirements file 'r.txt': gone"
    );
    assert_eq!(
        RqCheckError::NetworkError { package: "flask".to_string(), reason: "reset".to_string() }.message(),
        "Network error while checking package 'flask': reset"
    );
    assert_eq!(
        RqCheckError::HttpError { package: "flask".to_string(), status: 503 }.message(),
        "HTTP request failed for package 'flask': status 503"
    );
    assert_eq!(
        RqCheckError::HttpError { package: "x".to_string(), status: 0 }.message(),
        "HTTP request failed for package 'x': status 0"
    );
    assert_eq!(
        RqCheckError::TimeoutError { package: "numpy".to_string() }.message(),
        "Timeout while checking package 'numpy'"
    );
    assert_eq!(
        RqCheckError::VersionParseError { package: "a".to_string(), reason: "b".to_string() }.message(),
        "Failed to parse version for package 'a': b"
    );
}
