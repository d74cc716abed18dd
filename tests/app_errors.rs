use promise_gui::error::AppError;

#[test]
fn test_app_error_display() {
    let err = AppError::runtime_not_found("test detail");
    assert_eq!(
        err.to_string(),
        "[E001] R runtime not found. Please configure the R path in Settings."
    );
}

#[test]
fn test_csv_parse_error() {
    let err = AppError::csv_parse_error("bad row");
    assert_eq!(err.code, "E004");
    assert_eq!(err.details, Some("bad row".to_string()));
}

#[test]
fn test_analysis_failed() {
    let err = AppError::analysis_failed("exit code 1");
    assert_eq!(err.code, "E006");
}

#[test]
fn test_config_parse_error() {
    let err = AppError::config_parse_error("invalid YAML at line 3");
    assert_eq!(err.code, "E005");
    assert_eq!(err.details, Some("invalid YAML at line 3".to_string()));
}

#[test]
fn file_not_found_names_the_path_and_has_no_details() {
    let err = AppError::file_not_found("/some/path");
    assert_eq!(err.code, "E003");
    assert_eq!(err.message, "File not found: /some/path");
    assert_eq!(err.details, None);
}

#[test]
fn setup_and_docker_errors_have_their_codes() {
    assert_eq!(AppError::setup_failed("x").code, "E007");
    assert_eq!(AppError::docker_not_found("y").code, "E002");
}

#[test]
fn test_app_error_to_string_json() {
    let err = AppError::file_not_found("/some/path");
    let json_str: String = err.into();
    let parsed: serde_json::Value = serde_json::from_str(&json_str).unwrap();
    assert_eq!(parsed["code"], "E003");
    assert!(parsed["message"].as_str().unwrap().contains("/some/path"));
}

#[test]
fn json_form_escapes_and_keeps_details() {
    let err = AppError::csv_parse_error("quote \" inside");
    let json_str = err.to_json();
    assert_eq!(
        json_str,
        "{\"code\":\"E004\",\"message\":\"Failed to parse CSV file.\",\"details\":\"quote \\\" inside\"}"
    );
}

#[test]
fn json_form_escapes_control_characters_and_writes_null_details() {
    let err = AppError::csv_parse_error("a\u{1}\tb\\");
    assert_eq!(
        err.to_json(),
        "{\"code\":\"E004\",\"message\":\"Failed to parse CSV file.\",\"details\":\"a\\u0001\\tb\\\\\"}"
    );
    let err = AppError::file_not_found("/p");
    assert_eq!(
        err.to_json(),
        "{\"code\":\"E003\",\"message\":\"File not found: /p\",\"details\":null}"
    );
}
