use xbp_monitoring::history::CheckResult;
use xbp_monitoring::metrics::{metric_sample, otlp_uses_grpc};
use xbp_monitoring::reload::{authorize_reload, STATUS_FORBIDDEN, STATUS_INTERNAL_ERROR};
use xbp_monitoring::sources::{
    check_fetch_status, check_remote_config_url, check_remote_scheme, config_file_plan, env_value,
    remote_config_url, remote_url_from_trimmed, replace_env_vars,
};
use xbp_monitoring::status::MonitorStatus;

#[test]
fn test_env_substitution() {
    let env = vec![("TEST_ENV_VAR".to_string(), "test_value".to_string())];
    let content = "Environment variable ${{ env.TEST_ENV_VAR }} should be replaced even with varying whitespace ${{env.TEST_ENV_VAR}}${{ env.TEST_ENV_VAR}}  ${{env.TEST_ENV_VAR }}${{ env.TEST_ENV_VAR     }}, missing ${{ env.MISSING_VAR }} should be empty";
    let replaced = replace_env_vars(content, &env);
    assert_eq!(
        "Environment variable test_value should be replaced even with varying whitespace test_valuetest_value  test_valuetest_value, missing  should be empty",
        replaced
    );
}

#[test]
fn env_substitution_without_placeholders_is_identity() {
    let env = vec![("A".to_string(), "1".to_string())];
    assert_eq!("plain $A {{ env.A }}", replace_env_vars("plain $A {{ env.A }}", &env));
}

#[test]
fn env_value_takes_first_match_or_empty() {
    let env = vec![
        ("A".to_string(), "1".to_string()),
        ("A".to_string(), "2".to_string()),
    ];
    assert_eq!("1", env_value(&env, "A"));
    assert_eq!("", env_value(&env, "B"));
}

#[test]
fn test_remote_config_rejects_non_https_scheme() {
    let result = check_remote_config_url("http://example.com/config.json");
    assert!(result.is_err());
    let msg = result.err().unwrap();
    assert!(msg.contains("must be an https URL"));
    assert_eq!(
        "XBP_REMOTE_CONFIG_URL must be an https URL, got: http://example.com/config.json",
        msg
    );
}

#[test]
fn remote_https_url_is_accepted() {
    assert!(check_remote_config_url("https://example.com/config.json").is_ok());
}

#[test]
fn remote_url_that_does_not_parse_is_rejected() {
    assert!(check_remote_config_url("not a url").is_err());
    assert_eq!(Err("boom".to_string()), check_remote_scheme("x", Err("boom".to_string())));
    assert_eq!(Ok(()), check_remote_scheme("x", Ok("https".to_string())));
}

#[test]
fn test_reload_requires_token_header_and_env() {
    let expected = Some("token123".to_string());
    let (code, body) = authorize_reload(&expected, &None).unwrap_err();
    assert_eq!(403, code);
    assert_eq!("forbidden", body.error);
    let (code, _) = authorize_reload(&expected, &Some("wrong".to_string())).unwrap_err();
    assert_eq!(403, code);
    assert!(authorize_reload(&expected, &Some("token123".to_string())).is_ok());
}

#[test]
fn reload_without_configured_token_is_an_internal_error() {
    let (code, body) = authorize_reload(&None, &Some("x".to_string())).unwrap_err();
    assert_eq!(STATUS_INTERNAL_ERROR, code);
    assert_eq!("XBP_RELOAD_TOKEN is not set", body.error);
    let (code, _) = authorize_reload(&Some("t".to_string()), &Some(String::new())).unwrap_err();
    assert_eq!(STATUS_FORBIDDEN, code);
    let (code, body) = authorize_reload(&Some(String::new()), &None).unwrap_err();
    assert_eq!(STATUS_FORBIDDEN, code);
    assert_eq!("forbidden", body.error);
    assert!(authorize_reload(&Some(String::new()), &Some(String::new())).is_ok());
}

#[test]
fn config_file_plans() {
    let legacy = config_file_plan(&Some("xbp.yml".to_string()));
    assert!(legacy.legacy && legacy.create_default);
    let default = config_file_plan(&Some("xbp.yaml".to_string()));
    assert!(!default.legacy && default.create_default);
    let other = config_file_plan(&Some("other.yaml".to_string()));
    assert!(!other.legacy && !other.create_default);
    let none = config_file_plan(&None);
    assert!(!none.legacy && !none.create_default);
}

#[test]
fn status_gauges_and_metric_samples() {
    assert_eq!(0, MonitorStatus::Success.as_u64());
    assert_eq!(1, MonitorStatus::Error.as_u64());
    let failed = CheckResult {
        name: "p".to_string(),
        status: MonitorStatus::Error,
        timestamp_ms: 0,
        status_code: 0,
        detail: Some("connection refused".to_string()),
    };
    let s = metric_sample(&failed, 12);
    assert_eq!((12, 1, 1, 1, 0), (s.duration_ms, s.runs, s.errors, s.status, s.status_code));
    let ok = CheckResult { status: MonitorStatus::Success, status_code: 204, ..failed.clone() };
    let s = metric_sample(&ok, 3);
    assert_eq!((1, 0, 0, 204), (s.runs, s.errors, s.status, s.status_code));
    assert_eq!(ok, ok.duplicate());
}

#[test]
fn remote_source_is_chosen_by_the_trimmed_variable() {
    assert_eq!(None, remote_config_url(&None));
    assert_eq!(None, remote_config_url(&Some("   ".to_string())));
    assert_eq!(None, remote_config_url(&Some(String::new())));
    assert_eq!(
        Some("https://example.com/c.json".to_string()),
        remote_config_url(&Some("  https://example.com/c.json\n".to_string()))
    );
    assert_eq!(None, remote_url_from_trimmed(String::new()));
    assert_eq!(Some("x".to_string()), remote_url_from_trimmed("x".to_string()));
}

#[test]
fn fetch_status_outside_success_is_an_error() {
    assert_eq!(Ok(()), check_fetch_status(200, "https://a/c"));
    assert_eq!(Ok(()), check_fetch_status(299, "https://a/c"));
    assert_eq!(
        Err("Remote config fetch failed (404): https://a/c".to_string()),
        check_fetch_status(404, "https://a/c")
    );
    assert_eq!(
        Err("Remote config fetch failed (300): u".to_string()),
        check_fetch_status(300, "u")
    );
    assert_eq!(
        Err("Remote config fetch failed (0): u".to_string()),
        check_fetch_status(0, "u")
    );
}

#[test]
fn otlp_protocol_choice() {
    assert!(otlp_uses_grpc(&Some("grpc".to_string())));
    assert!(!otlp_uses_grpc(&Some("http/protobuf".to_string())));
    assert!(!otlp_uses_grpc(&None));
}
