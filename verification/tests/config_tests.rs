use netscan::config::{config_path_for_home, parse_http_method, AppConfig, HttpMethod};

#[test]
fn default_settings_are_dark_and_empty() {
    let c = AppConfig::default();
    assert!(c.server_url.is_none());
    assert!(c.auth_token.is_none());
    assert_eq!(c.theme.as_str(), "dark");
    assert!(!c.auto_start);
}

#[test]
fn setters_change_only_their_field() {
    let mut c = AppConfig::default();
    c.set_server_url("http://catalog:8080".to_string());
    assert_eq!(c.server_url.as_deref(), Some("http://catalog:8080"));
    assert!(c.auth_token.is_none());
    c.set_auth_token("SECRET-REDACTED".to_string());
    assert_eq!(c.auth_token.as_deref(), Some("SECRET-REDACTED"));
    assert_eq!(c.server_url.as_deref(), Some("http://catalog:8080"));
    c.clear_auth_token();
    assert!(c.auth_token.is_none());
    assert_eq!(c.theme.as_str(), "dark");
}

#[test]
fn config_path_hangs_off_the_home_directory() {
    assert_eq!(
        config_path_for_home("/home/user").as_str(),
        "/home/user/.catalogizer/config.json"
    );
}

#[test]
fn http_methods_parse_case_insensitively() {
    assert_eq!(parse_http_method("GET"), Some(HttpMethod::Get));
    assert_eq!(parse_http_method("get"), Some(HttpMethod::Get));
    assert_eq!(parse_http_method("pOsT"), Some(HttpMethod::Post));
    assert_eq!(parse_http_method("put"), Some(HttpMethod::Put));
    assert_eq!(parse_http_method("DELETE"), Some(HttpMethod::Delete));
    assert_eq!(parse_http_method("patch"), Some(HttpMethod::Patch));
}

#[test]
fn unknown_http_methods_are_rejected() {
    assert_eq!(parse_http_method("HEAD"), None);
    assert_eq!(parse_http_method(""), None);
    assert_eq!(parse_http_method("GETS"), None);
}
