use perseus::config::{expand_tilde, load_config, Config, ConfigError, OverlayConfig, PathFacts};

fn all_there() -> PathFacts {
    PathFacts { ca_cert_exists: true, client_cert_exists: true, client_key_exists: true }
}

fn none_there() -> PathFacts {
    PathFacts { ca_cert_exists: false, client_cert_exists: false, client_key_exists: false }
}

#[test]
fn test_defaults() {
    let config = Config::default();
    assert_eq!(config.http.timeout, 30);
    assert!(config.http.follow_redirects);
    assert_eq!(config.http.max_redirects, 10);
    assert!(config.proxy.url.is_none());
    assert!(config.proxy.no_proxy.is_none());
    assert!(config.ssl.verify);
    assert!(config.ssl.ca_cert.is_none());
    assert!(config.ssl.client_cert.is_none());
    assert!(config.ssl.client_key.is_none());
    assert_eq!(config.ui.sidebar_width, 32);
    assert_eq!(config.editor.tab_size, 2);
}

#[test]
fn test_merge_empty_overlay() {
    let base = Config::default();
    let overlay = OverlayConfig::default();
    let merged = base.merge(overlay);
    assert_eq!(merged.http.timeout, 30);
    assert!(merged.http.follow_redirects);
    assert_eq!(merged.ui.sidebar_width, 32);
}

#[test]
fn test_merge_partial_overlay() {
    let base = Config::default();
    let mut overlay = OverlayConfig::default();
    overlay.http.timeout = Some(60);
    let merged = base.merge(overlay);
    assert_eq!(merged.http.timeout, 60);
    // Other fields unchanged
    assert!(merged.http.follow_redirects);
    assert_eq!(merged.http.max_redirects, 10);
    assert_eq!(merged.ui.sidebar_width, 32);
}

#[test]
fn test_merge_proxy_field_level() {
    let mut base = Config::default();
    base.proxy.url = Some("http://global-proxy:8080".into());
    base.proxy.no_proxy = Some("localhost".into());

    // Project overlay only overrides url, not no_proxy
    let mut overlay = OverlayConfig::default();
    overlay.proxy.url = Some("http://project-proxy:9090".into());
    let merged = base.merge(overlay);

    assert_eq!(merged.proxy.url.as_deref(), Some("http://project-proxy:9090"));
    // no_proxy survives from the global layer
    assert_eq!(merged.proxy.no_proxy.as_deref(), Some("localhost"));
}

#[test]
fn merge_overrides_every_stated_field() {
    let mut overlay = OverlayConfig::default();
    overlay.http.follow_redirects = Some(false);
    overlay.http.max_redirects = Some(3);
    overlay.proxy.no_proxy = Some("internal".into());
    overlay.ssl.verify = Some(false);
    overlay.ssl.ca_cert = Some("/ca.pem".into());
    overlay.ssl.client_cert = Some("/cert.pem".into());
    overlay.ssl.client_key = Some("/key.pem".into());
    overlay.ui.sidebar_width = Some(40);
    overlay.editor.tab_size = Some(4);
    let merged = Config::default().merge(overlay);
    assert_eq!(merged.http.timeout, 30);
    assert!(!merged.http.follow_redirects);
    assert_eq!(merged.http.max_redirects, 3);
    assert!(merged.proxy.url.is_none());
    assert_eq!(merged.proxy.no_proxy.as_deref(), Some("internal"));
    assert!(!merged.ssl.verify);
    assert_eq!(merged.ssl.ca_cert.as_deref(), Some("/ca.pem"));
    assert_eq!(merged.ssl.client_cert.as_deref(), Some("/cert.pem"));
    assert_eq!(merged.ssl.client_key.as_deref(), Some("/key.pem"));
    assert_eq!(merged.ui.sidebar_width, 40);
    assert_eq!(merged.editor.tab_size, 4);
}

#[test]
fn test_validate_defaults_pass() {
    let config = Config::default();
    assert!(config.validate(None, &all_there()).is_ok());
}

#[test]
fn test_validate_timeout_out_of_range() {
    let mut config = Config::default();
    config.http.timeout = 999;
    let err = config.validate(None, &all_there()).unwrap_err();
    assert!(err.messages[0].contains("http.timeout"));
    assert!(err.messages[0].contains("999"));
    assert_eq!(
        err.messages,
        vec!["config error: http.timeout = 999 is out of range (0..=600)"]
    );
}

#[test]
fn test_validate_max_redirects_out_of_range() {
    let mut config = Config::default();
    config.http.max_redirects = 200;
    let err = config.validate(None, &all_there()).unwrap_err();
    assert!(err.messages[0].contains("http.max_redirects"));
    assert_eq!(
        err.messages[0],
        "config error: http.max_redirects = 200 is out of range (0..=100)"
    );
}

#[test]
fn test_validate_sidebar_width_out_of_range() {
    let mut config = Config::default();
    config.ui.sidebar_width = 999;
    let err = config.validate(None, &all_there()).unwrap_err();
    assert!(err.messages[0].contains("ui.sidebar_width"));
    assert_eq!(
        err.messages[0],
        "config error: ui.sidebar_width = 999 is out of range (28..=60)"
    );
}

#[test]
fn test_validate_tab_size_out_of_range() {
    let mut config = Config::default();
    config.editor.tab_size = 0;
    let err = config.validate(None, &all_there()).unwrap_err();
    assert!(err.messages[0].contains("editor.tab_size"));
    assert_eq!(
        err.messages[0],
        "config error: editor.tab_size = 0 is out of range (1..=8)"
    );
}

#[test]
fn test_validate_invalid_proxy_url() {
    let mut config = Config::default();
    config.proxy.url = Some("not a url".into());
    let err = config.validate(None, &all_there()).unwrap_err();
    assert!(err.messages[0].contains("proxy.url"));
    assert_eq!(
        err.messages[0],
        "config error: proxy.url = \"not a url\" is not a valid URL"
    );
    config.proxy.url = Some("http://proxy.corp:8080".into());
    assert!(config.validate(None, &all_there()).is_ok());
}

#[test]
fn test_validate_cert_key_mismatch() {
    let mut config = Config::default();
    config.ssl.client_cert = Some("/tmp/cert.pem".into());
    // client_key is None: mismatch
    let err = config.validate(None, &none_there()).unwrap_err();
    let all = err.messages.join("\n");
    assert!(all.contains("both be set or both be unset"));
    assert_eq!(err.messages.len(), 2);
    let err = config.validate(None, &all_there()).unwrap_err();
    assert_eq!(
        err.messages,
        vec!["config error: ssl.client_cert and ssl.client_key must both be set or both be unset"]
    );
}

#[test]
fn test_validate_nonexistent_ca_cert() {
    let mut config = Config::default();
    config.ssl.ca_cert = Some("/nonexistent/ca.pem".into());
    let err = config.validate(None, &none_there()).unwrap_err();
    assert!(err.messages[0].contains("ssl.ca_cert"));
    assert!(err.messages[0].contains("file not found"));
    assert_eq!(
        err.messages[0],
        "config error: ssl.ca_cert = \"/nonexistent/ca.pem\" \u{2014} file not found"
    );
}

#[test]
fn test_validate_zero_timeout_valid() {
    let mut config = Config::default();
    config.http.timeout = 0;
    assert!(config.validate(None, &all_there()).is_ok());
}

#[test]
fn test_validate_boundary_values() {
    let mut config = Config::default();
    config.http.timeout = 600;
    config.http.max_redirects = 100;
    config.ui.sidebar_width = 28;
    config.editor.tab_size = 1;
    assert!(config.validate(None, &all_there()).is_ok());

    config.ui.sidebar_width = 60;
    config.editor.tab_size = 8;
    assert!(config.validate(None, &all_there()).is_ok());
}

#[test]
fn validate_reports_every_problem_in_order() {
    let mut config = Config::default();
    config.http.timeout = 601;
    config.http.max_redirects = 101;
    config.ui.sidebar_width = 27;
    config.editor.tab_size = 9;
    config.proxy.url = Some("::".into());
    config.ssl.ca_cert = Some("~/ca.pem".into());
    config.ssl.client_key = Some("/key.pem".into());
    let err = config.validate(Some("/home/u"), &none_there()).unwrap_err();
    assert_eq!(
        err.messages,
        vec![
            "config error: http.timeout = 601 is out of range (0..=600)",
            "config error: http.max_redirects = 101 is out of range (0..=100)",
            "config error: ui.sidebar_width = 27 is out of range (28..=60)",
            "config error: editor.tab_size = 9 is out of range (1..=8)",
            "config error: proxy.url = \"::\" is not a valid URL",
            "config error: ssl.ca_cert = \"/home/u/ca.pem\" \u{2014} file not found",
            "config error: ssl.client_key = \"/key.pem\" \u{2014} file not found",
            "config error: ssl.client_cert and ssl.client_key must both be set or both be unset",
        ]
    );
    let text = err.to_text();
    assert!(text.starts_with("config error: http.timeout = 601"));
    assert!(text.ends_with("both be unset\n"));
    assert_eq!(text.lines().count(), 8);
    assert_eq!(ConfigError { messages: Vec::new() }.to_text(), "");
}

#[test]
fn test_expand_tilde() {
    let home = "/home/test";
    let expanded = expand_tilde("~/certs/ca.pem", Some(home));
    assert_eq!(expanded, format!("{}/certs/ca.pem", home));
}

#[test]
fn test_expand_tilde_no_tilde() {
    let path = "/absolute/path/ca.pem";
    let expanded = expand_tilde(path, Some("/home/test"));
    assert_eq!(expanded, path);
}

#[test]
fn expand_tilde_edge_cases() {
    assert_eq!(expand_tilde("~/x", None), "~/x");
    assert_eq!(expand_tilde("", Some("/h")), "");
    assert_eq!(expand_tilde("~x", Some("/h")), "/h/x");
    assert_eq!(expand_tilde("a~/x", Some("/h")), "a~/x");
}

#[test]
fn load_config_layers_global_then_project() {
    let mut global = OverlayConfig::default();
    global.http.timeout = Some(5);
    global.proxy.url = Some("http://global:1".into());
    global.ssl.ca_cert = Some("~/ca.pem".into());
    let mut project = OverlayConfig::default();
    project.http.timeout = Some(7);
    project.editor.tab_size = Some(8);
    let config = load_config(Some(global), Some(project), Some("/home/u"));
    assert_eq!(config.http.timeout, 7);
    assert_eq!(config.proxy.url.as_deref(), Some("http://global:1"));
    assert_eq!(config.editor.tab_size, 8);
    assert_eq!(config.ssl.ca_cert.as_deref(), Some("/home/u/ca.pem"));
    assert_eq!(config.ui.sidebar_width, 32);
    let plain = load_config(None, None, None);
    assert_eq!(plain.http.timeout, 30);
    assert!(plain.ssl.ca_cert.is_none());
}
