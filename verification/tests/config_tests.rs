use edge_transport_http_egress::{ApplicationConfigBuilder, HttpConfig, HttpConfigBuilder};

#[test]
fn default_config_values() {
    let c = HttpConfig::default();
    assert_eq!(c.base_url, None);
    assert_eq!(c.timeout_secs, 30);
    assert_eq!(c.connect_timeout_secs, 10);
    assert_eq!(c.max_retries, 3);
    assert!(c.default_headers.is_empty());
    assert!(c.follow_redirects);
    assert_eq!(c.max_redirects, 10);
    assert_eq!(c.user_agent.as_deref(), Some("swe-edge/0.1.0"));
    assert_eq!(c.max_response_bytes, Some(10 * 1024 * 1024));
    assert_eq!(HttpConfig::default_max_response_bytes(), Some(10_485_760));
}

#[test]
fn config_with_base_url_header_and_timeout() {
    let c = HttpConfig::with_base_url("http://api.example.com")
        .with_header("x-a", "1")
        .with_header("x-b", "2")
        .with_header("x-a", "3")
        .with_timeout(5);
    assert_eq!(c.base_url.as_deref(), Some("http://api.example.com"));
    assert_eq!(c.timeout_secs, 5);
    assert_eq!(c.connect_timeout_secs, 10);
    assert_eq!(c.default_headers.len(), 2);
    assert_eq!(c.default_headers.get("x-a").map(|s| s.as_str()), Some("3"));
    assert_eq!(c.default_headers.get("x-b").map(|s| s.as_str()), Some("2"));
    let d = c.clone();
    assert_eq!(d.default_headers.get("x-a").map(|s| s.as_str()), Some("3"));
    assert_eq!(d.base_url, c.base_url);
}

#[test]
fn empty_builder_builds_default() {
    let b = HttpConfigBuilder::new().build();
    let d = HttpConfig::default();
    assert_eq!(b.base_url, d.base_url);
    assert_eq!(b.timeout_secs, d.timeout_secs);
    assert_eq!(b.connect_timeout_secs, d.connect_timeout_secs);
    assert_eq!(b.max_retries, d.max_retries);
    assert!(b.default_headers.is_empty());
    assert_eq!(b.follow_redirects, d.follow_redirects);
    assert_eq!(b.max_redirects, d.max_redirects);
    assert_eq!(b.user_agent, d.user_agent);
    assert_eq!(b.max_response_bytes, d.max_response_bytes);
}

#[test]
fn builder_sets_each_field() {
    let c = HttpConfigBuilder::new()
        .with_base_url("https://h")
        .with_timeout_secs(7)
        .with_connect_timeout_secs(3)
        .with_header("k", "v")
        .with_user_agent("agent/1")
        .build();
    assert_eq!(c.base_url.as_deref(), Some("https://h"));
    assert_eq!(c.timeout_secs, 7);
    assert_eq!(c.connect_timeout_secs, 3);
    assert_eq!(c.default_headers.get("k").map(|s| s.as_str()), Some("v"));
    assert_eq!(c.user_agent.as_deref(), Some("agent/1"));
    assert_eq!(c.max_retries, 3);
    let mut b = HttpConfigBuilder::new();
    b.max_response_bytes = Some(None);
    b.follow_redirects = Some(false);
    let c = b.build();
    assert_eq!(c.max_response_bytes, None);
    assert!(!c.follow_redirects);
}

#[test]
fn application_config_builder_seeds_name_and_version() {
    let b = ApplicationConfigBuilder::new();
    assert_eq!(b.name(), "");
    assert_eq!(b.version(), "");
    let b = ApplicationConfigBuilder::default().with_name("svc").with_version("1.2.3");
    assert_eq!(b.name(), "svc");
    assert_eq!(b.version(), "1.2.3");
    let b = b.with_name("other");
    assert_eq!(b.name(), "other");
    assert_eq!(b.version(), "1.2.3");
}
