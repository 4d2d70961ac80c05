use edge_transport_http_egress::assembly::{
    client_plan, config_driven_chain, default_chain, oauth_config_driven_chain, Layer,
    SectionStates,
};
use edge_transport_http_egress::HttpConfig;

#[test]
fn config_driven_chain_wires_present_sections_in_order() {
    let none = SectionStates::default();
    assert!(config_driven_chain(&none).is_empty());
    let some = SectionStates {
        auth: true,
        retry: true,
        cache: true,
        ..SectionStates::default()
    };
    assert_eq!(config_driven_chain(&some), vec![Layer::Auth, Layer::Retry, Layer::Cache]);
    let all = SectionStates {
        auth: true,
        tls: true,
        retry: true,
        rate: true,
        breaker: true,
        cache: true,
        cassette: true,
    };
    assert_eq!(config_driven_chain(&all), default_chain());
}

#[test]
fn oauth_takes_the_auth_slot() {
    let s = SectionStates {
        auth: true,
        rate: true,
        ..SectionStates::default()
    };
    assert_eq!(oauth_config_driven_chain(&s), vec![Layer::OAuth, Layer::Rate]);
    assert_eq!(oauth_config_driven_chain(&SectionStates::default()), vec![Layer::OAuth]);
}

#[test]
fn default_chain_has_every_layer() {
    assert_eq!(
        default_chain(),
        vec![
            Layer::Auth,
            Layer::Retry,
            Layer::Rate,
            Layer::Breaker,
            Layer::Cache,
            Layer::Cassette
        ]
    );
}

#[test]
fn client_plan_follows_config() {
    let p = client_plan(&HttpConfig::default());
    assert_eq!(p.timeout_secs, 30);
    assert_eq!(p.connect_timeout_secs, 10);
    assert_eq!(p.user_agent.as_deref(), Some("swe-edge/0.1.0"));
    assert_eq!(p.redirect_limit, Some(10));
    assert!(p.default_headers.is_none());
    let c = HttpConfig {
        follow_redirects: false,
        user_agent: None,
        ..HttpConfig::default().with_header("a", "b")
    };
    let p = client_plan(&c);
    assert_eq!(p.redirect_limit, None);
    assert_eq!(p.user_agent, None);
    assert_eq!(p.default_headers, Some(vec![("a".to_string(), "b".to_string())]));
}

#[test]
fn client_plan_skips_default_headers_the_client_rejects() {
    let c = HttpConfig::default()
        .with_header("X-Trace", "on")
        .with_header("bad name", "v")
        .with_header("x-ok", "tab\tand text")
        .with_header("x-bad-value", "line\nbreak")
        .with_header("", "empty name");
    let p = client_plan(&c);
    assert_eq!(
        p.default_headers,
        Some(vec![
            ("X-Trace".to_string(), "on".to_string()),
            ("x-ok".to_string(), "tab\tand text".to_string()),
        ])
    );
    let only_bad = HttpConfig::default().with_header("bad:name", "v");
    assert_eq!(client_plan(&only_bad).default_headers, Some(Vec::new()));
}
