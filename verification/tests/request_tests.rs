use std::time::Duration;

use edge_transport_http_egress::{
    plan_request, FormPart, HttpEgressError, Credentials, HttpAuth, HttpBody, HttpMethod, HttpRequest, HttpRequestBuilder,
    JsonValue, StringMap,
};

#[test]
fn auth_constructors() {
    assert_eq!(HttpAuth::bearer("t"), HttpAuth::Bearer { token: "t".into() });
    assert_eq!(
        HttpAuth::basic("u", "p"),
        HttpAuth::Basic { username: "u".into(), password: "p".into() }
    );
    assert_eq!(
        HttpAuth::api_key("x-key", "k"),
        HttpAuth::ApiKey { header: "x-key".into(), key: "k".into() }
    );
}

#[test]
fn method_names() {
    assert_eq!(HttpMethod::Get.as_str(), "GET");
    assert_eq!(HttpMethod::Post.as_str(), "POST");
    assert_eq!(HttpMethod::Put.as_str(), "PUT");
    assert_eq!(HttpMethod::Patch.as_str(), "PATCH");
    assert_eq!(HttpMethod::Delete.as_str(), "DELETE");
    assert_eq!(HttpMethod::Head.as_str(), "HEAD");
    assert_eq!(HttpMethod::Options.as_str(), "OPTIONS");
}

#[test]
fn request_builder_keeps_every_setting() {
    let r = HttpRequestBuilder::new(HttpMethod::Post, "/items")
        .with_header("a", "1")
        .with_query("q", "x")
        .with_timeout(Duration::from_secs(2))
        .with_auth(HttpAuth::bearer("tok"))
        .build();
    assert_eq!(r.method, HttpMethod::Post);
    assert_eq!(r.url, "/items");
    assert_eq!(r.headers.get("a").map(|s| s.as_str()), Some("1"));
    assert_eq!(r.query.get("q").map(|s| s.as_str()), Some("x"));
    assert_eq!(r.timeout, Some(Duration::from_secs(2)));
    assert_eq!(r.auth, Some(HttpAuth::bearer("tok")));
    assert!(r.body.is_none());
    let g = HttpRequest::get("/");
    assert_eq!(g.method, HttpMethod::Get);
    assert_eq!(g.url, "/");
    assert!(g.headers.is_empty() && g.query.is_empty() && g.auth.is_none());
}

#[test]
fn json_value_round_trip() {
    let v = serde_json::Value::Bool(true);
    assert_eq!(JsonValue::new(v.clone()).into_inner(), v);
}

#[test]
fn plan_resolves_url_and_orders_headers() {
    let req = HttpRequestBuilder::new(HttpMethod::Get, "/a")
        .with_header("h1", "v1")
        .with_header("h2", "v2")
        .with_auth(HttpAuth::api_key("x-api-key", "secret"))
        .build();
    let p = plan_request(&Some("http://host/".to_string()), req).unwrap();
    assert_eq!(p.url, "http://host/a");
    assert_eq!(
        p.headers,
        vec![
            ("h1".to_string(), "v1".to_string()),
            ("h2".to_string(), "v2".to_string()),
        ]
    );
    assert!(p.query.is_none());
    assert!(matches!(p.credentials, Credentials::ApiKey(ref h, ref k) if h == "x-api-key" && k == "secret"));
    let none = plan_request(&None, HttpRequest::get("x")).unwrap();
    assert!(matches!(none.credentials, Credentials::NoCredentials));
}

#[test]
fn plan_carries_credentials_query_and_body() {
    let mut req = HttpRequestBuilder::new(HttpMethod::Post, "https://x/y")
        .with_query("a", "b")
        .with_auth(HttpAuth::basic("u", "p"))
        .build();
    let mut form = StringMap::new();
    form.insert("f".to_string(), "1".to_string());
    req.body = Some(HttpBody::Form(form));
    let p = plan_request(&Some("http://ignored".to_string()), req).unwrap();
    assert_eq!(p.url, "https://x/y");
    assert_eq!(p.query, Some(vec![("a".to_string(), "b".to_string())]));
    assert!(matches!(p.credentials, Credentials::Basic(ref u, ref pw) if u == "u" && pw == "p"));
    assert!(matches!(p.body, Some(HttpBody::Form(_))));
    let p = plan_request(&None, HttpRequest::get("rel")).unwrap();
    assert_eq!(p.url, "rel");
    let bearer = HttpRequestBuilder::new(HttpMethod::Get, "u").with_auth(HttpAuth::bearer("t")).build();
    assert!(matches!(plan_request(&None, bearer).unwrap().credentials, Credentials::Bearer(ref t) if t == "t"));
}


fn part(content_type: Option<&str>) -> FormPart {
    FormPart {
        name: "f".to_string(),
        data: vec![1, 2],
        filename: None,
        content_type: content_type.map(|c| c.to_string()),
    }
}

#[test]
fn plan_refuses_a_part_with_an_invalid_mime_type() {
    let mut req = HttpRequest::get("/u");
    req.body = Some(HttpBody::Multipart(vec![part(Some("text/plain")), part(Some("garbage"))]));
    assert_eq!(
        plan_request(&None, req).unwrap_err(),
        HttpEgressError::InvalidRequest("builder error".to_string())
    );
    let mut ok = HttpRequest::get("/u");
    ok.body = Some(HttpBody::Multipart(vec![part(Some("image/png")), part(None)]));
    assert!(plan_request(&None, ok).is_ok());
}

#[test]
fn request_builder_keeps_the_last_value_of_each_setting() {
    let r = HttpRequestBuilder::new(HttpMethod::Get, "/x")
        .with_header("a", "1")
        .with_timeout(Duration::from_secs(1))
        .with_query("q", "first")
        .with_header("b", "2")
        .with_auth(HttpAuth::bearer("old"))
        .with_header("a", "3")
        .with_query("q", "second")
        .with_timeout(Duration::from_secs(5))
        .with_auth(HttpAuth::basic("u", "p"))
        .build();
    assert_eq!(r.method, HttpMethod::Get);
    assert_eq!(r.url, "/x");
    assert_eq!(r.headers.len(), 2);
    assert_eq!(r.headers.get("a").map(|s| s.as_str()), Some("3"));
    assert_eq!(r.headers.get("b").map(|s| s.as_str()), Some("2"));
    assert_eq!(r.query.len(), 1);
    assert_eq!(r.query.get("q").map(|s| s.as_str()), Some("second"));
    assert_eq!(r.timeout, Some(Duration::from_secs(5)));
    assert_eq!(r.auth, Some(HttpAuth::basic("u", "p")));
    assert!(r.body.is_none());
}
