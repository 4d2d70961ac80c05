use edge_transport_http_egress::{
    accept_response, call_metrics, check_declared_length, check_status, feed_verdict,
    health_check_target, health_verdict, resolve_url, send_failure, ErrorKind, HttpEgressError,
    HttpMethod, MetricKind, StringMap,
};

#[test]
fn resolve_url_cases() {
    let base = Some("http://localhost".to_string());
    assert_eq!(resolve_url(&base, "/api/x"), "http://localhost/api/x");
    assert_eq!(resolve_url(&base, "api/x"), "http://localhost/api/x");
    assert_eq!(resolve_url(&Some("http://h///".to_string()), "//p"), "http://h/p");
    assert_eq!(resolve_url(&base, "https://other/p"), "https://other/p");
    assert_eq!(resolve_url(&base, "http://other/p"), "http://other/p");
    assert_eq!(resolve_url(&None, "/rel"), "/rel");
    assert_eq!(resolve_url(&base, ""), "http://localhost/");
}

#[test]
fn status_mapping() {
    let cases = [
        (401, ErrorKind::Unauthorized, "remote returned 401 Unauthorized"),
        (403, ErrorKind::Forbidden, "remote returned 403 Forbidden"),
        (404, ErrorKind::NotFound, "remote returned 404 Not Found"),
        (429, ErrorKind::RateLimited, "remote returned 429 Too Many Requests"),
        (502, ErrorKind::BadGateway, "remote returned 502 Bad Gateway"),
        (503, ErrorKind::ServiceUnavailable, "remote returned 503 Service Unavailable"),
    ];
    for (status, kind, msg) in cases {
        let e = check_status(status).unwrap_err();
        assert_eq!(e.kind(), kind);
        assert_eq!(e.message(), msg);
    }
    for ok in [200u16, 204, 301, 400, 500, 504] {
        assert!(check_status(ok).is_ok());
    }
}

#[test]
fn accept_response_checks_size_then_status() {
    let r = accept_response(200, StringMap::new(), vec![1, 2, 3], Some(3)).unwrap();
    assert_eq!(r.status, 200);
    assert_eq!(r.body, vec![1, 2, 3]);
    let e = accept_response(200, StringMap::new(), vec![0; 4], Some(3)).unwrap_err();
    assert_eq!(
        e,
        HttpEgressError::Internal("response too large: 4 bytes exceeds limit of 3 bytes".into())
    );
    // Size is checked before the status.
    let e = accept_response(404, StringMap::new(), vec![0; 4], Some(3)).unwrap_err();
    assert_eq!(e.kind(), ErrorKind::Internal);
    let e = accept_response(404, StringMap::new(), vec![], None).unwrap_err();
    assert_eq!(e, HttpEgressError::NotFound("remote returned 404 Not Found".into()));
    let mut h = StringMap::new();
    h.insert("content-type".into(), "text/plain".into());
    let r = accept_response(500, h, vec![9], None).unwrap();
    assert_eq!(r.status, 500);
    assert_eq!(r.headers.get("content-type").map(|s| s.as_str()), Some("text/plain"));
}

#[test]
fn declared_length_check() {
    assert!(check_declared_length(None, Some(10)).is_ok());
    assert!(check_declared_length(Some(100), None).is_ok());
    assert!(check_declared_length(Some(10), Some(10)).is_ok());
    assert_eq!(
        check_declared_length(Some(10485761), Some(10485760)).unwrap_err(),
        HttpEgressError::Internal(
            "response too large: content-length 10485761 bytes exceeds limit of 10485760 bytes".into()
        )
    );
}

#[test]
fn health_and_feed_verdicts() {
    assert_eq!(health_check_target(&None), None);
    assert_eq!(health_check_target(&Some("http://h".into())).as_deref(), Some("http://h"));
    assert!(health_verdict(200).is_ok());
    assert!(health_verdict(299).is_ok());
    assert_eq!(
        health_verdict(500).unwrap_err(),
        HttpEgressError::Internal("health check failed: HTTP 500".into())
    );
    assert_eq!(
        health_verdict(199).unwrap_err(),
        HttpEgressError::Internal("health check failed: HTTP 199".into())
    );
    assert!(feed_verdict(204).is_ok());
    assert_eq!(
        feed_verdict(0).unwrap_err(),
        HttpEgressError::Internal("SSE feed returned HTTP 0".into())
    );
    assert_eq!(
        feed_verdict(404).unwrap_err(),
        HttpEgressError::Internal("SSE feed returned HTTP 404".into())
    );
}

#[test]
fn transport_failures() {
    assert_eq!(send_failure(true, "t".into()), HttpEgressError::Timeout("t".into()));
    assert_eq!(
        send_failure(false, "refused".into()),
        HttpEgressError::ConnectionFailed("refused".into())
    );
}

#[test]
fn metrics_of_a_call() {
    let ok = call_metrics(HttpMethod::Get, false, 1234);
    assert_eq!(ok.len(), 2);
    assert_eq!(ok[0].kind, MetricKind::Counter);
    assert_eq!(ok[0].name, "edge_egress_requests_total");
    assert_eq!(ok[0].value, 1);
    assert_eq!(ok[0].method, "GET");
    assert_eq!(ok[1].kind, MetricKind::Histogram);
    assert_eq!(ok[1].name, "edge_egress_latency_us");
    assert_eq!(ok[1].value, 1234);
    let failed = call_metrics(HttpMethod::Post, true, 5);
    assert_eq!(failed.len(), 3);
    assert_eq!(failed[2].name, "edge_egress_errors_total");
    assert_eq!(failed[2].value, 1);
    assert_eq!(failed[2].method, "POST");
}
