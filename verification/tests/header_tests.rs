use edge_transport_http_egress::{accepted_headers, header_text};

fn pair(k: &str, v: &str) -> (String, String) {
    (k.to_string(), v.to_string())
}

#[test]
fn accepted_headers_keeps_valid_pairs_in_order() {
    let long_name = "a".repeat(70_000);
    let pairs = vec![
        pair("Accept", "text/plain"),
        pair("x(bad)", "v"),
        pair("x-utf8", "caf\u{e9}"),
        pair("x-del", "a\u{7f}b"),
        pair("!#$%&'*+-.^_`|~09AZaz", "ok"),
        pair(&long_name, "v"),
        pair("x-\u{e9}", "v"),
    ];
    let out = accepted_headers(&pairs);
    assert_eq!(
        out,
        vec![
            pair("Accept", "text/plain"),
            pair("x-utf8", "caf\u{e9}"),
            pair("!#$%&'*+-.^_`|~09AZaz", "ok"),
        ]
    );
    assert!(accepted_headers(&Vec::new()).is_empty());
}

#[test]
fn header_text_reads_visible_ascii_and_tabs_only() {
    assert_eq!(header_text(b"text/html; q=1\tx").as_deref(), Some("text/html; q=1\tx"));
    assert_eq!(header_text(b"").as_deref(), Some(""));
    assert_eq!(header_text(b"caf\xc3\xa9"), None);
    assert_eq!(header_text(b"a\x7fb"), None);
    assert_eq!(header_text(b"a\rb"), None);
}
