use edge_transport_http_egress::StringMap;

#[test]
fn insert_get_replace_and_order() {
    let mut m = StringMap::new();
    assert!(m.is_empty());
    m.insert("b".into(), "1".into());
    m.insert("a".into(), "2".into());
    m.insert("b".into(), "3".into());
    assert_eq!(m.len(), 2);
    assert_eq!(m.get("b").map(|s| s.as_str()), Some("3"));
    assert_eq!(m.get("a").map(|s| s.as_str()), Some("2"));
    assert_eq!(m.get("c"), None);
    assert!(m.contains_key("a"));
    assert!(!m.contains_key("c"));
    assert_eq!(
        m.entries(),
        &vec![("b".to_string(), "3".to_string()), ("a".to_string(), "2".to_string())]
    );
    let c = m.clone();
    assert_eq!(c.into_entries(), m.entries().clone());
}
