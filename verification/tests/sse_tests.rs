use edge_transport_http_egress::{parse_sse_block, HttpEgressError, SseDecoder, SseEvent};

#[test]
fn test_parse_sse_block_parses_data_only_event() {
    let ev = parse_sse_block("data: hello");
    assert!(ev.is_some());
    assert_eq!(ev.unwrap().data, "hello");
}

#[test]
fn test_parse_sse_block_parses_event_type_and_id() {
    let block = "event: update\ndata: {}\nid: 42";
    let ev = parse_sse_block(block).unwrap();
    assert_eq!(ev.event.as_deref(), Some("update"));
    assert_eq!(ev.data, "{}");
    assert_eq!(ev.id.as_deref(), Some("42"));
}

#[test]
fn test_parse_sse_block_ignores_comment_lines() {
    let ev = parse_sse_block(": comment\ndata: real");
    assert_eq!(ev.unwrap().data, "real");
}

#[test]
fn test_parse_sse_block_returns_none_for_empty_block() {
    assert!(parse_sse_block("").is_none());
    assert!(parse_sse_block("   ").is_none());
}

#[test]
fn test_parse_sse_block_concatenates_multiple_data_lines() {
    let ev = parse_sse_block("data: line1\ndata: line2").unwrap();
    assert_eq!(ev.data, "line1\nline2");
}

#[test]
fn parse_block_edge_cases() {
    // Carriage returns before a newline are dropped.
    let ev = parse_sse_block("data: a\r\nid: 7\r\n").unwrap();
    assert_eq!(ev.data, "a");
    assert_eq!(ev.id.as_deref(), Some("7"));
    // All leading spaces of a value are dropped, not just one.
    assert_eq!(parse_sse_block("data:    x").unwrap().data, "x");
    // No space after the colon.
    assert_eq!(parse_sse_block("data:x").unwrap().data, "x");
    // A later event or id replaces an earlier one.
    let ev = parse_sse_block("event: a\nevent: b\ndata: d").unwrap();
    assert_eq!(ev.event.as_deref(), Some("b"));
    // Unknown fields and field names without a colon are ignored.
    assert_eq!(parse_sse_block("retry: 10\nfoo\ndata: z").unwrap().data, "z");
    // An event without data yields nothing.
    assert!(parse_sse_block("event: ping\nid: 1").is_none());
    // An empty data line followed by another: no leading newline.
    assert_eq!(parse_sse_block("data:\ndata: q").unwrap().data, "q");
    // A value keeps its own colons.
    assert_eq!(parse_sse_block("data: a:b").unwrap().data, "a:b");
    assert_eq!(SseEvent::data("x"), SseEvent { event: None, data: "x".into(), id: None });
}

#[test]
fn decoder_emits_events_from_double_newline_separated_blocks() {
    let mut d = SseDecoder::new();
    let events = d.push_bytes(b"data: hello\n\ndata: world\n\n");
    assert_eq!(events.len(), 2);
    assert_eq!(events[0].data, "hello");
    assert_eq!(events[1].data, "world");
    assert!(d.finish().is_none());
}

#[test]
fn decoder_ignores_chunk_boundaries() {
    let whole = "event: a\ndata: 1\n\n: note\n\ndata: 2\ndata: 3\n\nid: 9\ndata: tail";
    let mut one = SseDecoder::new();
    let mut all = one.push_text(whole);
    let last_one = one.finish();
    for split in 0..whole.len() {
        if !whole.is_char_boundary(split) {
            continue;
        }
        let mut two = SseDecoder::new();
        let mut evs = two.push_text(&whole[..split]);
        evs.extend(two.push_text(&whole[split..]));
        assert_eq!(evs, all, "split at {split}");
        assert_eq!(two.finish(), last_one);
    }
    assert_eq!(all.len(), 2);
    all.push(last_one.unwrap());
    assert_eq!(all[2].id.as_deref(), Some("9"));
    assert_eq!(all[2].data, "tail");
}

#[test]
fn decoder_keeps_partial_block_until_separator() {
    let mut d = SseDecoder::new();
    assert!(d.push_text("data: par").is_empty());
    assert!(d.push_text("tial\n").is_empty());
    let evs = d.push_text("\n");
    assert_eq!(evs.len(), 1);
    assert_eq!(evs[0].data, "partial");
}

#[test]
fn decoder_finish_skips_blank_rest() {
    let mut d = SseDecoder::new();
    assert!(d.push_text("data: x\n\n \n").len() == 1);
    assert!(d.finish().is_none());
    let mut d = SseDecoder::new();
    d.push_text("data: last");
    assert_eq!(d.finish().unwrap().data, "last");
}

#[test]
fn decoder_replaces_invalid_utf8() {
    let mut d = SseDecoder::new();
    let evs = d.push_bytes(b"data: a\xffb\n\n");
    assert_eq!(evs[0].data, "a\u{FFFD}b");
}

#[test]
fn stream_items_give_the_same_events_however_the_bytes_are_cut() {
    let whole: &[u8] = "data: \u{e9}t\u{e9}\n\nevent: x\ndata: 2\n\ndata: end".as_bytes();
    let mut one = SseDecoder::new();
    let mut expected = one.on_item(Ok(whole.to_vec()));
    expected.extend(one.on_end());
    assert_eq!(expected.len(), 3);
    assert_eq!(expected[0].as_ref().unwrap().data, "\u{e9}t\u{e9}");
    assert_eq!(expected[2].as_ref().unwrap().data, "end");
    let text = std::str::from_utf8(whole).unwrap();
    for a in 0..whole.len() {
        for b in a..whole.len() {
            if !text.is_char_boundary(a) || !text.is_char_boundary(b) {
                continue;
            }
            let mut d = SseDecoder::new();
            let mut got = Vec::new();
            for piece in [&whole[..a], &whole[a..b], &whole[b..]] {
                got.extend(d.on_item(Ok(piece.to_vec())));
            }
            got.extend(d.on_end());
            assert_eq!(got, expected, "cut at {a} and {b}");
        }
    }
}

#[test]
fn a_read_error_ends_the_stream_and_drops_the_unfinished_block() {
    let mut d = SseDecoder::new();
    let first = d.on_item(Ok(b"data: one\n\ndata: half".to_vec()));
    assert_eq!(first.len(), 1);
    assert_eq!(first[0].as_ref().unwrap().data, "one");
    let failed = d.on_item(Err("reset".to_string()));
    assert_eq!(failed, vec![Err(HttpEgressError::Internal("reset".to_string()))]);
}

#[test]
fn stream_end_flushes_a_last_unterminated_block() {
    let mut d = SseDecoder::new();
    assert!(d.on_item(Ok(b"id: 7\ndata: z".to_vec())).is_empty());
    let end = d.on_end();
    assert_eq!(end.len(), 1);
    let ev = end[0].as_ref().unwrap();
    assert_eq!(ev.id.as_deref(), Some("7"));
    assert_eq!(ev.data, "z");
    let blank = SseDecoder::new();
    assert!(blank.on_end().is_empty());
}
