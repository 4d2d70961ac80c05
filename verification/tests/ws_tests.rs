use edge_transport_http_egress::{
    incoming_message, outgoing_frame, HttpEgressError, WsFrame, WsMessage, WsSender,
};

#[test]
fn message_constructors() {
    let t = WsMessage::text("héllo");
    assert_eq!(t.data, "héllo".as_bytes().to_vec());
    assert!(!t.binary);
    let b = WsMessage::binary(vec![0, 255]);
    assert_eq!(b.data, vec![0, 255]);
    assert!(b.binary);
}

#[test]
fn sender_hands_back_message_when_closed() {
    let (tx, mut rx) = tokio::sync::mpsc::unbounded_channel();
    let s = WsSender::new(tx);
    assert_eq!(s.send(WsMessage::text("a")), Ok(()));
    assert_eq!(rx.try_recv().unwrap(), WsMessage::text("a"));
    drop(rx);
    assert_eq!(s.send(WsMessage::binary(vec![7])), Err(WsMessage::binary(vec![7])));
}

#[test]
fn frames_round_trip() {
    assert_eq!(outgoing_frame(WsMessage::text("ü")), WsFrame::Text("ü".into()));
    assert_eq!(outgoing_frame(WsMessage::binary(vec![1])), WsFrame::Binary(vec![1]));
    let lossy = WsMessage { data: vec![b'a', 0xff], binary: false };
    assert_eq!(outgoing_frame(lossy), WsFrame::Text("a\u{FFFD}".into()));
    assert_eq!(
        incoming_message(Ok(WsFrame::Text("x".into()))),
        Some(Ok(WsMessage::text("x")))
    );
    assert_eq!(
        incoming_message(Ok(WsFrame::Binary(vec![3]))),
        Some(Ok(WsMessage::binary(vec![3])))
    );
    assert_eq!(incoming_message(Ok(WsFrame::Close)), None);
    assert_eq!(incoming_message(Ok(WsFrame::Other)), None);
    assert_eq!(
        incoming_message(Err("reset".into())),
        Some(Err(HttpEgressError::ConnectionFailed("reset".into())))
    );
}
