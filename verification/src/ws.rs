//! WebSocket messages, the sending half of a channel, and the mapping
//! between messages and wire frames.

use tokio::sync::mpsc::UnboundedSender;
use vstd::prelude::*;
use vstd::utf8::*;
use crate::error::{ErrorKind, HttpEgressError};
use crate::text::{decode_utf8_lossy, utf8_lossy};
use vstd::string::StrSliceExecFns;

verus! {

#[verifier::external_type_specification]
#[verifier::external_body]
#[verifier::reject_recursive_types(T)]
pub struct ExUnboundedSender<T>(UnboundedSender<T>);

/// A WebSocket message: text (UTF-8 bytes) or binary.
#[derive(Clone, Debug, PartialEq, Eq)]
pub struct WsMessage {
    /// Payload bytes.
    pub data: Vec<u8>,
    /// Binary frame rather than text.
    pub binary: bool,
}

impl WsMessage {
    /// A text message carrying the UTF-8 bytes of `data`.
    pub fn text(data: &str) -> (m: Self)
        ensures
            m.data@ == encode_utf8(data@),
            !m.binary,
    {
        WsMessage { data: data.as_bytes_vec(), binary: false }
    }

    /// A binary message.
    pub fn binary(data: Vec<u8>) -> (m: Self)
        ensures
            m.data == data,
            m.binary,
    {
        WsMessage { data, binary: true }
    }
}

/// Sends on an unbounded channel (`UnboundedSender::send`). Per its
/// documentation it fails only when the receiving half is closed, and
/// then hands the value back; when the receiver is closed is not stated.
#[verifier::external_body]
pub(crate) fn channel_send<T>(tx: &UnboundedSender<T>, value: T) -> (r: Result<(), T>)
    ensures
        r matches Err(v) ==> v == value,
{
    tx.send(value).map_err(|e| e.0)
}

/// `r` is an outcome of queueing `msg` on `tx` with
/// `UnboundedSender::send`: this message, on this channel, was handed to
/// the send, and `r` is what it gave back.
pub closed spec fn queued_on(tx: UnboundedSender<WsMessage>, msg: WsMessage, r: Result<(), WsMessage>) -> bool {
    call_ensures(channel_send::<WsMessage>, (&tx, msg), r)
}

/// The sending half of a WebSocket channel.
#[derive(Debug)]
pub struct WsSender(UnboundedSender<WsMessage>);

impl WsSender {
    /// The channel written to.
    pub closed spec fn channel(&self) -> UnboundedSender<WsMessage> {
        self.0
    }

    /// Wraps an `mpsc` sender whose messages are written to the socket.
    pub fn new(inner: UnboundedSender<WsMessage>) -> (s: Self)
        ensures
            s.channel() == inner,
    {
        WsSender(inner)
    }

    /// Queues `msg` for the remote peer on this sender's channel; if the
    /// channel is closed the message is handed back unchanged. The tokio
    /// channel's queue has no model here, so the contract does not say that
    /// the message is queued exactly once.
    pub fn send(&self, msg: WsMessage) -> (r: Result<(), WsMessage>)
        ensures
            queued_on(self.channel(), msg, r),
            r matches Err(m) ==> m == msg,
    {
        channel_send(&self.0, msg)
    }
}

/// A frame as read from or written to the socket.
#[derive(Clone, Debug, PartialEq, Eq)]
pub enum WsFrame {
    /// A text frame.
    Text(String),
    /// A binary frame.
    Binary(Vec<u8>),
    /// A close frame.
    Close,
    /// Any other frame (ping, pong, raw).
    Other,
}

/// The frame written for a message: binary as is, text decoded from its
/// bytes with invalid UTF-8 replaced.
pub fn outgoing_frame(msg: WsMessage) -> (f: WsFrame)
    ensures
        msg.binary ==> f == WsFrame::Binary(msg.data),
        !msg.binary ==> (f matches WsFrame::Text(t) && t@ == utf8_lossy(msg.data@)),
        !msg.binary && valid_utf8(msg.data@) ==> (f matches WsFrame::Text(t) && t@ == decode_utf8(msg.data@)),
{
    if msg.binary {
        WsFrame::Binary(msg.data)
    } else {
        WsFrame::Text(decode_utf8_lossy(msg.data.as_slice()))
    }
}

/// What a frame read from the socket yields: a text or binary message,
/// nothing for close and control frames, and a failed connection for a
/// read error.
pub fn incoming_message(item: Result<WsFrame, String>) -> (r: Option<Result<WsMessage, HttpEgressError>>)
    ensures
        match item {
            Ok(WsFrame::Text(t)) => r matches Some(Ok(m)) && !m.binary && m.data@ == encode_utf8(t@),
            Ok(WsFrame::Binary(b)) => r matches Some(Ok(m)) && m.binary && m.data == b,
            Ok(WsFrame::Close) => r is None,
            Ok(WsFrame::Other) => r is None,
            Err(msg) => r matches Some(Err(e)) && e.view_parts() == (ErrorKind::ConnectionFailed, msg@),
        },
{
    match item {
        Ok(WsFrame::Text(t)) => Some(Ok(WsMessage::text(t.as_str()))),
        Ok(WsFrame::Binary(b)) => Some(Ok(WsMessage::binary(b))),
        Ok(WsFrame::Close) => None,
        Ok(WsFrame::Other) => None,
        Err(msg) => Some(Err(HttpEgressError::ConnectionFailed(msg))),
    }
}

/// A text message goes out as a text frame carrying exactly its text.
pub proof fn law_text_round_trip(s: Seq<char>)
    ensures
        valid_utf8(encode_utf8(s)),
        decode_utf8(encode_utf8(s)) == s,
{
    encode_utf8_valid_utf8(s);
    encode_utf8_decode_utf8(s);
}

} // verus!
