//! Outbound HTTP transport: configuration, request assembly, response
//! acceptance, server-sent-event decoding and WebSocket framing.
//!
//! The modules hold the transport's logic with its contracts; sending and
//! receiving over the network is left to the caller, who hands the
//! library the values it read and applies the values it gets back.

pub mod assembly;
pub mod config;
pub mod egress;
pub mod error;
pub mod header;
pub mod request;
pub mod sse;
pub mod strmap;
pub mod text;
pub mod validator;
pub mod ws;

pub use crate::config::{ApplicationConfigBuilder, HttpConfig, HttpConfigBuilder};
pub use crate::egress::{
    accept_response, call_metrics, check_declared_length, check_status, feed_verdict,
    health_check_target, health_verdict, plan_request, resolve_url, send_failure, Credentials,
    MetricKind, MetricSample, RequestPlan,
};
pub use crate::error::{ErrorKind, HttpEgressError, HttpEgressResult, ValidationError};
pub use crate::header::{accepted_headers, header_text};
pub use crate::request::{
    FormPart, HttpAuth, HttpBody, HttpMethod, HttpRequest, HttpRequestBuilder, HttpResponse,
    JsonValue,
};
pub use crate::sse::{parse_sse_block, SseDecoder, SseEvent};
pub use crate::strmap::StringMap;
pub use crate::validator::{
    AlwaysValidConfig, DefaultValidator, HttpConfigValidator, HttpTransportSvc,
    ValidatableHttpConfig, ValidateRequest, Validator, ValidatorSvcFactory,
};
pub use crate::ws::{incoming_message, outgoing_frame, WsFrame, WsMessage, WsSender};
