//! Requests and responses: methods, credentials, bodies, the request
//! builder and the response value.

use std::time::Duration;
use vstd::prelude::*;
use crate::strmap::StringMap;

verus! {

#[verifier::external_type_specification]
#[verifier::external_body]
pub struct ExJsonValueInner(serde_json::Value);

/// HTTP request methods.
#[derive(Clone, Copy, Debug, PartialEq, Eq)]
pub enum HttpMethod {
    Get,
    Post,
    Put,
    Patch,
    Delete,
    Head,
    Options,
}

impl HttpMethod {
    /// The method's name on the wire.
    pub open spec fn name(self) -> Seq<char> {
        match self {
            HttpMethod::Get => seq!['G', 'E', 'T'],
            HttpMethod::Post => seq!['P', 'O', 'S', 'T'],
            HttpMethod::Put => seq!['P', 'U', 'T'],
            HttpMethod::Patch => seq!['P', 'A', 'T', 'C', 'H'],
            HttpMethod::Delete => seq!['D', 'E', 'L', 'E', 'T', 'E'],
            HttpMethod::Head => seq!['H', 'E', 'A', 'D'],
            HttpMethod::Options => seq!['O', 'P', 'T', 'I', 'O', 'N', 'S'],
        }
    }

    /// The method's name on the wire (what its `Display` prints).
    pub fn as_str(&self) -> (s: &'static str)
        ensures
            s@ == self.name(),
    {
        match self {
            HttpMethod::Get => {
                proof { reveal_strlit("GET"); }
                "GET"
            },
            HttpMethod::Post => {
                proof { reveal_strlit("POST"); }
                "POST"
            },
            HttpMethod::Put => {
                proof { reveal_strlit("PUT"); }
                "PUT"
            },
            HttpMethod::Patch => {
                proof { reveal_strlit("PATCH"); }
                "PATCH"
            },
            HttpMethod::Delete => {
                proof { reveal_strlit("DELETE"); }
                "DELETE"
            },
            HttpMethod::Head => {
                proof { reveal_strlit("HEAD"); }
                "HEAD"
            },
            HttpMethod::Options => {
                proof { reveal_strlit("OPTIONS"); }
                "OPTIONS"
            },
        }
    }
}

/// Credentials attached to a request.
#[derive(Clone, Debug, PartialEq, Eq)]
pub enum HttpAuth {
    /// No credentials.
    NoCredentials,
    /// `Authorization: Bearer <token>`.
    Bearer { token: String },
    /// HTTP basic authentication.
    Basic { username: String, password: String },
    /// A key sent in a header of the caller's choice.
    ApiKey { header: String, key: String },
}

impl HttpAuth {
    /// A `Bearer` credential.
    pub fn bearer(token: &str) -> (a: Self)
        ensures
            a matches HttpAuth::Bearer { token: t } && t@ == token@,
    {
        HttpAuth::Bearer { token: token.to_owned() }
    }

    /// A `Basic` credential.
    pub fn basic(username: &str, password: &str) -> (a: Self)
        ensures
            a matches HttpAuth::Basic { username: u, password: p } && u@ == username@ && p@ == password@,
    {
        HttpAuth::Basic { username: username.to_owned(), password: password.to_owned() }
    }

    /// An `ApiKey` credential sent in header `header`.
    pub fn api_key(header: &str, key: &str) -> (a: Self)
        ensures
            a matches HttpAuth::ApiKey { header: h, key: k } && h@ == header@ && k@ == key@,
    {
        HttpAuth::ApiKey { header: header.to_owned(), key: key.to_owned() }
    }
}

/// A JSON document carried as a request body.
#[derive(Debug, PartialEq)]
pub struct JsonValue(serde_json::Value);

impl JsonValue {
    /// The document held.
    pub closed spec fn inner(&self) -> serde_json::Value {
        self.0
    }

    /// Wraps a `serde_json::Value`.
    pub fn new(value: serde_json::Value) -> (j: Self)
        ensures
            j.inner() == value,
    {
        JsonValue(value)
    }

    /// Unwraps the `serde_json::Value`.
    pub fn into_inner(self) -> (v: serde_json::Value)
        ensures
            v == self.inner(),
    {
        self.0
    }
}

/// One part of a multipart body.
#[derive(Clone, Debug)]
pub struct FormPart {
    /// Field name.
    pub name: String,
    /// Content.
    pub data: Vec<u8>,
    /// File name, if the part is a file.
    pub filename: Option<String>,
    /// MIME type, if given.
    pub content_type: Option<String>,
}

/// A request body.
#[derive(Debug)]
pub enum HttpBody {
    /// A JSON document.
    Json(JsonValue),
    /// Raw bytes.
    Raw(Vec<u8>),
    /// URL-encoded form fields.
    Form(StringMap),
    /// A multipart form.
    Multipart(Vec<FormPart>),
}

/// An outbound request.
#[derive(Debug)]
pub struct HttpRequest {
    /// The method.
    pub method: HttpMethod,
    /// Absolute URL, or a path resolved against the configured base URL.
    pub url: String,
    /// Request headers.
    pub headers: StringMap,
    /// Query parameters.
    pub query: StringMap,
    /// The body, if any.
    pub body: Option<HttpBody>,
    /// Per-request timeout, if any.
    pub timeout: Option<Duration>,
    /// Credentials, if any.
    pub auth: Option<HttpAuth>,
}

impl HttpRequest {
    /// A bare `GET` of `url`.
    pub fn get(url: &str) -> (r: Self)
        ensures
            r.method == HttpMethod::Get,
            r.url@ == url@,
            r.headers@ == Map::<Seq<char>, Seq<char>>::empty(),
            r.query@ == Map::<Seq<char>, Seq<char>>::empty(),
            r.body is None,
            r.timeout is None,
            r.auth is None,
    {
        HttpRequestBuilder::new(HttpMethod::Get, url).build()
    }
}

/// Builder for `HttpRequest`.
#[derive(Debug)]
pub struct HttpRequestBuilder {
    /// The method.
    pub method: HttpMethod,
    /// The URL.
    pub url: String,
    /// Headers added so far.
    pub headers: StringMap,
    /// Query parameters added so far.
    pub query: StringMap,
    /// The body, if any.
    pub body: Option<HttpBody>,
    /// Timeout, if set.
    pub timeout: Option<Duration>,
    /// Credentials, if set.
    pub auth: Option<HttpAuth>,
}

impl HttpRequestBuilder {
    /// A builder for `method` on `url` with nothing else set.
    pub fn new(method: HttpMethod, url: &str) -> (b: Self)
        ensures
            builder_shape(b) == new_shape(method, url@),
            b.method == method,
            b.url@ == url@,
            b.headers@ == Map::<Seq<char>, Seq<char>>::empty(),
            b.query@ == Map::<Seq<char>, Seq<char>>::empty(),
            b.body is None,
            b.timeout is None,
            b.auth is None,
    {
        HttpRequestBuilder {
            method,
            url: url.to_owned(),
            headers: StringMap::new(),
            query: StringMap::new(),
            body: None,
            timeout: None,
            auth: None,
        }
    }

    /// Adds a header.
    pub fn with_header(self, name: &str, value: &str) -> (b: Self)
        ensures
            builder_shape(b) == apply_call(builder_shape(self), BuilderCall::Header(name@, value@)),
            b.headers@ == self.headers@.insert(name@, value@),
            b.method == self.method,
            b.url == self.url,
            b.query@ == self.query@,
            b.body == self.body,
            b.timeout == self.timeout,
            b.auth == self.auth,
    {
        let mut b = self;
        b.headers.insert(name.to_owned(), value.to_owned());
        b
    }

    /// Adds a query parameter.
    pub fn with_query(self, name: &str, value: &str) -> (b: Self)
        ensures
            builder_shape(b) == apply_call(builder_shape(self), BuilderCall::Query(name@, value@)),
            b.query@ == self.query@.insert(name@, value@),
            b.method == self.method,
            b.url == self.url,
            b.headers@ == self.headers@,
            b.body == self.body,
            b.timeout == self.timeout,
            b.auth == self.auth,
    {
        let mut b = self;
        b.query.insert(name.to_owned(), value.to_owned());
        b
    }

    /// Sets the request timeout.
    pub fn with_timeout(self, timeout: Duration) -> (b: Self)
        ensures
            builder_shape(b) == apply_call(builder_shape(self), BuilderCall::Timeout(timeout)),
            b.timeout == Some(timeout),
            b.method == self.method,
            b.url == self.url,
            b.headers == self.headers,
            b.query == self.query,
            b.body == self.body,
            b.auth == self.auth,
    {
        let mut b = self;
        b.timeout = Some(timeout);
        b
    }

    /// Attaches credentials, applied when the request is sent.
    pub fn with_auth(self, auth: HttpAuth) -> (b: Self)
        ensures
            builder_shape(b) == apply_call(builder_shape(self), BuilderCall::Auth(auth)),
            b.auth == Some(auth),
            b.method == self.method,
            b.url == self.url,
            b.headers == self.headers,
            b.query == self.query,
            b.body == self.body,
            b.timeout == self.timeout,
    {
        let mut b = self;
        b.auth = Some(auth);
        b
    }

    /// The request, with every setting of the builder.
    pub fn build(self) -> (r: HttpRequest)
        ensures
            request_shape(r) == builder_shape(self),
            r.method == self.method,
            r.url == self.url,
            r.headers == self.headers,
            r.query == self.query,
            r.body == self.body,
            r.timeout == self.timeout,
            r.auth == self.auth,
    {
        HttpRequest {
            method: self.method,
            url: self.url,
            headers: self.headers,
            query: self.query,
            body: self.body,
            timeout: self.timeout,
            auth: self.auth,
        }
    }
}

/// A buffered response.
#[derive(Clone, Debug)]
pub struct HttpResponse {
    /// Status code.
    pub status: u16,
    /// Response headers.
    pub headers: StringMap,
    /// Body bytes.
    pub body: Vec<u8>,
}

/// A request as the builder's calls shape it: method, URL, headers, query,
/// timeout, credentials, and whether no body is set.
pub type RequestShape = (
    HttpMethod,
    Seq<char>,
    Map<Seq<char>, Seq<char>>,
    Map<Seq<char>, Seq<char>>,
    Option<Duration>,
    Option<HttpAuth>,
    bool,
);

/// The shape of a builder.
pub open spec fn builder_shape(b: HttpRequestBuilder) -> RequestShape {
    (b.method, b.url@, b.headers@, b.query@, b.timeout, b.auth, b.body is None)
}

/// The shape of a request.
pub open spec fn request_shape(r: HttpRequest) -> RequestShape {
    (r.method, r.url@, r.headers@, r.query@, r.timeout, r.auth, r.body is None)
}

/// The shape of `HttpRequestBuilder::new(method, url)`.
pub open spec fn new_shape(method: HttpMethod, url: Seq<char>) -> RequestShape {
    (method, url, Map::empty(), Map::empty(), None, None, true)
}

/// A setter call on the request builder.
pub enum BuilderCall {
    /// `with_header(name, value)`.
    Header(Seq<char>, Seq<char>),
    /// `with_query(name, value)`.
    Query(Seq<char>, Seq<char>),
    /// `with_timeout(timeout)`.
    Timeout(Duration),
    /// `with_auth(auth)`.
    Auth(HttpAuth),
}

/// The shape after one call.
pub open spec fn apply_call(st: RequestShape, c: BuilderCall) -> RequestShape {
    match c {
        BuilderCall::Header(k, v) => (st.0, st.1, st.2.insert(k, v), st.3, st.4, st.5, st.6),
        BuilderCall::Query(k, v) => (st.0, st.1, st.2, st.3.insert(k, v), st.4, st.5, st.6),
        BuilderCall::Timeout(t) => (st.0, st.1, st.2, st.3, Some(t), st.5, st.6),
        BuilderCall::Auth(a) => (st.0, st.1, st.2, st.3, st.4, Some(a), st.6),
    }
}

/// The shape after the calls `cs`, in order.
pub open spec fn apply_calls(st: RequestShape, cs: Seq<BuilderCall>) -> RequestShape
    decreases cs.len(),
{
    if cs.len() == 0 {
        st
    } else {
        apply_call(apply_calls(st, cs.drop_last()), cs.last())
    }
}

/// The value of the last `with_header` call for `k`, if any.
pub open spec fn last_header(cs: Seq<BuilderCall>, k: Seq<char>) -> Option<Seq<char>>
    decreases cs.len(),
{
    if cs.len() == 0 {
        None
    } else {
        match cs.last() {
            BuilderCall::Header(k2, v) => if k2 == k { Some(v) } else { last_header(cs.drop_last(), k) },
            _ => last_header(cs.drop_last(), k),
        }
    }
}

/// The value of the last `with_query` call for `k`, if any.
pub open spec fn last_query(cs: Seq<BuilderCall>, k: Seq<char>) -> Option<Seq<char>>
    decreases cs.len(),
{
    if cs.len() == 0 {
        None
    } else {
        match cs.last() {
            BuilderCall::Query(k2, v) => if k2 == k { Some(v) } else { last_query(cs.drop_last(), k) },
            _ => last_query(cs.drop_last(), k),
        }
    }
}

/// The timeout of the last `with_timeout` call, if any.
pub open spec fn last_timeout(cs: Seq<BuilderCall>) -> Option<Duration>
    decreases cs.len(),
{
    if cs.len() == 0 {
        None
    } else {
        match cs.last() {
            BuilderCall::Timeout(t) => Some(t),
            _ => last_timeout(cs.drop_last()),
        }
    }
}

/// The credentials of the last `with_auth` call, if any.
pub open spec fn last_auth(cs: Seq<BuilderCall>) -> Option<HttpAuth>
    decreases cs.len(),
{
    if cs.len() == 0 {
        None
    } else {
        match cs.last() {
            BuilderCall::Auth(a) => Some(a),
            _ => last_auth(cs.drop_last()),
        }
    }
}

/// A header map holds, for each name, the value the calls gave it last.
pub open spec fn holds_last_headers(m: Map<Seq<char>, Seq<char>>, cs: Seq<BuilderCall>) -> bool {
    forall|k: Seq<char>| #![trigger m.dom().contains(k)] #![trigger last_header(cs, k)]
        (m.dom().contains(k) <==> last_header(cs, k) is Some)
            && (last_header(cs, k) matches Some(v) ==> m[k] == v)
}

/// A query map holds, for each name, the value the calls gave it last.
pub open spec fn holds_last_queries(m: Map<Seq<char>, Seq<char>>, cs: Seq<BuilderCall>) -> bool {
    forall|k: Seq<char>| #![trigger m.dom().contains(k)] #![trigger last_query(cs, k)]
        (m.dom().contains(k) <==> last_query(cs, k) is Some)
            && (last_query(cs, k) matches Some(v) ==> m[k] == v)
}

/// After any sequence of setter calls on `HttpRequestBuilder::new(method,
/// url)`, the request built keeps the method and URL, has no body, holds
/// for each header and query name the value given last, and the last
/// timeout and credentials set (none if never set).
pub proof fn law_builder_after_calls(method: HttpMethod, url: Seq<char>, cs: Seq<BuilderCall>)
    ensures
        apply_calls(new_shape(method, url), cs).0 == method,
        apply_calls(new_shape(method, url), cs).1 == url,
        holds_last_headers(apply_calls(new_shape(method, url), cs).2, cs),
        holds_last_queries(apply_calls(new_shape(method, url), cs).3, cs),
        apply_calls(new_shape(method, url), cs).4 == last_timeout(cs),
        apply_calls(new_shape(method, url), cs).5 == last_auth(cs),
        apply_calls(new_shape(method, url), cs).6,
    decreases cs.len(),
{
    if cs.len() > 0 {
        law_builder_after_calls(method, url, cs.drop_last());
        let prev = apply_calls(new_shape(method, url), cs.drop_last());
        let cur = apply_calls(new_shape(method, url), cs);
        assert(cur == apply_call(prev, cs.last()));
        assert forall|k: Seq<char>| (cur.2.dom().contains(k) <==> last_header(cs, k) is Some)
            && (last_header(cs, k) matches Some(v) ==> cur.2[k] == v) by {
            assert(prev.2.dom().contains(k) <==> last_header(cs.drop_last(), k) is Some);
            if let Some(v) = last_header(cs.drop_last(), k) {
                assert(prev.2[k] == v);
            }
        }
        assert forall|k: Seq<char>| (cur.3.dom().contains(k) <==> last_query(cs, k) is Some)
            && (last_query(cs, k) matches Some(v) ==> cur.3[k] == v) by {
            assert(prev.3.dom().contains(k) <==> last_query(cs.drop_last(), k) is Some);
            if let Some(v) = last_query(cs.drop_last(), k) {
                assert(prev.3[k] == v);
            }
            match cs.last() {
                BuilderCall::Query(k2, v2) => {
                    assert(cur.3 == prev.3.insert(k2, v2));
                },
                _ => {
                    assert(cur.3 == prev.3);
                },
            }
        }
    }
}

} // verus!
