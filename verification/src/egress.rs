//! The decisions of the HTTP client: URL resolution, request assembly,
//! response acceptance, health checks and the metrics of a call.

use std::time::Duration;
use vstd::prelude::*;
use vstd::string::*;
use crate::error::{ErrorKind, HttpEgressError, HttpEgressResult};
use crate::request::{FormPart, HttpAuth, HttpBody, HttpMethod, HttpRequest, HttpResponse};
use crate::sse::opt_chars;
use crate::strmap::{pair_views, StringMap};
use crate::text::{chars_of, decimal_text, push_char, push_decimal, range_eq, string_from_range};

verus! {

// ---------------------------------------------------------------------
// URL resolution.
// ---------------------------------------------------------------------

/// `s` begins with `p`.
pub open spec fn starts_with(s: Seq<char>, p: Seq<char>) -> bool {
    p.len() <= s.len() && s.take(p.len() as int) == p
}

/// `u` names its own scheme (`http://` or `https://`).
pub open spec fn is_absolute_url(u: Seq<char>) -> bool {
    starts_with(u, "http://"@) || starts_with(u, "https://"@)
}

/// `s` without its trailing `/` characters.
pub open spec fn trim_end_slashes(s: Seq<char>) -> Seq<char>
    decreases s.len(),
{
    if s.len() > 0 && s.last() == '/' {
        trim_end_slashes(s.drop_last())
    } else {
        s
    }
}

/// `s` without its leading `/` characters.
pub open spec fn trim_start_slashes(s: Seq<char>) -> Seq<char>
    decreases s.len(),
{
    if s.len() > 0 && s[0] == '/' {
        trim_start_slashes(s.drop_first())
    } else {
        s
    }
}

/// The URL a request for `url` goes to: with a base URL and a relative
/// `url`, the base without trailing slashes, one `/`, and `url` without
/// leading slashes; otherwise `url` itself.
pub open spec fn resolved_url(base: Option<Seq<char>>, url: Seq<char>) -> Seq<char> {
    match base {
        Some(b) => if is_absolute_url(url) {
            url
        } else {
            trim_end_slashes(b) + seq!['/'] + trim_start_slashes(url)
        },
        None => url,
    }
}

/// An absolute URL is used as given, whatever the base URL.
pub proof fn law_absolute_url_used_as_given(base: Option<Seq<char>>, url: Seq<char>)
    requires
        is_absolute_url(url),
    ensures
        resolved_url(base, url) == url,
{
}

/// A relative URL under a base URL lands under that base: the result
/// begins with the base without its trailing slashes, then one `/`.
pub proof fn law_relative_url_under_base(base: Seq<char>, url: Seq<char>)
    requires
        !is_absolute_url(url),
    ensures
        starts_with(resolved_url(Some(base), url), trim_end_slashes(base) + seq!['/']),
{
    let p = trim_end_slashes(base) + seq!['/'];
    assert(resolved_url(Some(base), url).take(p.len() as int) =~= p);
}

/// `v` begins with the characters of `p`.
fn has_prefix(v: &Vec<char>, p: &str) -> (b: bool)
    ensures
        b == starts_with(v@, p@),
{
    let pv = chars_of(p);
    if pv.len() > v.len() {
        return false;
    }
    let r = range_eq(v, 0, pv.len(), &pv);
    assert(v@.take(pv@.len() as int) == v@.subrange(0, pv@.len() as int));
    r
}

/// Resolves a request URL against the configured base URL.
pub fn resolve_url(base_url: &Option<String>, url: &str) -> (r: String)
    ensures
        r@ == resolved_url(opt_chars(*base_url), url@),
{
    match base_url {
        None => url.to_owned(),
        Some(base) => {
            let u = chars_of(url);
            if has_prefix(&u, "http://") || has_prefix(&u, "https://") {
                return url.to_owned();
            }
            let b = chars_of(base.as_str());
            let mut end = b.len();
            assert(b@.take(end as int) =~= b@);
            while end > 0 && b[end - 1] == '/'
                invariant
                    end <= b.len(),
                    trim_end_slashes(b@) == trim_end_slashes(b@.take(end as int)),
                decreases end,
            {
                assert(b@.take(end as int).drop_last() =~= b@.take(end - 1));
                end = end - 1;
            }
            assert(trim_end_slashes(b@.take(end as int)) == b@.take(end as int));
            let mut start: usize = 0;
            assert(u@.skip(0) =~= u@);
            while start < u.len() && u[start] == '/'
                invariant
                    start <= u.len(),
                    trim_start_slashes(u@) == trim_start_slashes(u@.skip(start as int)),
                decreases u.len() - start,
            {
                assert(u@.skip(start as int).drop_first() =~= u@.skip(start + 1));
                start = start + 1;
            }
            assert(trim_start_slashes(u@.skip(start as int)) == u@.skip(start as int));
            let mut out = string_from_range(&b, 0, end);
            push_char(&mut out, '/');
            let tail = string_from_range(&u, start, u.len());
            out.append(tail.as_str());
            assert(b@.subrange(0, end as int) =~= b@.take(end as int));
            assert(u@.subrange(start as int, u@.len() as int) =~= u@.skip(start as int));
            out
        },
    }
}

// ---------------------------------------------------------------------
// Request assembly.
// ---------------------------------------------------------------------

/// Credentials that the HTTP client applies itself.
#[derive(Debug)]
pub enum Credentials {
    /// None to apply.
    NoCredentials,
    /// `Authorization: Bearer <token>`.
    Bearer(String),
    /// HTTP basic authentication with a user name and password.
    Basic(String, String),
    /// A key sent in the named header.
    ApiKey(String, String),
}

/// Everything the HTTP client is told to send for one request, in the
/// order it is told: headers, query, body, timeout, then credentials.
#[derive(Debug)]
pub struct RequestPlan {
    /// The method.
    pub method: HttpMethod,
    /// The resolved URL.
    pub url: String,
    /// Headers to add, in order.
    pub headers: Vec<(String, String)>,
    /// Query parameters to add, if there are any.
    pub query: Option<Vec<(String, String)>>,
    /// The body, if any.
    pub body: Option<HttpBody>,
    /// The timeout, if any.
    pub timeout: Option<Duration>,
    /// Credentials for the client to apply.
    pub credentials: Credentials,
}

/// `c` is what the client must apply for `auth`.
pub open spec fn credentials_for(auth: Option<HttpAuth>, c: Credentials) -> bool {
    match auth {
        Some(HttpAuth::Bearer { token }) => c matches Credentials::Bearer(t) && t@ == token@,
        Some(HttpAuth::Basic { username, password }) => c matches Credentials::Basic(u, p) && u@ == username@ && p@ == password@,
        Some(HttpAuth::ApiKey { header, key }) => c matches Credentials::ApiKey(h, k) && h@ == header@ && k@ == key@,
        _ => c is NoCredentials,
    }
}

/// `p` is what to send for `request` under the base URL `base`.
pub open spec fn is_plan_for(base: Option<Seq<char>>, request: HttpRequest, p: RequestPlan) -> bool {
    &&& p.method == request.method
    &&& p.url@ == resolved_url(base, request.url@)
    &&& pair_views(p.headers@) == request.headers.pairs()
    &&& request.query.pairs().len() == 0 ==> p.query is None
    &&& request.query.pairs().len() > 0 ==> (p.query matches Some(q) && pair_views(q@) == request.query.pairs())
    &&& p.body == request.body
    &&& p.timeout == request.timeout
    &&& credentials_for(request.auth, p.credentials)
}

/// A plan sends the request as it was built: its method, body and timeout
/// unchanged, its headers in order, and its URL resolved against the base.
pub proof fn law_plan_keeps_request(base: Option<Seq<char>>, request: HttpRequest, p: RequestPlan)
    requires
        is_plan_for(base, request, p),
    ensures
        p.method == request.method,
        p.body == request.body,
        p.timeout == request.timeout,
        pair_views(p.headers@) == request.headers.pairs(),
        p.url@ == resolved_url(base, request.url@),
{
}

/// Whether reqwest accepts `ct` as the MIME type of a multipart part
/// (`Part::mime_str`, a parse by the `mime` crate of `ct` alone).
pub uninterp spec fn mime_accepted(ct: Seq<char>) -> bool;

/// Checks a part's MIME type with reqwest's `Part::mime_str`, applied to an
/// empty part (the check does not read the content). Its result is named
/// by `mime_accepted`; per reqwest's source a refusal is a builder error,
/// whose message is `builder error`.
#[verifier::external_body]
fn check_part_mime(ct: &str) -> (r: Result<(), String>)
    ensures
        r is Ok <==> mime_accepted(ct@),
        r matches Err(m) ==> m@ == "builder error"@,
{
    reqwest::multipart::Part::bytes(Vec::<u8>::new()).mime_str(ct).map(|_| ()).map_err(|e| e.to_string())
}

/// A part whose MIME type, if given, reqwest accepts.
pub open spec fn part_mime_ok(p: FormPart) -> bool {
    match p.content_type {
        Some(ct) => mime_accepted(ct@),
        None => true,
    }
}

/// A body reqwest can assemble: every multipart part has an accepted MIME
/// type; other bodies always can.
pub open spec fn body_assemblable(body: Option<HttpBody>) -> bool {
    match body {
        Some(HttpBody::Multipart(parts)) => parts_mime_ok(parts@),
        _ => true,
    }
}

/// Every part has an accepted MIME type, if it gives one.
pub open spec fn parts_mime_ok(parts: Seq<FormPart>) -> bool {
    forall|i: int| 0 <= i < parts.len() ==> part_mime_ok(#[trigger] parts[i])
}

fn check_body(body: &Option<HttpBody>) -> (r: Result<(), String>)
    ensures
        r is Ok <==> body_assemblable(*body),
        r matches Err(m) ==> m@ == "builder error"@,
{
    match body {
        Some(HttpBody::Multipart(parts)) => {
            let mut i: usize = 0;
            while i < parts.len()
                invariant
                    i <= parts.len(),
                    *body == Some(HttpBody::Multipart(*parts)),
                    forall|j: int| 0 <= j < i ==> part_mime_ok(#[trigger] parts@[j]),
                decreases parts.len() - i,
            {
                match &parts[i].content_type {
                    Some(ct) => {
                        let c = check_part_mime(ct.as_str());
                        if let Err(m) = c {
                            assert(!part_mime_ok(parts@[i as int]));
                            assert(!parts_mime_ok(parts@));
                            return Err(m);
                        }
                    },
                    None => {},
                }
                i = i + 1;
            }
            Ok(())
        },
        _ => Ok(()),
    }
}

/// What to send for `request`, with its URL resolved against `base_url`;
/// an invalid request (a multipart part with a MIME type reqwest refuses)
/// is refused.
pub fn plan_request(base_url: &Option<String>, request: HttpRequest) -> (r: HttpEgressResult<RequestPlan>)
    ensures
        r is Ok <==> body_assemblable(request.body),
        r matches Err(e) ==> e.view_parts() == (ErrorKind::InvalidRequest, "builder error"@),
        r matches Ok(p) ==> is_plan_for(opt_chars(*base_url), request, p),
        r matches Ok(p) ==> p.method == request.method,
        r matches Ok(p) ==> p.body == request.body,
        r matches Ok(p) ==> p.timeout == request.timeout,
{
    if let Err(m) = check_body(&request.body) {
        return Err(HttpEgressError::InvalidRequest(m));
    }
    let url = resolve_url(base_url, request.url.as_str());
    let query_empty = request.query.is_empty();
    let query = if query_empty {
        None
    } else {
        Some(request.query.into_entries())
    };
    let headers = request.headers.into_entries();
    let credentials = match request.auth {
        None => Credentials::NoCredentials,
        Some(HttpAuth::NoCredentials) => Credentials::NoCredentials,
        Some(HttpAuth::Bearer { token }) => Credentials::Bearer(token),
        Some(HttpAuth::Basic { username, password }) => Credentials::Basic(username, password),
        Some(HttpAuth::ApiKey { header, key }) => Credentials::ApiKey(header, key),
    };
    Ok(RequestPlan {
        method: request.method,
        url,
        headers,
        query,
        body: request.body,
        timeout: request.timeout,
        credentials,
    })
}

/// What a transport failure becomes: a timeout, or a failed connection.
pub fn send_failure(timed_out: bool, message: String) -> (e: HttpEgressError)
    ensures
        e.view_parts() == (if timed_out { ErrorKind::Timeout } else { ErrorKind::ConnectionFailed }, message@),
{
    if timed_out {
        HttpEgressError::Timeout(message)
    } else {
        HttpEgressError::ConnectionFailed(message)
    }
}

// ---------------------------------------------------------------------
// Response acceptance.
// ---------------------------------------------------------------------

/// Message for a declared length over the cap.
pub open spec fn declared_too_large_message(len: nat, max: nat) -> Seq<char> {
    "response too large: content-length "@ + decimal_text(len) + " bytes exceeds limit of "@
        + decimal_text(max) + " bytes"@
}

/// Message for a body over the cap.
pub open spec fn body_too_large_message(len: nat, max: nat) -> Seq<char> {
    "response too large: "@ + decimal_text(len) + " bytes exceeds limit of "@ + decimal_text(max)
        + " bytes"@
}

/// Rejection of a declared `content-length` over the cap, before the body
/// is read.
pub open spec fn declared_length_failure(content_length: Option<u64>, max: Option<usize>) -> Option<(ErrorKind, Seq<char>)> {
    match (content_length, max) {
        (Some(len), Some(m)) => if (len as usize) > m {
            Some((ErrorKind::Internal, declared_too_large_message(len as nat, m as nat)))
        } else {
            None
        },
        _ => None,
    }
}

/// The error an HTTP status maps to, if any.
pub open spec fn status_failure(status: u16) -> Option<(ErrorKind, Seq<char>)> {
    if status == 401 {
        Some((ErrorKind::Unauthorized, "remote returned 401 Unauthorized"@))
    } else if status == 403 {
        Some((ErrorKind::Forbidden, "remote returned 403 Forbidden"@))
    } else if status == 404 {
        Some((ErrorKind::NotFound, "remote returned 404 Not Found"@))
    } else if status == 429 {
        Some((ErrorKind::RateLimited, "remote returned 429 Too Many Requests"@))
    } else if status == 502 {
        Some((ErrorKind::BadGateway, "remote returned 502 Bad Gateway"@))
    } else if status == 503 {
        Some((ErrorKind::ServiceUnavailable, "remote returned 503 Service Unavailable"@))
    } else {
        None
    }
}

/// Why a received response is refused, if it is: a body over the cap
/// first, then the status.
pub open spec fn response_failure(status: u16, body_len: nat, max: Option<usize>) -> Option<(ErrorKind, Seq<char>)> {
    match max {
        Some(m) => if body_len > m {
            Some((ErrorKind::Internal, body_too_large_message(body_len, m as nat)))
        } else {
            status_failure(status)
        },
        None => status_failure(status),
    }
}

/// The size cap holds: a response that is accepted has a body no larger
/// than the cap.
pub proof fn law_accepted_body_within_cap(status: u16, body_len: nat, max: Option<usize>)
    requires
        response_failure(status, body_len, max) is None,
    ensures
        max matches Some(m) ==> body_len <= m,
{
}

/// Within the size cap, whether and how a received response is refused
/// depends on its status alone: neither the body's length nor the cap
/// changes it.
pub proof fn law_refusal_within_cap_is_status_alone(status: u16, body_len: nat, cap: usize, other_len: nat)
    requires
        body_len <= cap,
    ensures
        response_failure(status, body_len, Some(cap)) == response_failure(status, other_len, None),
        response_failure(status, body_len, Some(cap)) == status_failure(status),
{
}

/// A body over the cap is refused for its size, whatever the status.
pub proof fn law_refusal_over_cap(status: u16, body_len: nat, cap: usize)
    requires
        body_len > cap,
    ensures
        response_failure(status, body_len, Some(cap)) == Some((ErrorKind::Internal, body_too_large_message(body_len, cap as nat))),
{
}

/// Without a size cap (and so within any cap), exactly 401, 403, 404, 429,
/// 502 and 503 are refused, each with its own error; every other status is
/// accepted.
pub proof fn law_refused_statuses(status: u16, body_len: nat)
    ensures
        response_failure(status, body_len, None) is Some <==> (status == 401 || status == 403 || status == 404
            || status == 429 || status == 502 || status == 503),
        status == 401 ==> response_failure(status, body_len, None) == Some((ErrorKind::Unauthorized, "remote returned 401 Unauthorized"@)),
        status == 403 ==> response_failure(status, body_len, None) == Some((ErrorKind::Forbidden, "remote returned 403 Forbidden"@)),
        status == 404 ==> response_failure(status, body_len, None) == Some((ErrorKind::NotFound, "remote returned 404 Not Found"@)),
        status == 429 ==> response_failure(status, body_len, None) == Some((ErrorKind::RateLimited, "remote returned 429 Too Many Requests"@)),
        status == 502 ==> response_failure(status, body_len, None) == Some((ErrorKind::BadGateway, "remote returned 502 Bad Gateway"@)),
        status == 503 ==> response_failure(status, body_len, None) == Some((ErrorKind::ServiceUnavailable, "remote returned 503 Service Unavailable"@)),
{
}

/// `r` is `Ok(())` when `f` is none, else an error with the parts of `f`.
pub open spec fn outcome_is(r: Result<(), HttpEgressError>, f: Option<(ErrorKind, Seq<char>)>) -> bool {
    match f {
        Some(parts) => r matches Err(e) && e.view_parts() == parts,
        None => r is Ok,
    }
}

/// Checks a declared `content-length` against the cap.
pub fn check_declared_length(content_length: Option<u64>, max: Option<usize>) -> (r: Result<(), HttpEgressError>)
    ensures
        outcome_is(r, declared_length_failure(content_length, max)),
{
    match (content_length, max) {
        (Some(len), Some(m)) => {
            if (len as usize) > m {
                let mut msg = "response too large: content-length ".to_owned();
                push_decimal(&mut msg, len);
                msg.append(" bytes exceeds limit of ");
                push_decimal(&mut msg, m as u64);
                msg.append(" bytes");
                Err(HttpEgressError::Internal(msg))
            } else {
                Ok(())
            }
        },
        _ => Ok(()),
    }
}

/// The error a status maps to, if any.
pub fn check_status(status: u16) -> (r: Result<(), HttpEgressError>)
    ensures
        outcome_is(r, status_failure(status)),
{
    if status == 401 {
        Err(HttpEgressError::Unauthorized("remote returned 401 Unauthorized".to_owned()))
    } else if status == 403 {
        Err(HttpEgressError::Forbidden("remote returned 403 Forbidden".to_owned()))
    } else if status == 404 {
        Err(HttpEgressError::NotFound("remote returned 404 Not Found".to_owned()))
    } else if status == 429 {
        Err(HttpEgressError::RateLimited("remote returned 429 Too Many Requests".to_owned()))
    } else if status == 502 {
        Err(HttpEgressError::BadGateway("remote returned 502 Bad Gateway".to_owned()))
    } else if status == 503 {
        Err(HttpEgressError::ServiceUnavailable("remote returned 503 Service Unavailable".to_owned()))
    } else {
        Ok(())
    }
}

/// Accepts or refuses a received response: a body over the cap is
/// refused first, then 401, 403, 404, 429, 502 and 503 map to their
/// errors; any other status is returned as a response.
pub fn accept_response(status: u16, headers: StringMap, body: Vec<u8>, max: Option<usize>) -> (r: HttpEgressResult<HttpResponse>)
    ensures
        match response_failure(status, body@.len(), max) {
            Some(parts) => r matches Err(e) && e.view_parts() == parts,
            None => r matches Ok(resp) && resp.status == status && resp.headers@ == headers@ && resp.body@ == body@,
        },
{
    if let Some(m) = max {
        if body.len() > m {
            let mut msg = "response too large: ".to_owned();
            push_decimal(&mut msg, body.len() as u64);
            msg.append(" bytes exceeds limit of ");
            push_decimal(&mut msg, m as u64);
            msg.append(" bytes");
            return Err(HttpEgressError::Internal(msg));
        }
    }
    match check_status(status) {
        Err(e) => Err(e),
        Ok(()) => Ok(HttpResponse { status, headers, body }),
    }
}

/// A 2xx status.
pub open spec fn is_success(status: u16) -> bool {
    200 <= status < 300
}

/// Exactly the statuses 200 through 299 are successes; 1xx, 3xx, 4xx and
/// 5xx are not.
pub proof fn law_success_is_2xx(status: u16)
    ensures
        is_success(status) <==> (200 <= status && status <= 299),
        status < 200 ==> !is_success(status),
        status >= 300 ==> !is_success(status),
{
}

/// What a health check does: no base URL means healthy without a request;
/// otherwise it fetches the base URL.
pub fn health_check_target(base_url: &Option<String>) -> (t: Option<String>)
    ensures
        opt_chars(t) == opt_chars(*base_url),
{
    match base_url {
        Some(u) => Some(u.clone()),
        None => None,
    }
}

/// Message for a failed health check.
pub open spec fn health_failure_message(status: u16) -> Seq<char> {
    "health check failed: HTTP "@ + decimal_text(status as nat)
}

/// The verdict of a health check answered with `status`: healthy on 2xx.
pub fn health_verdict(status: u16) -> (r: HttpEgressResult<()>)
    ensures
        outcome_is(r, if is_success(status) { None } else { Some((ErrorKind::Internal, health_failure_message(status))) }),
        r is Ok <==> (200 <= status && status <= 299),
{
    if 200 <= status && status < 300 {
        Ok(())
    } else {
        let mut msg = "health check failed: HTTP ".to_owned();
        push_decimal(&mut msg, status as u64);
        Err(HttpEgressError::Internal(msg))
    }
}

/// Message for an event feed that did not answer 2xx.
pub open spec fn feed_failure_message(status: u16) -> Seq<char> {
    "SSE feed returned HTTP "@ + decimal_text(status as nat)
}

/// The verdict on an event feed answered with `status`: usable on 2xx.
pub fn feed_verdict(status: u16) -> (r: HttpEgressResult<()>)
    ensures
        outcome_is(r, if is_success(status) { None } else { Some((ErrorKind::Internal, feed_failure_message(status))) }),
        r is Ok <==> (200 <= status && status <= 299),
{
    if 200 <= status && status < 300 {
        Ok(())
    } else {
        let mut msg = "SSE feed returned HTTP ".to_owned();
        push_decimal(&mut msg, status as u64);
        Err(HttpEgressError::Internal(msg))
    }
}

// ---------------------------------------------------------------------
// Metrics of a call.
// ---------------------------------------------------------------------

/// How a sample is recorded.
#[derive(Clone, Copy, Debug, PartialEq, Eq)]
pub enum MetricKind {
    /// Added to a counter.
    Counter,
    /// Observed by a histogram.
    Histogram,
}

/// One measurement to record, labelled with the request method.
#[derive(Clone, Debug, PartialEq, Eq)]
pub struct MetricSample {
    /// Counter or histogram.
    pub kind: MetricKind,
    /// Metric name.
    pub name: String,
    /// Amount added, or value observed.
    pub value: u128,
    /// The `method` label.
    pub method: String,
}

/// A sample as `(kind, name, value, method)`.
pub open spec fn sample_view(s: MetricSample) -> (MetricKind, Seq<char>, u128, Seq<char>) {
    (s.kind, s.name@, s.value, s.method@)
}

/// The samples recorded for one call: one request counted, its latency
/// observed, and one error counted if it failed.
pub open spec fn call_samples(method: HttpMethod, failed: bool, elapsed_micros: u128) -> Seq<(MetricKind, Seq<char>, u128, Seq<char>)> {
    let base = seq![
        (MetricKind::Counter, "edge_egress_requests_total"@, 1u128, method.name()),
        (MetricKind::Histogram, "edge_egress_latency_us"@, elapsed_micros, method.name()),
    ];
    if failed {
        base.push((MetricKind::Counter, "edge_egress_errors_total"@, 1u128, method.name()))
    } else {
        base
    }
}

/// The samples to record for a call of `method` that took
/// `elapsed_micros` and failed or not.
pub fn call_metrics(method: HttpMethod, failed: bool, elapsed_micros: u128) -> (v: Vec<MetricSample>)
    ensures
        v@.map_values(|s: MetricSample| sample_view(s)) == call_samples(method, failed, elapsed_micros),
{
    let mut v: Vec<MetricSample> = Vec::new();
    v.push(MetricSample {
        kind: MetricKind::Counter,
        name: "edge_egress_requests_total".to_owned(),
        value: 1,
        method: method.as_str().to_owned(),
    });
    v.push(MetricSample {
        kind: MetricKind::Histogram,
        name: "edge_egress_latency_us".to_owned(),
        value: elapsed_micros,
        method: method.as_str().to_owned(),
    });
    if failed {
        v.push(MetricSample {
            kind: MetricKind::Counter,
            name: "edge_egress_errors_total".to_owned(),
            value: 1,
            method: method.as_str().to_owned(),
        });
    }
    assert(v@.map_values(|s: MetricSample| sample_view(s)) =~= call_samples(method, failed, elapsed_micros));
    v
}

} // verus!
