//! How clients are assembled: the settings applied to the HTTP client and
//! the middleware chain each factory wires.

use vstd::prelude::*;
use crate::config::HttpConfig;
use crate::sse::opt_chars;
use crate::header::{accepted_headers, accepted_pairs};
use crate::strmap::pair_views;

verus! {

/// A middleware layer of the outbound chain.
#[derive(Clone, Copy, Debug, PartialEq, Eq)]
pub enum Layer {
    /// Static credentials (`[auth]`).
    Auth,
    /// OAuth token refresh from a runtime token source.
    OAuth,
    /// Retries (`[retry]`).
    Retry,
    /// Rate limiting (`[rate]`).
    Rate,
    /// Circuit breaking (`[breaker]`).
    Breaker,
    /// Response caching (`[cache]`).
    Cache,
    /// Record and replay (`[cassette]`).
    Cassette,
}

/// Which optional configuration sections are present and enabled.
#[derive(Clone, Copy, Debug, Default, PartialEq, Eq)]
pub struct SectionStates {
    /// `[auth]`.
    pub auth: bool,
    /// `[tls]`.
    pub tls: bool,
    /// `[retry]`.
    pub retry: bool,
    /// `[rate]`.
    pub rate: bool,
    /// `[breaker]`.
    pub breaker: bool,
    /// `[cache]`.
    pub cache: bool,
    /// `[cassette]`.
    pub cassette: bool,
}

/// `l` if `on`, else nothing.
pub open spec fn layer_if(on: bool, l: Layer) -> Seq<Layer> {
    if on { seq![l] } else { seq![] }
}

/// The non-auth layers wired for `s`, in chain order.
pub open spec fn optional_layers(s: SectionStates) -> Seq<Layer> {
    layer_if(s.retry, Layer::Retry) + layer_if(s.rate, Layer::Rate) + layer_if(s.breaker, Layer::Breaker)
        + layer_if(s.cache, Layer::Cache) + layer_if(s.cassette, Layer::Cassette)
}

/// The chain of the config-driven egress: static auth if `[auth]` is
/// present, then the optional layers.
pub open spec fn config_chain(s: SectionStates) -> Seq<Layer> {
    layer_if(s.auth, Layer::Auth) + optional_layers(s)
}

/// The chain of the config-driven egress with OAuth: OAuth in the auth
/// slot (`[auth]` ignored), then the optional layers.
pub open spec fn oauth_config_chain(s: SectionStates) -> Seq<Layer> {
    seq![Layer::OAuth] + optional_layers(s)
}

/// The chain of the default egress: every layer with its defaults.
pub open spec fn full_default_chain() -> Seq<Layer> {
    seq![Layer::Auth, Layer::Retry, Layer::Rate, Layer::Breaker, Layer::Cache, Layer::Cassette]
}

fn push_if(v: &mut Vec<Layer>, on: bool, l: Layer)
    ensures
        final(v)@ == old(v)@ + layer_if(on, l),
{
    if on {
        v.push(l);
    }
    assert(final(v)@ =~= old(v)@ + layer_if(on, l));
}

fn push_optional(v: &mut Vec<Layer>, s: &SectionStates)
    ensures
        final(v)@ == old(v)@ + optional_layers(*s),
{
    let ghost start = v@;
    push_if(v, s.retry, Layer::Retry);
    push_if(v, s.rate, Layer::Rate);
    push_if(v, s.breaker, Layer::Breaker);
    push_if(v, s.cache, Layer::Cache);
    push_if(v, s.cassette, Layer::Cassette);
    assert(v@ =~= start + optional_layers(*s));
}

/// The middleware the config-driven egress wires for the loaded sections.
pub fn config_driven_chain(s: &SectionStates) -> (v: Vec<Layer>)
    ensures
        v@ == config_chain(*s),
{
    let mut v: Vec<Layer> = Vec::new();
    push_if(&mut v, s.auth, Layer::Auth);
    push_optional(&mut v, s);
    assert(v@ =~= config_chain(*s));
    v
}

/// The middleware the config-driven egress with OAuth wires.
pub fn oauth_config_driven_chain(s: &SectionStates) -> (v: Vec<Layer>)
    ensures
        v@ == oauth_config_chain(*s),
{
    let mut v: Vec<Layer> = Vec::new();
    v.push(Layer::OAuth);
    push_optional(&mut v, s);
    assert(v@ =~= oauth_config_chain(*s));
    v
}

/// The middleware of the default egress.
pub fn default_chain() -> (v: Vec<Layer>)
    ensures
        v@ == full_default_chain(),
{
    let v: Vec<Layer> = vec![Layer::Auth, Layer::Retry, Layer::Rate, Layer::Breaker, Layer::Cache, Layer::Cassette];
    assert(v@ =~= full_default_chain());
    v
}

/// The section that switches a layer on, if it has one.
pub open spec fn enabled_for(s: SectionStates, l: Layer) -> bool {
    match l {
        Layer::Auth => s.auth,
        Layer::OAuth => false,
        Layer::Retry => s.retry,
        Layer::Rate => s.rate,
        Layer::Breaker => s.breaker,
        Layer::Cache => s.cache,
        Layer::Cassette => s.cassette,
    }
}

/// Membership in a concatenation.
proof fn lemma_contains_concat(a: Seq<Layer>, b: Seq<Layer>, l: Layer)
    ensures
        (a + b).contains(l) <==> (a.contains(l) || b.contains(l)),
{
    if (a + b).contains(l) {
        let k = choose|k: int| 0 <= k < (a + b).len() && (a + b)[k] == l;
        if k < a.len() {
            assert(a[k] == l);
        } else {
            assert(b[k - a.len()] == l);
        }
    }
    if a.contains(l) {
        let k = choose|k: int| 0 <= k < a.len() && a[k] == l;
        assert((a + b)[k] == l);
    }
    if b.contains(l) {
        let k = choose|k: int| 0 <= k < b.len() && b[k] == l;
        assert((a + b)[a.len() + k] == l);
    }
}

/// No layer occurs twice.
pub open spec fn no_repeats(x: Seq<Layer>) -> bool {
    forall|i: int, j: int| 0 <= i < j < x.len() ==> x[i] != x[j]
}

/// Concatenating lists without repeats and without common layers.
proof fn lemma_no_repeats_concat(a: Seq<Layer>, b: Seq<Layer>)
    requires
        no_repeats(a),
        no_repeats(b),
        forall|l: Layer| a.contains(l) ==> !b.contains(l),
    ensures
        no_repeats(a + b),
{
    assert forall|i: int, j: int| 0 <= i < j < (a + b).len() implies (a + b)[i] != (a + b)[j] by {
        if i < a.len() && j >= a.len() {
            assert(a.contains(a[i]));
            assert(b[j - a.len()] == (a + b)[j]);
            if a[i] == b[j - a.len()] {
                assert(b.contains(b[j - a.len()]));
            }
        } else if i >= a.len() {
            assert((a + b)[i] == b[i - a.len()] && (a + b)[j] == b[j - a.len()]);
        }
    }
}

/// What a conditional layer holds.
proof fn lemma_layer_if(on: bool, l: Layer, m: Layer)
    ensures
        layer_if(on, l).contains(m) <==> (on && m == l),
        no_repeats(layer_if(on, l)),
{
    if on {
        assert(layer_if(on, l)[0] == l);
    }
}

/// Config-driven activation: a layer is wired iff its section is present,
/// a disabled section adds nothing (not even a pass-through), and no layer
/// is wired twice.
pub proof fn law_layer_wired_iff_section_enabled(s: SectionStates, l: Layer)
    ensures
        config_chain(s).contains(l) <==> enabled_for(s, l),
        no_repeats(config_chain(s)),
{
    let a = layer_if(s.auth, Layer::Auth);
    let r1 = layer_if(s.retry, Layer::Retry);
    let r2 = layer_if(s.rate, Layer::Rate);
    let r3 = layer_if(s.breaker, Layer::Breaker);
    let r4 = layer_if(s.cache, Layer::Cache);
    let r5 = layer_if(s.cassette, Layer::Cassette);
    assert forall|m: Layer| #![auto] true implies
        (a.contains(m) <==> (s.auth && m == Layer::Auth))
        && (r1.contains(m) <==> (s.retry && m == Layer::Retry))
        && (r2.contains(m) <==> (s.rate && m == Layer::Rate))
        && (r3.contains(m) <==> (s.breaker && m == Layer::Breaker))
        && (r4.contains(m) <==> (s.cache && m == Layer::Cache))
        && (r5.contains(m) <==> (s.cassette && m == Layer::Cassette))
        && ((a + r1).contains(m) <==> (a.contains(m) || r1.contains(m)))
        && ((a + r1 + r2).contains(m) <==> ((a + r1).contains(m) || r2.contains(m)))
        && ((a + r1 + r2 + r3).contains(m) <==> ((a + r1 + r2).contains(m) || r3.contains(m)))
        && ((a + r1 + r2 + r3 + r4).contains(m) <==> ((a + r1 + r2 + r3).contains(m) || r4.contains(m)))
        && ((a + r1 + r2 + r3 + r4 + r5).contains(m) <==> ((a + r1 + r2 + r3 + r4).contains(m) || r5.contains(m)))
    by {
        lemma_layer_if(s.auth, Layer::Auth, m);
        lemma_layer_if(s.retry, Layer::Retry, m);
        lemma_layer_if(s.rate, Layer::Rate, m);
        lemma_layer_if(s.breaker, Layer::Breaker, m);
        lemma_layer_if(s.cache, Layer::Cache, m);
        lemma_layer_if(s.cassette, Layer::Cassette, m);
        lemma_contains_concat(a, r1, m);
        lemma_contains_concat(a + r1, r2, m);
        lemma_contains_concat(a + r1 + r2, r3, m);
        lemma_contains_concat(a + r1 + r2 + r3, r4, m);
        lemma_contains_concat(a + r1 + r2 + r3 + r4, r5, m);
    }
    assert(config_chain(s) =~= a + r1 + r2 + r3 + r4 + r5);
    lemma_layer_if(s.auth, Layer::Auth, l);
    lemma_layer_if(s.retry, Layer::Retry, l);
    lemma_layer_if(s.rate, Layer::Rate, l);
    lemma_layer_if(s.breaker, Layer::Breaker, l);
    lemma_layer_if(s.cache, Layer::Cache, l);
    lemma_layer_if(s.cassette, Layer::Cassette, l);
    lemma_no_repeats_concat(a, r1);
    lemma_no_repeats_concat(a + r1, r2);
    lemma_no_repeats_concat(a + r1 + r2, r3);
    lemma_no_repeats_concat(a + r1 + r2 + r3, r4);
    lemma_no_repeats_concat(a + r1 + r2 + r3 + r4, r5);
}

/// With OAuth, the auth slot holds OAuth whatever `[auth]` says, and the
/// optional layers are wired as without it.
pub proof fn law_oauth_takes_auth_slot(s: SectionStates)
    ensures
        oauth_config_chain(s)[0] == Layer::OAuth,
        !oauth_config_chain(s).contains(Layer::Auth),
        oauth_config_chain(s).drop_first() == config_chain(SectionStates { auth: false, ..s }),
{
    assert(oauth_config_chain(s).drop_first() =~= optional_layers(s));
    assert(config_chain(SectionStates { auth: false, ..s }) =~= optional_layers(s));
    if oauth_config_chain(s).contains(Layer::Auth) {
        let k = choose|k: int| 0 <= k < oauth_config_chain(s).len() && oauth_config_chain(s)[k] == Layer::Auth;
    }
}

/// The settings applied to the HTTP client.
#[derive(Debug)]
pub struct ClientPlan {
    /// Request timeout in seconds.
    pub timeout_secs: u64,
    /// Connection timeout in seconds.
    pub connect_timeout_secs: u64,
    /// `User-Agent`, if any.
    pub user_agent: Option<String>,
    /// Redirects followed at most, or `None` to follow none.
    pub redirect_limit: Option<usize>,
    /// Default headers the client accepts, in order, or `None` when none
    /// are configured.
    pub default_headers: Option<Vec<(String, String)>>,
}

/// The client settings for `config`. Of the configured default headers,
/// those whose name or value the client would reject are skipped.
pub fn client_plan(config: &HttpConfig) -> (p: ClientPlan)
    ensures
        p.timeout_secs == config.timeout_secs,
        p.connect_timeout_secs == config.connect_timeout_secs,
        opt_chars(p.user_agent) == opt_chars(config.user_agent),
        p.redirect_limit == (if config.follow_redirects { Some(config.max_redirects as usize) } else { None }),
        config.default_headers.pairs().len() == 0 ==> p.default_headers is None,
        config.default_headers.pairs().len() > 0 ==> (p.default_headers matches Some(h)
            && pair_views(h@) == accepted_pairs(config.default_headers.pairs())),
{
    let user_agent = match &config.user_agent {
        Some(ua) => Some(ua.clone()),
        None => None,
    };
    let redirect_limit = if config.follow_redirects {
        Some(config.max_redirects as usize)
    } else {
        None
    };
    let default_headers = if config.default_headers.is_empty() {
        None
    } else {
        Some(accepted_headers(config.default_headers.entries()))
    };
    ClientPlan {
        timeout_secs: config.timeout_secs,
        connect_timeout_secs: config.connect_timeout_secs,
        user_agent,
        redirect_limit,
        default_headers,
    }
}

} // verus!
