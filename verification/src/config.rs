//! Transport configuration: `HttpConfig`, its builder and the application
//! config builder seed.

use vstd::prelude::*;
use crate::strmap::StringMap;
use crate::sse::opt_chars;

verus! {

/// Transport settings of an HTTP client.
#[derive(Debug)]
pub struct HttpConfig {
    /// Base URL that relative request URLs are resolved against.
    pub base_url: Option<String>,
    /// Request timeout in seconds.
    pub timeout_secs: u64,
    /// Connection timeout in seconds.
    pub connect_timeout_secs: u64,
    /// Retry budget handed to the retry layer.
    pub max_retries: u32,
    /// Headers sent on every request.
    pub default_headers: StringMap,
    /// Whether redirects are followed.
    pub follow_redirects: bool,
    /// How many redirects are followed at most.
    pub max_redirects: u32,
    /// The `User-Agent` header, if any.
    pub user_agent: Option<String>,
    /// Largest response body accepted, if capped.
    pub max_response_bytes: Option<usize>,
}

/// The default `User-Agent`.
pub open spec fn default_user_agent() -> Seq<char> {
    seq!['s', 'w', 'e', '-', 'e', 'd', 'g', 'e', '/', '0', '.', '1', '.', '0']
}

/// The default response size cap: 10 MiB.
pub open spec fn default_max_response_bytes_spec() -> Option<usize> {
    Some(10485760usize)
}

/// Every field other than the base URL, the default headers and the
/// timeout holds its default value.
pub open spec fn other_fields_default(c: HttpConfig) -> bool {
    &&& c.connect_timeout_secs == 10
    &&& c.max_retries == 3
    &&& c.follow_redirects
    &&& c.max_redirects == 10
    &&& opt_chars(c.user_agent) == Some(default_user_agent())
    &&& c.max_response_bytes == default_max_response_bytes_spec()
}

/// `c` is `HttpConfig::default()`.
pub open spec fn is_default_config(c: HttpConfig) -> bool {
    &&& c.base_url is None
    &&& c.timeout_secs == 30
    &&& c.default_headers@ == Map::<Seq<char>, Seq<char>>::empty()
    &&& other_fields_default(c)
}

/// `a` and `b` agree on every field but the default headers.
pub open spec fn same_but_headers(a: HttpConfig, b: HttpConfig) -> bool {
    &&& opt_chars(a.base_url) == opt_chars(b.base_url)
    &&& a.timeout_secs == b.timeout_secs
    &&& a.connect_timeout_secs == b.connect_timeout_secs
    &&& a.max_retries == b.max_retries
    &&& a.follow_redirects == b.follow_redirects
    &&& a.max_redirects == b.max_redirects
    &&& opt_chars(a.user_agent) == opt_chars(b.user_agent)
    &&& a.max_response_bytes == b.max_response_bytes
}

fn clone_opt(o: &Option<String>) -> (r: Option<String>)
    ensures
        opt_chars(r) == opt_chars(*o),
{
    match o {
        Some(s) => Some(s.clone()),
        None => None,
    }
}

impl Clone for HttpConfig {
    fn clone(&self) -> (c: Self)
        ensures
            same_but_headers(c, *self),
            c.default_headers@ == self.default_headers@,
    {
        HttpConfig {
            base_url: clone_opt(&self.base_url),
            timeout_secs: self.timeout_secs,
            connect_timeout_secs: self.connect_timeout_secs,
            max_retries: self.max_retries,
            default_headers: self.default_headers.clone(),
            follow_redirects: self.follow_redirects,
            max_redirects: self.max_redirects,
            user_agent: clone_opt(&self.user_agent),
            max_response_bytes: self.max_response_bytes,
        }
    }
}

impl Default for HttpConfig {
    fn default() -> (c: Self)
        ensures
            is_default_config(c),
    {
        let ua: Vec<char> = vec!['s', 'w', 'e', '-', 'e', 'd', 'g', 'e', '/', '0', '.', '1', '.', '0'];
        assert(ua@ =~= default_user_agent());
        HttpConfig {
            base_url: None,
            timeout_secs: 30,
            connect_timeout_secs: 10,
            max_retries: 3,
            default_headers: StringMap::new(),
            follow_redirects: true,
            max_redirects: 10,
            user_agent: Some(crate::text::string_from_chars(&ua)),
            max_response_bytes: HttpConfig::default_max_response_bytes(),
        }
    }
}

impl HttpConfig {
    /// Default response size cap: 10 MiB.
    pub fn default_max_response_bytes() -> (r: Option<usize>)
        ensures
            r == default_max_response_bytes_spec(),
    {
        Some(10 * 1024 * 1024)
    }

    /// The default configuration with the given base URL.
    pub fn with_base_url(base_url: &str) -> (c: Self)
        ensures
            opt_chars(c.base_url) == Some(base_url@),
            c.timeout_secs == 30,
            c.default_headers@ == Map::<Seq<char>, Seq<char>>::empty(),
            other_fields_default(c),
    {
        HttpConfig { base_url: Some(base_url.to_owned()), ..Default::default() }
    }

    /// Adds a default header sent on every request.
    pub fn with_header(self, name: &str, value: &str) -> (c: Self)
        ensures
            same_but_headers(c, self),
            c.default_headers@ == self.default_headers@.insert(name@, value@),
    {
        let mut c = self;
        c.default_headers.insert(name.to_owned(), value.to_owned());
        c
    }

    /// Overrides the request timeout in seconds.
    pub fn with_timeout(self, secs: u64) -> (c: Self)
        ensures
            c.timeout_secs == secs,
            opt_chars(c.base_url) == opt_chars(self.base_url),
            c.connect_timeout_secs == self.connect_timeout_secs,
            c.max_retries == self.max_retries,
            c.follow_redirects == self.follow_redirects,
            c.max_redirects == self.max_redirects,
            opt_chars(c.user_agent) == opt_chars(self.user_agent),
            c.max_response_bytes == self.max_response_bytes,
            c.default_headers@ == self.default_headers@,
    {
        let mut c = self;
        c.timeout_secs = secs;
        c
    }
}

/// Builder for `HttpConfig`; unset fields take the `HttpConfig` defaults.
#[derive(Debug)]
pub struct HttpConfigBuilder {
    /// Base URL, if set.
    pub base_url: Option<String>,
    /// Request timeout in seconds, if set.
    pub timeout_secs: Option<u64>,
    /// Connection timeout in seconds, if set.
    pub connect_timeout_secs: Option<u64>,
    /// Retry budget, if set.
    pub max_retries: Option<u32>,
    /// Default headers added so far.
    pub default_headers: StringMap,
    /// Redirect following, if set.
    pub follow_redirects: Option<bool>,
    /// Redirect limit, if set.
    pub max_redirects: Option<u32>,
    /// `User-Agent`, if set.
    pub user_agent: Option<String>,
    /// Response size cap, if set.
    pub max_response_bytes: Option<Option<usize>>,
}

/// Nothing is set on the builder.
pub open spec fn builder_is_empty(b: HttpConfigBuilder) -> bool {
    &&& b.base_url is None
    &&& b.timeout_secs is None
    &&& b.connect_timeout_secs is None
    &&& b.max_retries is None
    &&& b.default_headers@ == Map::<Seq<char>, Seq<char>>::empty()
    &&& b.follow_redirects is None
    &&& b.max_redirects is None
    &&& b.user_agent is None
    &&& b.max_response_bytes is None
}

/// A setting of `HttpConfigBuilder` that a setter changes.
#[derive(Clone, Copy, Debug, PartialEq, Eq)]
pub enum BuilderSetting {
    /// `base_url`.
    BaseUrl,
    /// `timeout_secs`.
    Timeout,
    /// `connect_timeout_secs`.
    ConnectTimeout,
    /// `default_headers`.
    Headers,
    /// `user_agent`.
    UserAgent,
}

/// `a` and `b` agree on every setting but `changed`.
pub open spec fn builder_same_except(a: HttpConfigBuilder, b: HttpConfigBuilder, changed: BuilderSetting) -> bool {
    &&& !(changed is BaseUrl) ==> opt_chars(a.base_url) == opt_chars(b.base_url)
    &&& !(changed is Timeout) ==> a.timeout_secs == b.timeout_secs
    &&& !(changed is ConnectTimeout) ==> a.connect_timeout_secs == b.connect_timeout_secs
    &&& a.max_retries == b.max_retries
    &&& !(changed is Headers) ==> a.default_headers@ == b.default_headers@
    &&& a.follow_redirects == b.follow_redirects
    &&& a.max_redirects == b.max_redirects
    &&& !(changed is UserAgent) ==> opt_chars(a.user_agent) == opt_chars(b.user_agent)
    &&& a.max_response_bytes == b.max_response_bytes
}

/// `v` if set, else `d`.
pub open spec fn or_default<T>(v: Option<T>, d: T) -> T {
    match v {
        Some(x) => x,
        None => d,
    }
}

/// `c` is what `b` builds: each set field, the `HttpConfig` default for
/// each unset one; the headers added (the default has none).
pub open spec fn builds(b: HttpConfigBuilder, c: HttpConfig) -> bool {
    &&& opt_chars(c.base_url) == opt_chars(b.base_url)
    &&& c.timeout_secs == or_default(b.timeout_secs, 30)
    &&& c.connect_timeout_secs == or_default(b.connect_timeout_secs, 10)
    &&& c.max_retries == or_default(b.max_retries, 3)
    &&& c.default_headers@ == b.default_headers@
    &&& c.follow_redirects == or_default(b.follow_redirects, true)
    &&& c.max_redirects == or_default(b.max_redirects, 10)
    &&& opt_chars(c.user_agent) == (if b.user_agent is Some { opt_chars(b.user_agent) } else { Some(default_user_agent()) })
    &&& c.max_response_bytes == or_default(b.max_response_bytes, default_max_response_bytes_spec())
}

impl Default for HttpConfigBuilder {
    fn default() -> (b: Self)
        ensures
            builder_is_empty(b),
    {
        HttpConfigBuilder {
            base_url: None,
            timeout_secs: None,
            connect_timeout_secs: None,
            max_retries: None,
            default_headers: StringMap::new(),
            follow_redirects: None,
            max_redirects: None,
            user_agent: None,
            max_response_bytes: None,
        }
    }
}

impl HttpConfigBuilder {
    /// A builder with nothing set.
    pub fn new() -> (b: Self)
        ensures
            builder_is_empty(b),
    {
        Self::default()
    }

    /// Sets the base URL.
    pub fn with_base_url(self, base_url: &str) -> (b: Self)
        ensures
            opt_chars(b.base_url) == Some(base_url@),
            builder_same_except(b, self, BuilderSetting::BaseUrl),
    {
        let mut b = self;
        b.base_url = Some(base_url.to_owned());
        b
    }

    /// Sets the request timeout in seconds.
    pub fn with_timeout_secs(self, secs: u64) -> (b: Self)
        ensures
            b.timeout_secs == Some(secs),
            builder_same_except(b, self, BuilderSetting::Timeout),
    {
        let mut b = self;
        b.timeout_secs = Some(secs);
        b
    }

    /// Sets the connection timeout in seconds.
    pub fn with_connect_timeout_secs(self, secs: u64) -> (b: Self)
        ensures
            b.connect_timeout_secs == Some(secs),
            builder_same_except(b, self, BuilderSetting::ConnectTimeout),
    {
        let mut b = self;
        b.connect_timeout_secs = Some(secs);
        b
    }

    /// Adds a default header.
    pub fn with_header(self, name: &str, value: &str) -> (b: Self)
        ensures
            b.default_headers@ == self.default_headers@.insert(name@, value@),
            builder_same_except(b, self, BuilderSetting::Headers),
    {
        let mut b = self;
        b.default_headers.insert(name.to_owned(), value.to_owned());
        b
    }

    /// Sets the `User-Agent`.
    pub fn with_user_agent(self, ua: &str) -> (b: Self)
        ensures
            opt_chars(b.user_agent) == Some(ua@),
            builder_same_except(b, self, BuilderSetting::UserAgent),
    {
        let mut b = self;
        b.user_agent = Some(ua.to_owned());
        b
    }

    /// The configuration: each set field, the `HttpConfig` default for each
    /// unset one; the headers added, or the default (none) if none were.
    pub fn build(self) -> (c: HttpConfig)
        ensures
            builds(self, c),
    {
        let base = HttpConfig::default();
        let headers_empty = self.default_headers.is_empty();
        HttpConfig {
            base_url: match self.base_url {
                Some(u) => Some(u),
                None => base.base_url,
            },
            timeout_secs: match self.timeout_secs {
                Some(t) => t,
                None => base.timeout_secs,
            },
            connect_timeout_secs: match self.connect_timeout_secs {
                Some(t) => t,
                None => base.connect_timeout_secs,
            },
            max_retries: match self.max_retries {
                Some(t) => t,
                None => base.max_retries,
            },
            default_headers: if headers_empty {
                base.default_headers
            } else {
                self.default_headers
            },
            follow_redirects: match self.follow_redirects {
                Some(t) => t,
                None => base.follow_redirects,
            },
            max_redirects: match self.max_redirects {
                Some(t) => t,
                None => base.max_redirects,
            },
            user_agent: match self.user_agent {
                Some(u) => Some(u),
                None => base.user_agent,
            },
            max_response_bytes: match self.max_response_bytes {
                Some(t) => t,
                None => base.max_response_bytes,
            },
        }
    }
}

/// Building a builder with nothing set gives `HttpConfig::default()`.
pub proof fn law_empty_builder_builds_default(b: HttpConfigBuilder, c: HttpConfig)
    requires
        builder_is_empty(b),
        builds(b, c),
    ensures
        is_default_config(c),
{
}

/// Seeds the application configuration loader with a package name and
/// version.
#[derive(Debug)]
pub struct ApplicationConfigBuilder {
    name: String,
    version: String,
}

impl ApplicationConfigBuilder {
    /// The name the builder is seeded with.
    pub closed spec fn name_view(&self) -> Seq<char> {
        self.name@
    }

    /// The version the builder is seeded with.
    pub closed spec fn version_view(&self) -> Seq<char> {
        self.version@
    }

    /// An unseeded builder: empty name and version.
    pub fn new() -> (b: Self)
        ensures
            b.name_view() == Seq::<char>::empty(),
            b.version_view() == Seq::<char>::empty(),
    {
        ApplicationConfigBuilder { name: String::new(), version: String::new() }
    }

    /// The package name this builder was seeded with.
    pub fn name(&self) -> (n: &str)
        ensures
            n@ == self.name_view(),
    {
        self.name.as_str()
    }

    /// The package version this builder was seeded with.
    pub fn version(&self) -> (v: &str)
        ensures
            v@ == self.version_view(),
    {
        self.version.as_str()
    }

    /// Sets the package name.
    pub fn with_name(self, name: &str) -> (b: Self)
        ensures
            b.name_view() == name@,
            b.version_view() == self.version_view(),
    {
        ApplicationConfigBuilder { name: name.to_owned(), version: self.version }
    }

    /// Sets the package version.
    pub fn with_version(self, version: &str) -> (b: Self)
        ensures
            b.name_view() == self.name_view(),
            b.version_view() == version@,
    {
        ApplicationConfigBuilder { name: self.name, version: version.to_owned() }
    }
}

impl Default for ApplicationConfigBuilder {
    fn default() -> (b: Self)
        ensures
            b.name_view() == Seq::<char>::empty(),
            b.version_view() == Seq::<char>::empty(),
    {
        Self::new()
    }
}

} // verus!
