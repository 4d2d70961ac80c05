//! Validation: the `Validator` trait, the `HttpConfig` rules and the
//! transport facade's validation entry points.

use vstd::prelude::*;
use crate::config::{HttpConfig, is_default_config};
use crate::error::{ValidationError, verdict_of, message_verdict};

verus! {

/// Marker argument of `Validator::validate`.
#[derive(Clone, Copy, Debug, PartialEq, Eq)]
pub struct ValidateRequest;

/// Something that can be checked for validity. Implementations state
/// their verdict in the `ensures` of their `validate`.
pub trait Validator {
    /// Checks the value.
    fn validate(&self, request: ValidateRequest) -> Result<(), ValidationError>;
}

/// Message for a zero request timeout.
pub open spec fn zero_timeout_message() -> Seq<char> {
    seq!['t', 'i', 'm', 'e', 'o', 'u', 't', '_', 's', 'e', 'c', 's', ' ', 'm', 'u', 's', 't', ' ', 'b', 'e',
        ' ', 'g', 'r', 'e', 'a', 't', 'e', 'r', ' ', 't', 'h', 'a', 'n', ' ', '0']
}

/// Message for a zero connection timeout.
pub open spec fn zero_connect_timeout_message() -> Seq<char> {
    seq!['c', 'o', 'n', 'n', 'e', 'c', 't', '_'] + zero_timeout_message()
}

/// The rules an `HttpConfig` must meet: a non-zero request timeout, then a
/// non-zero connection timeout.
pub open spec fn config_verdict(c: HttpConfig) -> Result<(), Seq<char>> {
    if c.timeout_secs == 0 {
        Err(zero_timeout_message())
    } else if c.connect_timeout_secs == 0 {
        Err(zero_connect_timeout_message())
    } else {
        Ok(())
    }
}

/// The default configuration passes validation.
pub proof fn law_default_config_is_valid(c: HttpConfig)
    requires
        is_default_config(c),
    ensures
        config_verdict(c) == Ok::<(), Seq<char>>(()),
{
}

/// A configuration is valid exactly when both timeouts are non-zero; a
/// zero request timeout is reported first, then a zero connection timeout.
/// No other setting (how the two timeouts compare, redirects, headers, the
/// base URL) makes a configuration invalid.
pub proof fn law_config_accepted_set(c: HttpConfig)
    ensures
        config_verdict(c) is Ok <==> (c.timeout_secs != 0 && c.connect_timeout_secs != 0),
        c.timeout_secs == 0 ==> config_verdict(c) == Err::<(), Seq<char>>("timeout_secs must be greater than 0"@),
        c.timeout_secs != 0 && c.connect_timeout_secs == 0
            ==> config_verdict(c) == Err::<(), Seq<char>>("connect_timeout_secs must be greater than 0"@),
{
    reveal_strlit("timeout_secs must be greater than 0");
    reveal_strlit("connect_timeout_secs must be greater than 0");
    assert(zero_timeout_message() =~= "timeout_secs must be greater than 0"@);
    assert(zero_connect_timeout_message() =~= "connect_timeout_secs must be greater than 0"@);
}

fn check_config(c: &HttpConfig) -> (r: Result<(), ValidationError>)
    ensures
        verdict_of(r) == config_verdict(*c),
{
    if c.timeout_secs == 0 {
        let m = "timeout_secs must be greater than 0".to_owned();
        proof {
            reveal_strlit("timeout_secs must be greater than 0");
        }
        assert(m@ =~= zero_timeout_message());
        return Err(ValidationError::Invalid(m));
    }
    if c.connect_timeout_secs == 0 {
        let m = "connect_timeout_secs must be greater than 0".to_owned();
        proof {
            reveal_strlit("connect_timeout_secs must be greater than 0");
        }
        assert(m@ =~= zero_connect_timeout_message());
        return Err(ValidationError::Invalid(m));
    }
    Ok(())
}

/// A validator that always passes.
#[derive(Clone, Copy, Debug, Default, PartialEq, Eq)]
pub struct AlwaysValidConfig;

impl Validator for AlwaysValidConfig {
    fn validate(&self, request: ValidateRequest) -> (r: Result<(), ValidationError>)
        ensures
            r is Ok,
    {
        Ok(())
    }
}

/// An `HttpConfig` checked against `config_verdict`.
#[derive(Debug)]
pub struct ValidatableHttpConfig {
    /// The configuration checked.
    pub config: HttpConfig,
}

impl Validator for ValidatableHttpConfig {
    fn validate(&self, request: ValidateRequest) -> (r: Result<(), ValidationError>)
        ensures
            verdict_of(r) == config_verdict(self.config),
    {
        check_config(&self.config)
    }
}

/// Checks a borrowed `HttpConfig` against `config_verdict`.
#[derive(Debug)]
pub struct HttpConfigValidator<'a> {
    config: &'a HttpConfig,
}

impl<'a> HttpConfigValidator<'a> {
    /// The configuration checked.
    pub closed spec fn config(&self) -> HttpConfig {
        *self.config
    }

    /// A validator for `config`.
    pub fn new(config: &'a HttpConfig) -> (v: Self)
        ensures
            v.config() == *config,
    {
        HttpConfigValidator { config }
    }
}

impl<'a> Validator for HttpConfigValidator<'a> {
    fn validate(&self, request: ValidateRequest) -> (r: Result<(), ValidationError>)
        ensures
            verdict_of(r) == config_verdict(self.config()),
    {
        check_config(self.config)
    }
}

/// Passes validation through to the validator it wraps.
#[derive(Debug)]
pub struct DefaultValidator<T: Validator> {
    inner: T,
}

impl<T: Validator> DefaultValidator<T> {
    /// The wrapped validator.
    pub closed spec fn inner(&self) -> T {
        self.inner
    }

    /// Wraps `inner`.
    pub fn new(inner: T) -> (v: Self)
        ensures
            v.inner() == inner,
    {
        DefaultValidator { inner }
    }
}

impl<T: Validator> Validator for DefaultValidator<T> {
    /// The wrapped validator's result, unchanged.
    fn validate(&self, request: ValidateRequest) -> (r: Result<(), ValidationError>)
        ensures
            call_ensures(T::validate, (&self.inner(), request), r),
    {
        self.inner.validate(request)
    }
}

/// Facade of the transport: validation entry points (the factories that
/// assemble clients live with the I/O code).
#[derive(Clone, Copy, Debug, Default)]
pub struct HttpTransportSvc;

fn to_message(r: Result<(), ValidationError>) -> (m: Result<(), String>)
    ensures
        message_verdict(m) == verdict_of(r),
{
    match r {
        Ok(()) => Ok(()),
        Err(e) => Err(e.message()),
    }
}

impl HttpTransportSvc {
    /// Checks that an `HttpConfig` is well formed; the error names the
    /// field and the constraint it breaks.
    pub fn validate_http_config(config: &HttpConfig) -> (r: Result<(), String>)
        ensures
            message_verdict(r) == config_verdict(*config),
    {
        to_message(DefaultValidator::new(HttpConfigValidator::new(config)).validate(ValidateRequest))
    }

    /// Validates any `Validator`: its result, with the error given by its
    /// message.
    pub fn validate<V: Validator>(v: &V) -> (r: Result<(), String>)
        ensures
            exists|inner: Result<(), ValidationError>|
                call_ensures(V::validate, (v, ValidateRequest), inner) && message_verdict(r) == verdict_of(inner),
    {
        let inner = v.validate(ValidateRequest);
        to_message(inner)
    }
}

/// Factory for the default validator.
#[derive(Clone, Copy, Debug, Default)]
pub struct ValidatorSvcFactory;

impl ValidatorSvcFactory {
    /// The default, always-passing validator, boxed. The box holds the
    /// concrete type so that its contract can say which validator it is
    /// (no clause can speak of a method of a `dyn Validator`); callers
    /// coerce it to `Box<dyn Validator>`.
    pub fn create() -> (v: Box<AlwaysValidConfig>)
        ensures
            *v == AlwaysValidConfig,
    {
        Box::new(AlwaysValidConfig)
    }
}

} // verus!
