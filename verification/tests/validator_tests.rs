use edge_transport_http_egress::{
    AlwaysValidConfig, DefaultValidator, HttpConfig, HttpConfigValidator, HttpTransportSvc,
    ValidatableHttpConfig, ValidateRequest, ValidationError, Validator, ValidatorSvcFactory,
};

struct DefaultAlwaysOk;
impl Validator for DefaultAlwaysOk {
    fn validate(&self, _request: ValidateRequest) -> Result<(), ValidationError> {
        Ok(())
    }
}

struct DefaultAlwaysFail;
impl Validator for DefaultAlwaysFail {
    fn validate(&self, _request: ValidateRequest) -> Result<(), ValidationError> {
        Err(ValidationError::Invalid("invalid".into()))
    }
}

#[test]
fn test_validate_always_returns_ok() {
    assert_eq!(AlwaysValidConfig.validate(ValidateRequest), Ok(()));
    assert_eq!(AlwaysValidConfig.validate(ValidateRequest), Ok(()));
}

#[test]
fn test_new_wraps_inner_validator() {
    let ok = DefaultValidator::new(DefaultAlwaysOk);
    assert!(
        ok.validate(ValidateRequest).is_ok(),
        "wrapping a passing validator must pass"
    );

    let fail = DefaultValidator::new(DefaultAlwaysFail);
    assert_eq!(
        fail.validate(ValidateRequest).unwrap_err(),
        ValidationError::Invalid("invalid".into()),
        "wrapping a failing validator must surface its error"
    );
}

#[test]
fn test_validate_delegates_to_inner_ok() {
    let ok = DefaultValidator::new(DefaultAlwaysOk);
    assert!(
        ok.validate(ValidateRequest).is_ok(),
        "Ok inner must delegate to Ok"
    );

    let fail = DefaultValidator::new(DefaultAlwaysFail);
    assert!(
        fail.validate(ValidateRequest).is_err(),
        "Err inner must delegate to Err (not swallowed by the wrapper)"
    );
}

#[test]
fn test_validate_delegates_to_inner_err() {
    let v = DefaultValidator::new(DefaultAlwaysFail);
    assert!(v.validate(ValidateRequest).is_err());
    assert_eq!(
        v.validate(ValidateRequest).unwrap_err(),
        ValidationError::Invalid("invalid".into())
    );
}

#[test]
fn test_new_creates_validator_from_config_reference() {
    let valid = HttpConfig::default();
    assert!(
        HttpConfigValidator::new(&valid)
            .validate(ValidateRequest)
            .is_ok(),
        "validator over a valid config must pass"
    );

    let invalid = HttpConfig {
        timeout_secs: 0,
        ..HttpConfig::default()
    };
    assert!(
        HttpConfigValidator::new(&invalid)
            .validate(ValidateRequest)
            .is_err(),
        "validator over a zero-timeout config must fail"
    );
}

#[test]
fn test_http_config_validator_ok_for_valid_config() {
    let cfg = HttpConfig::default();
    assert!(
        HttpConfigValidator::new(&cfg)
            .validate(ValidateRequest)
            .is_ok(),
        "default config must be accepted"
    );

    let bad = HttpConfig {
        connect_timeout_secs: 0,
        ..HttpConfig::default()
    };
    assert!(
        HttpConfigValidator::new(&bad)
            .validate(ValidateRequest)
            .is_err(),
        "zero connect_timeout_secs must be rejected"
    );
}

#[test]
fn test_http_config_validator_err_for_zero_timeout() {
    let cfg = HttpConfig {
        timeout_secs: 0,
        ..HttpConfig::default()
    };
    let v = HttpConfigValidator::new(&cfg);
    let err = v.validate(ValidateRequest).unwrap_err();
    assert!(matches!(err, ValidationError::Invalid(ref m) if m.contains("timeout_secs")));
}

#[test]
fn test_http_config_validator_err_for_zero_connect_timeout() {
    let cfg = HttpConfig {
        connect_timeout_secs: 0,
        ..HttpConfig::default()
    };
    let v = HttpConfigValidator::new(&cfg);
    let err = v.validate(ValidateRequest).unwrap_err();
    assert!(
        matches!(err, ValidationError::Invalid(ref m) if m.contains("connect_timeout_secs"))
    );
}

#[test]
fn test_validate_rejects_zero_timeout_secs() {
    let cfg = ValidatableHttpConfig {
        config: HttpConfig {
            timeout_secs: 0,
            ..HttpConfig::default()
        },
    };
    let err = cfg.validate(ValidateRequest).expect_err("must be rejected");
    assert!(matches!(err, ValidationError::Invalid(_)));
}

#[test]
fn test_validate_rejects_zero_connect_timeout_secs() {
    let cfg = ValidatableHttpConfig {
        config: HttpConfig {
            connect_timeout_secs: 0,
            ..HttpConfig::default()
        },
    };
    let err = cfg.validate(ValidateRequest).expect_err("must be rejected");
    assert!(matches!(err, ValidationError::Invalid(_)));
}

#[test]
fn test_validate_accepts_default_config() {
    let cfg = ValidatableHttpConfig {
        config: HttpConfig::default(),
    };
    assert!(cfg.validate(ValidateRequest).is_ok());
    let invalid = ValidatableHttpConfig {
        config: HttpConfig {
            timeout_secs: 0,
            ..HttpConfig::default()
        },
    };
    assert!(invalid.validate(ValidateRequest).is_err());
}

#[test]
fn validation_messages_name_the_field_exactly() {
    let zero_timeout = HttpConfig::default().with_timeout(0);
    assert_eq!(
        HttpTransportSvc::validate_http_config(&zero_timeout),
        Err("timeout_secs must be greater than 0".to_string())
    );
    let zero_connect = HttpConfig {
        connect_timeout_secs: 0,
        ..HttpConfig::default()
    };
    assert_eq!(
        HttpTransportSvc::validate_http_config(&zero_connect),
        Err("connect_timeout_secs must be greater than 0".to_string())
    );
    // Both zero: the request timeout is reported first.
    let both = HttpConfig {
        timeout_secs: 0,
        connect_timeout_secs: 0,
        ..HttpConfig::default()
    };
    assert_eq!(
        HttpTransportSvc::validate_http_config(&both),
        Err("timeout_secs must be greater than 0".to_string())
    );
    assert_eq!(HttpTransportSvc::validate_http_config(&HttpConfig::default()), Ok(()));
}

#[test]
fn generic_validate_passes_the_verdict_through() {
    assert_eq!(HttpTransportSvc::validate(&DefaultAlwaysOk), Ok(()));
    assert_eq!(
        HttpTransportSvc::validate(&DefaultAlwaysFail),
        Err("invalid".to_string())
    );
    let cfg = ValidatableHttpConfig {
        config: HttpConfig::default().with_timeout(0),
    };
    assert_eq!(
        HttpTransportSvc::validate(&cfg),
        Err("timeout_secs must be greater than 0".to_string())
    );
}

#[test]
fn validator_factory_creates_an_always_passing_validator() {
    let v: Box<dyn Validator> = ValidatorSvcFactory::create();
    assert_eq!(v.validate(ValidateRequest), Ok(()));
}

#[test]
fn validation_error_message_is_its_text() {
    let e = ValidationError::Invalid("bad field".to_string());
    assert_eq!(e.message(), "bad field".to_string());
}
