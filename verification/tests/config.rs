use switchyard_route::config::{
    classifier_plan, default_threshold, default_timeout, default_verify_tls, parse, validate, ConfigError,
    FailureMode, JudgeConfig, RawConfig, RawJudge, SessionFloor, TargetConfig, Tier, HALF_BITS,
};
use switchyard_route::session::ByteOrder;

fn machine() -> ByteOrder {
    if 1_u16.to_ne_bytes() == [1, 0] {
        ByteOrder::Little
    } else {
        ByteOrder::Big
    }
}

fn target(cluster: &str, model: &str) -> TargetConfig {
    TargetConfig { cluster: cluster.to_owned(), model: model.to_owned() }
}

fn valid_raw() -> RawConfig {
    RawConfig {
        judge: RawJudge {
            endpoint: "http://localhost:8000/v1/chat/completions".to_owned(),
            model: "judge-model".to_owned(),
            timeout_ms: None,
            verify_tls: None,
            auth_value_env: None,
        },
        weak: target("weak-cluster", "weak-model"),
        strong: target("strong-cluster", "strong-model"),
        threshold: None,
        on_failure: None,
        session_floor: None,
    }
}

#[test]
fn parses_minimal_config() {
    let config = parse(valid_raw(), None, machine()).ok().expect("should parse");
    assert_eq!(config.judge.model, "judge-model");
    assert_eq!(config.weak.cluster, "weak-cluster");
    assert!((f64::from_bits(config.threshold) - 0.5).abs() < f64::EPSILON);
}

#[test]
fn applies_judge_defaults() {
    let config = parse(valid_raw(), None, machine()).ok().expect("should parse");
    assert_eq!(config.judge.timeout_ms, 5000, "the judge timeout defaults to 5s");
    assert!(config.judge.verify_tls, "TLS verification is on unless disabled");
    assert!(config.judge.auth_token.is_none(), "no auth block means no token");
    assert!(
        matches!(config.on_failure, FailureMode::Open),
        "routing failures default to passing traffic through"
    );
    assert!(
        matches!(config.session_floor, SessionFloor::Enabled),
        "session floor defaults to enabled"
    );
}

#[test]
fn honours_explicit_judge_settings() {
    let mut raw = valid_raw();
    raw.judge.timeout_ms = Some(250);
    raw.judge.verify_tls = Some(false);
    raw.on_failure = Some(FailureMode::Closed);
    raw.session_floor = Some(SessionFloor::Disabled);
    let config = parse(raw, None, machine()).ok().expect("should parse");
    assert_eq!(config.judge.timeout_ms, 250, "an explicit timeout overrides the default");
    assert!(!config.judge.verify_tls, "verify_tls: false must be honoured");
    assert!(
        matches!(config.on_failure, FailureMode::Closed),
        "on_failure: closed must be honoured"
    );
    assert!(
        matches!(config.session_floor, SessionFloor::Disabled),
        "session_floor: disabled must be honoured"
    );
}

fn with_threshold(threshold: f64) -> RawConfig {
    let mut raw = valid_raw();
    raw.threshold = Some(threshold.to_bits());
    raw
}

#[test]
fn rejects_invalid_threshold() {
    assert!(parse(with_threshold(1.5), None, machine()).is_err());
}

#[test]
fn rejects_negative_threshold() {
    let err = parse(with_threshold(-0.1), None, machine()).err().expect("a negative probability is meaningless");
    assert!(
        err.message().contains("threshold must be between 0.0 and 1.0"),
        "the error must state the valid range, got {}",
        err.message()
    );
}

#[test]
fn accepts_threshold_bounds() {
    for bound in [0.0_f64, 1.0_f64] {
        let config =
            parse(with_threshold(bound), None, machine()).ok().expect("the range is inclusive at both ends");
        assert!(
            (f64::from_bits(config.threshold) - bound).abs() < f64::EPSILON,
            "the configured threshold must survive validation"
        );
    }
}

#[test]
fn threshold_test_agrees_with_float_comparison() {
    let numbers = [
        0.0,
        -0.0,
        f64::MIN_POSITIVE,
        5e-324,
        -5e-324,
        0.25,
        0.999_999_999_999_999_9,
        1.0,
        1.000_000_000_000_000_2,
        2.0,
        -1.0,
        f64::MAX,
        f64::INFINITY,
        f64::NEG_INFINITY,
        f64::NAN,
        -f64::NAN,
    ];
    for number in numbers {
        assert_eq!(
            parse(with_threshold(number), None, machine()).is_ok(),
            (0.0..=1.0).contains(&number),
            "threshold {number:?}"
        );
    }
}

#[test]
fn rejects_a_non_url_endpoint() {
    let mut raw = valid_raw();
    raw.judge.endpoint = "http://ju dge/v1".to_owned();
    let err = parse(raw, None, machine()).err().expect("the endpoint must be a URL");
    assert!(
        err.message().contains("judge.endpoint is not a valid URL"),
        "the error must name the endpoint field, got {}",
        err.message()
    );
}

#[test]
fn rejects_an_empty_auth_env_name() {
    let mut raw = valid_raw();
    raw.judge.auth_value_env = Some(String::new());
    let err = parse(raw, None, machine()).err().expect("an empty variable name cannot be read");
    assert!(
        err.message().contains("judge.auth.value_env must not be empty"),
        "the error must name the auth field, got {}",
        err.message()
    );
}

#[test]
fn rejects_an_unset_auth_env_var() {
    let mut raw = valid_raw();
    raw.judge.auth_value_env = Some("PRAXIS_TEST_JUDGE_TOKEN_UNSET".to_owned());
    let err = parse(raw, None, machine()).err().expect("an unset variable is a config error");
    assert!(
        err.message()
            .contains("judge.auth.value_env 'PRAXIS_TEST_JUDGE_TOKEN_UNSET' is unset or empty"),
        "the error must name the variable, got {}",
        err.message()
    );
}

#[test]
fn rejects_an_empty_auth_value() {
    let mut raw = valid_raw();
    raw.judge.auth_value_env = Some("JUDGE_TOKEN".to_owned());
    assert_eq!(
        parse(raw, Some(String::new()), machine()).err(),
        Some(ConfigError::UnsetAuthEnv("JUDGE_TOKEN".to_owned()))
    );
}

#[test]
fn reads_the_auth_token_from_the_environment() {
    let mut raw = valid_raw();
    raw.judge.auth_value_env = Some("JUDGE_TOKEN".to_owned());
    let config = parse(raw, Some("sk-value".to_owned()), machine()).ok().expect("a set variable yields a token");
    assert_eq!(
        config.judge.auth_token.as_deref(),
        Some("sk-value"),
        "the bearer token comes from the environment, never the config file"
    );
}

#[test]
fn a_token_needs_an_auth_block() {
    let config = parse(valid_raw(), Some("sk-value".to_owned()), machine()).ok().expect("should parse");
    assert_eq!(config.judge.auth_token, None);
}

#[test]
fn threshold_is_checked_before_the_endpoint_and_the_token() {
    let mut raw = with_threshold(7.0);
    raw.judge.endpoint = "http://ju dge/v1".to_owned();
    raw.judge.auth_value_env = Some(String::new());
    assert_eq!(parse(raw, None, machine()).err(), Some(ConfigError::Threshold));

    let mut raw = valid_raw();
    raw.judge.endpoint = "http://ju dge/v1".to_owned();
    raw.judge.auth_value_env = Some(String::new());
    assert_eq!(parse(raw, None, machine()).err(), Some(ConfigError::Endpoint));

    let mut raw = valid_raw();
    raw.judge.auth_value_env = Some(String::new());
    assert_eq!(
        validate(raw, Err("no".to_owned()), None, machine()).err(),
        Some(ConfigError::Endpoint),
        "an endpoint that did not parse is refused"
    );
}

#[test]
fn defaults_are_stable() {
    assert_eq!(default_timeout(), 5000);
    assert!(default_verify_tls());
    assert_eq!(default_threshold(), 0.5_f64.to_bits());
    assert_eq!(f64::from_bits(HALF_BITS), 0.5);
    assert_eq!(FailureMode::default(), FailureMode::Open);
    assert_eq!(SessionFloor::default(), SessionFloor::Enabled);
}

#[test]
fn debug_redacts_the_auth_token() {
    let judge = JudgeConfig {
        endpoint: "http://localhost:8000/v1/chat/completions".to_owned(),
        model: "judge-model".to_owned(),
        timeout_ms: 5000,
        verify_tls: true,
        auth_token: Some("sk-secret".to_owned()),
    };
    let rendered = judge.debug_text();
    assert!(
        !rendered.contains("sk-secret"),
        "the token must never reach a log line, got {rendered}"
    );
    assert!(
        rendered.contains("[redacted]"),
        "the redaction marker keeps the field visible, got {rendered}"
    );
}

#[test]
fn debug_shows_absent_tokens_as_none() {
    let judge = JudgeConfig {
        endpoint: "http://localhost:8000/v1/chat/completions".to_owned(),
        model: "judge-model".to_owned(),
        timeout_ms: 5000,
        verify_tls: false,
        auth_token: None,
    };
    let rendered = judge.debug_text();
    assert!(
        rendered.contains("auth_token: None"),
        "an absent token renders as None, got {rendered}"
    );
}

#[test]
fn debug_renders_every_field() {
    let judge = JudgeConfig {
        endpoint: "http://h/\"q\"".to_owned(),
        model: "m\n".to_owned(),
        timeout_ms: 120,
        verify_tls: false,
        auth_token: Some("t".to_owned()),
    };
    assert_eq!(
        judge.debug_text(),
        "JudgeConfig { endpoint: \"http://h/\\\"q\\\"\", model: \"m\\n\", timeout_ms: 120, \
         verify_tls: false, auth_token: Some(\"[redacted]\") }"
    );
}

#[test]
fn target_selects_the_configured_tier() {
    let config = parse(valid_raw(), None, machine()).ok().expect("should parse");
    assert_eq!(
        config.target(Tier::Weak).cluster,
        "weak-cluster",
        "the weak tier maps to the weak target"
    );
    assert_eq!(
        config.target(Tier::Strong).model,
        "strong-model",
        "the strong tier maps to the strong target"
    );
}

#[test]
fn both_clusters_are_declared() {
    let config = parse(valid_raw(), None, machine()).ok().expect("should parse");
    assert_eq!(
        config.selected_clusters(),
        vec!["weak-cluster".to_owned(), "strong-cluster".to_owned()]
    );
}

#[test]
fn tier_ordering() {
    assert!(Tier::Weak < Tier::Strong);
}

#[test]
fn tier_is_max() {
    assert!(!Tier::Weak.is_max(), "Weak is not the maximum tier");
    assert!(Tier::Strong.is_max(), "Strong is the maximum tier");
}

#[test]
fn tier_tags_round_trip() {
    for tier in [Tier::Weak, Tier::Strong] {
        assert_eq!(
            Tier::from_tag(tier.tag()),
            Some(tier),
            "every tier's tag must parse back to itself"
        );
    }
    assert_eq!(Tier::Weak.tag(), "weak", "the weak tag is part of the Switchyard contract");
    assert_eq!(
        Tier::Strong.tag(),
        "strong",
        "the strong tag is part of the Switchyard contract"
    );
    assert_eq!(
        Tier::from_tag("medium"),
        None,
        "an unrecognised decision tag must not resolve to a tier"
    );
}

#[test]
fn the_classifier_is_set_up_with_the_tiers() {
    let config = parse(with_threshold(0.75), None, machine()).ok().expect("should parse");
    let plan = classifier_plan(&config);
    assert_eq!(plan.judge, "judge");
    assert_eq!(Tier::from_tag(plan.efficient), Some(Tier::Weak));
    assert_eq!(Tier::from_tag(plan.capable), Some(Tier::Strong));
    assert_eq!(Tier::from_tag(plan.judge), None);
    assert_eq!(f64::from_bits(plan.threshold), 0.75);
    assert!(!plan.session_affinity);
}

#[test]
fn the_byte_order_is_kept() {
    for order in [ByteOrder::Little, ByteOrder::Big] {
        let config = parse(valid_raw(), None, order).ok().expect("should parse");
        assert_eq!(config.byte_order, order);
    }
}
