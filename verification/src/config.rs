//! Tiers, modes and the validated configuration.

use vstd::prelude::*;
use vstd::string::StringExecFns;

use crate::session::ByteOrder;
use crate::text::{decimal, decimal_text, join, quoted, quoted_text, text_eq};
use crate::uri::{opt_text, parse_uri, parsed_uri, shape_of, UriParts, UriShape};

verus! {

/// What happens to a request whose routing failed.
#[derive(Debug, Clone, Copy, PartialEq, Eq, Structural)]
pub enum FailureMode {
    /// Pass the request through.
    Open,
    /// Reject the request with 503.
    Closed,
}

impl Default for FailureMode {
    fn default() -> (mode: Self)
        ensures
            mode == FailureMode::Open,
    {
        FailureMode::Open
    }
}

/// Whether a session may drop to a weaker tier.
#[derive(Debug, Clone, Copy, PartialEq, Eq, Structural)]
pub enum SessionFloor {
    /// A session that reached Strong stays Strong; the judge is skipped there.
    Enabled,
    /// Every turn gets a fresh verdict.
    Disabled,
}

impl Default for SessionFloor {
    fn default() -> (floor: Self)
        ensures
            floor == SessionFloor::Enabled,
    {
        SessionFloor::Enabled
    }
}

/// A model tier. `Weak` orders before `Strong`.
#[derive(Debug, Clone, Copy, PartialEq, Eq, PartialOrd, Ord, Structural)]
pub enum Tier {
    Weak,
    Strong,
}

impl Tier {
    /// The tag that names this tier to the classifier.
    pub open spec fn spec_tag(self) -> Seq<char> {
        match self {
            Tier::Weak => "weak"@,
            Tier::Strong => "strong"@,
        }
    }

    /// Position in the order of tiers.
    pub open spec fn rank(self) -> int {
        match self {
            Tier::Weak => 0,
            Tier::Strong => 1,
        }
    }

    /// The higher of two tiers.
    pub open spec fn highest(self, other: Tier) -> Tier {
        if self.rank() >= other.rank() {
            self
        } else {
            other
        }
    }

    /// The tag that names this tier to the classifier.
    pub fn tag(self) -> (tag: &'static str)
        ensures
            tag@ == self.spec_tag(),
    {
        match self {
            Tier::Weak => "weak",
            Tier::Strong => "strong",
        }
    }

    /// The tier a classifier tag names; other tags name none.
    pub fn from_tag(tag: &str) -> (tier: Option<Tier>)
        ensures
            tier == tier_of_tag(tag@),
    {
        if text_eq(tag, "weak") {
            Some(Tier::Weak)
        } else if text_eq(tag, "strong") {
            Some(Tier::Strong)
        } else {
            None
        }
    }

    /// Whether no tier lies above this one, so that a verdict cannot raise it.
    pub fn is_max(self) -> (max: bool)
        ensures
            max == (self == Tier::Strong),
            max == (forall|other: Tier| other.rank() <= self.rank()),
    {
        assert(Tier::Strong.rank() > Tier::Weak.rank());
        self == Tier::Strong
    }
}

/// The tier whose tag is `tag`.
pub open spec fn tier_of_tag(tag: Seq<char>) -> Option<Tier> {
    if tag == "weak"@ {
        Some(Tier::Weak)
    } else if tag == "strong"@ {
        Some(Tier::Strong)
    } else {
        None
    }
}

/// A tag names a tier exactly when it is that tier's own tag.
pub proof fn law_tags_round_trip(tier: Tier, tag: Seq<char>)
    ensures
        tier_of_tag(tier.spec_tag()) == Some(tier),
        tier_of_tag(tag) == Some(tier) <==> tag == tier.spec_tag(),
{
    reveal_strlit("weak");
    reveal_strlit("strong");
    assert("weak"@.len() != "strong"@.len());
}

/// Judge callout settings.
#[derive(Clone)]
pub struct JudgeConfig {
    pub endpoint: String,
    pub model: String,
    pub timeout_ms: u64,
    pub verify_tls: bool,
    /// Bearer token, if one is configured.
    pub auth_token: Option<String>,
}

/// Cluster and model of a tier.
#[derive(Debug, Clone)]
pub struct TargetConfig {
    pub cluster: String,
    pub model: String,
}

/// Validated configuration.
#[derive(Clone)]
pub struct RouteConfig {
    pub judge: JudgeConfig,
    pub weak: TargetConfig,
    pub strong: TargetConfig,
    /// IEEE 754 binary64 representation of the classifier threshold.
    pub threshold: u64,
    pub on_failure: FailureMode,
    pub session_floor: SessionFloor,
    /// Byte order of the machine, which the hashes of session keys follow.
    pub byte_order: ByteOrder,
}

/// Configuration as written; absent options are `None`.
#[derive(Debug)]
pub struct RawConfig {
    pub judge: RawJudge,
    pub weak: TargetConfig,
    pub strong: TargetConfig,
    /// IEEE 754 binary64 representation.
    pub threshold: Option<u64>,
    pub on_failure: Option<FailureMode>,
    pub session_floor: Option<SessionFloor>,
}

/// Judge settings as written.
#[derive(Debug)]
pub struct RawJudge {
    pub endpoint: String,
    pub model: String,
    pub timeout_ms: Option<u64>,
    pub verify_tls: Option<bool>,
    /// Environment variable that holds the bearer token.
    pub auth_value_env: Option<String>,
}

/// Why a configuration is refused.
#[derive(Debug, PartialEq, Eq)]
pub enum ConfigError {
    /// Threshold outside the unit interval.
    Threshold,
    /// Judge endpoint that is no URL.
    Endpoint,
    /// Empty name of the token variable.
    EmptyAuthEnv,
    /// Token variable that is unset or empty.
    UnsetAuthEnv(String),
}

/// Mathematical [`ConfigError`].
pub enum ConfigFault {
    Threshold,
    Endpoint,
    EmptyAuthEnv,
    UnsetAuthEnv(Seq<char>),
}

impl View for ConfigError {
    type V = ConfigFault;

    open spec fn view(&self) -> ConfigFault {
        match self {
            ConfigError::Threshold => ConfigFault::Threshold,
            ConfigError::Endpoint => ConfigFault::Endpoint,
            ConfigError::EmptyAuthEnv => ConfigFault::EmptyAuthEnv,
            ConfigError::UnsetAuthEnv(name) => ConfigFault::UnsetAuthEnv(name@),
        }
    }
}

impl ConfigFault {
    /// Rendered cause.
    pub open spec fn message(self) -> Seq<char> {
        match self {
            ConfigFault::Threshold => "threshold must be between 0.0 and 1.0"@,
            ConfigFault::Endpoint => "judge.endpoint is not a valid URL"@,
            ConfigFault::EmptyAuthEnv => "judge.auth.value_env must not be empty"@,
            ConfigFault::UnsetAuthEnv(name) => "judge.auth.value_env '"@ + name
                + "' is unset or empty"@,
        }
    }
}

impl ConfigError {
    /// Renders the cause.
    pub fn message(&self) -> (text: String)
        ensures
            text@ == self@.message(),
    {
        match self {
            ConfigError::Threshold => "threshold must be between 0.0 and 1.0".to_owned(),
            ConfigError::Endpoint => "judge.endpoint is not a valid URL".to_owned(),
            ConfigError::EmptyAuthEnv => "judge.auth.value_env must not be empty".to_owned(),
            ConfigError::UnsetAuthEnv(name) => join("judge.auth.value_env '", name.as_str()).concat(
                "' is unset or empty",
            ),
        }
    }
}

/// Binary64 representation of one.
pub const ONE_BITS: u64 = 0x3FF0_0000_0000_0000;

/// Binary64 representation of one half.
pub const HALF_BITS: u64 = 0x3FE0_0000_0000_0000;

/// Binary64 representation of negative zero.
pub const NEGATIVE_ZERO_BITS: u64 = 0x8000_0000_0000_0000;

/// Whether a binary64 number lies between zero and one, both included.
/// Non-negative numbers are ordered like their representations; negative zero
/// equals zero.
pub open spec fn in_unit_interval(bits: u64) -> bool {
    bits <= ONE_BITS || bits == NEGATIVE_ZERO_BITS
}

/// Threshold used when none is configured: one half.
pub fn default_threshold() -> (bits: u64)
    ensures
        bits == HALF_BITS,
{
    HALF_BITS
}

/// Judge timeout used when none is configured, in milliseconds.
pub fn default_timeout() -> (ms: u64)
    ensures
        ms == 5000,
{
    5000
}

/// TLS verification is on unless disabled.
pub fn default_verify_tls() -> (verify: bool)
    ensures
        verify,
{
    true
}

/// Why `raw` is refused, given what its endpoint parses to and what its token
/// variable holds; `None` where it is accepted. The threshold is checked first,
/// then the endpoint, then the token.
pub open spec fn config_fault(
    raw: RawConfig,
    endpoint: Result<UriShape, Seq<char>>,
    auth_value: Option<Seq<char>>,
) -> Option<ConfigFault> {
    if raw.threshold matches Some(bits) && !in_unit_interval(bits) {
        Some(ConfigFault::Threshold)
    } else if endpoint is Err {
        Some(ConfigFault::Endpoint)
    } else {
        match raw.judge.auth_value_env {
            None => None,
            Some(name) => if name@.len() == 0 {
                Some(ConfigFault::EmptyAuthEnv)
            } else if auth_value is None || auth_value->0.len() == 0 {
                Some(ConfigFault::UnsetAuthEnv(name@))
            } else {
                None
            },
        }
    }
}

/// Whether `config` is what an accepted `raw` stands for: its settings, with the
/// defaults where it has none, and the token only where a variable is named.
pub open spec fn config_matches(
    config: RouteConfig,
    raw: RawConfig,
    auth_value: Option<Seq<char>>,
    byte_order: ByteOrder,
) -> bool {
    &&& config.byte_order == byte_order
    &&& config.judge.endpoint@ == raw.judge.endpoint@
    &&& config.judge.model@ == raw.judge.model@
    &&& config.judge.timeout_ms == (match raw.judge.timeout_ms {
        Some(ms) => ms,
        None => 5000,
    })
    &&& config.judge.verify_tls == (match raw.judge.verify_tls {
        Some(verify) => verify,
        None => true,
    })
    &&& opt_text(config.judge.auth_token) == if raw.judge.auth_value_env is Some {
        auth_value
    } else {
        None
    }
    &&& config.weak == raw.weak
    &&& config.strong == raw.strong
    &&& config.threshold == (match raw.threshold {
        Some(bits) => bits,
        None => HALF_BITS,
    })
    &&& config.on_failure == (match raw.on_failure {
        Some(mode) => mode,
        None => FailureMode::Open,
    })
    &&& config.session_floor == (match raw.session_floor {
        Some(floor) => floor,
        None => SessionFloor::Enabled,
    })
}

/// Outcome of validating `raw`.
pub open spec fn config_outcome(
    outcome: Result<RouteConfig, ConfigError>,
    raw: RawConfig,
    endpoint: Result<UriShape, Seq<char>>,
    auth_value: Option<Seq<char>>,
    byte_order: ByteOrder,
) -> bool {
    match config_fault(raw, endpoint, auth_value) {
        Some(fault) => outcome matches Err(err) && err@ == fault,
        None => outcome matches Ok(config) && config_matches(config, raw, auth_value, byte_order),
    }
}

/// Validates a configuration. `auth_value` is what the environment holds under
/// the token variable that `raw` names, `byte_order` that of the machine.
pub fn parse(raw: RawConfig, auth_value: Option<String>, byte_order: ByteOrder) -> (outcome: Result<
    RouteConfig,
    ConfigError,
>)
    ensures
        config_outcome(
            outcome,
            raw,
            parsed_uri(raw.judge.endpoint@),
            opt_text(auth_value),
            byte_order,
        ),
{
    let endpoint = parse_uri(raw.judge.endpoint.as_str());
    validate(raw, endpoint, auth_value, byte_order)
}

/// Validates a configuration whose endpoint has been parsed.
pub fn validate(
    raw: RawConfig,
    endpoint: Result<UriParts, String>,
    auth_value: Option<String>,
    byte_order: ByteOrder,
) -> (outcome: Result<RouteConfig, ConfigError>)
    ensures
        config_outcome(outcome, raw, shape_of(endpoint), opt_text(auth_value), byte_order),
{
    let threshold: u64 = match raw.threshold {
        Some(bits) => bits,
        None => default_threshold(),
    };
    if threshold > ONE_BITS && threshold != NEGATIVE_ZERO_BITS {
        return Err(ConfigError::Threshold);
    }
    if endpoint.is_err() {
        return Err(ConfigError::Endpoint);
    }
    let auth_token: Option<String> = match raw.judge.auth_value_env {
        None => None,
        Some(name) => {
            if name.as_str().is_empty() {
                return Err(ConfigError::EmptyAuthEnv);
            }
            match auth_value {
                None => {
                    return Err(ConfigError::UnsetAuthEnv(name));
                },
                Some(value) => {
                    if value.as_str().is_empty() {
                        return Err(ConfigError::UnsetAuthEnv(name));
                    }
                    Some(value)
                },
            }
        },
    };
    Ok(
        RouteConfig {
            judge: JudgeConfig {
                endpoint: raw.judge.endpoint,
                model: raw.judge.model,
                timeout_ms: match raw.judge.timeout_ms {
                    Some(ms) => ms,
                    None => default_timeout(),
                },
                verify_tls: match raw.judge.verify_tls {
                    Some(verify) => verify,
                    None => default_verify_tls(),
                },
                auth_token,
            },
            weak: raw.weak,
            strong: raw.strong,
            threshold,
            on_failure: match raw.on_failure {
                Some(mode) => mode,
                None => FailureMode::default(),
            },
            session_floor: match raw.session_floor {
                Some(floor) => floor,
                None => SessionFloor::default(),
            },
            byte_order,
        },
    )
}

/// An accepted configuration has a threshold in the unit interval, an endpoint
/// that parses, and a token only where a variable is named; the token is what
/// that variable holds and is not empty.
pub proof fn law_accepted_config_is_valid(
    config: RouteConfig,
    raw: RawConfig,
    endpoint: Result<UriShape, Seq<char>>,
    auth_value: Option<Seq<char>>,
    byte_order: ByteOrder,
)
    requires
        config_outcome(Ok(config), raw, endpoint, auth_value, byte_order),
    ensures
        in_unit_interval(config.threshold),
        endpoint is Ok,
        config.judge.auth_token is Some <==> raw.judge.auth_value_env is Some,
        config.judge.auth_token matches Some(token) ==> Some(token@) == auth_value && token@.len()
            > 0,
{
}

impl RouteConfig {
    /// Cluster and model of a tier.
    pub open spec fn spec_target(self, tier: Tier) -> TargetConfig {
        match tier {
            Tier::Weak => self.weak,
            Tier::Strong => self.strong,
        }
    }

    /// Cluster and model of a tier.
    pub fn target(&self, tier: Tier) -> (target: &TargetConfig)
        ensures
            *target == self.spec_target(tier),
    {
        match tier {
            Tier::Weak => &self.weak,
            Tier::Strong => &self.strong,
        }
    }

    /// Every cluster a request may be sent to, the weak one first.
    pub fn selected_clusters(&self) -> (clusters: Vec<String>)
        ensures
            clusters@.len() == 2,
            clusters@[0]@ == self.weak.cluster@,
            clusters@[1]@ == self.strong.cluster@,
    {
        let mut clusters: Vec<String> = Vec::new();
        clusters.push(self.weak.cluster.clone());
        clusters.push(self.strong.cluster.clone());
        clusters
    }
}

/// How the classifier is set up.
#[derive(Debug, PartialEq, Eq)]
pub struct ClassifierPlan {
    /// Name of the judge target.
    pub judge: &'static str,
    /// Name of the target that is tried first.
    pub efficient: &'static str,
    /// Name of the target for what the first cannot solve.
    pub capable: &'static str,
    /// IEEE 754 binary64 representation of the base threshold.
    pub threshold: u64,
    /// Whether the classifier itself keeps a session on one target.
    pub session_affinity: bool,
}

/// Sets the classifier up: its targets are named by the tiers' tags, and
/// sessions are left to the session store.
pub fn classifier_plan(config: &RouteConfig) -> (plan: ClassifierPlan)
    ensures
        plan.judge@ == "judge"@,
        plan.efficient@ == Tier::Weak.spec_tag(),
        plan.capable@ == Tier::Strong.spec_tag(),
        plan.threshold == config.threshold,
        !plan.session_affinity,
{
    ClassifierPlan {
        judge: "judge",
        efficient: Tier::Weak.tag(),
        capable: Tier::Strong.tag(),
        threshold: config.threshold,
        session_affinity: false,
    }
}

/// Rendering of a flag.
pub open spec fn flag_text(flag: bool) -> Seq<char> {
    if flag {
        "true"@
    } else {
        "false"@
    }
}

impl JudgeConfig {
    /// Diagnostic rendering. Of the token only its presence shows.
    pub open spec fn spec_debug_text(self) -> Seq<char> {
        "JudgeConfig { endpoint: "@ + quoted_text(self.endpoint@) + ", model: "@ + quoted_text(
            self.model@,
        ) + ", timeout_ms: "@ + decimal_text(self.timeout_ms as nat) + ", verify_tls: "@
            + flag_text(self.verify_tls) + ", auth_token: "@ + if self.auth_token is Some {
            "Some(\"[redacted]\")"@
        } else {
            "None"@
        } + " }"@
    }

    /// Diagnostic rendering without the token.
    pub fn debug_text(&self) -> (text: String)
        ensures
            text@ == self.spec_debug_text(),
    {
        let endpoint = quoted(self.endpoint.as_str());
        let model = quoted(self.model.as_str());
        let timeout = decimal(self.timeout_ms);
        let verify = if self.verify_tls {
            "true"
        } else {
            "false"
        };
        let token = match &self.auth_token {
            Some(_) => "Some(\"[redacted]\")",
            None => "None",
        };
        join("JudgeConfig { endpoint: ", endpoint.as_str()).concat(", model: ").concat(
            model.as_str(),
        ).concat(", timeout_ms: ").concat(timeout.as_str()).concat(", verify_tls: ").concat(
            verify,
        ).concat(", auth_token: ").concat(token).concat(" }")
    }
}

/// The rendering of a judge configuration does not depend on its token.
pub proof fn law_debug_text_hides_the_token(config: JudgeConfig, token: String, other: String)
    ensures
        (JudgeConfig { auth_token: Some(token), ..config }).spec_debug_text() == (JudgeConfig {
            auth_token: Some(other),
            ..config
        }).spec_debug_text(),
{
}

/// The tags of the two tiers, and no other tag, name a tier.
pub proof fn law_only_two_tags_name_a_tier(tag: Seq<char>)
    ensures
        Tier::Weak.spec_tag() == "weak"@,
        Tier::Strong.spec_tag() == "strong"@,
        tier_of_tag("weak"@) == Some(Tier::Weak),
        tier_of_tag("strong"@) == Some(Tier::Strong),
        tag != "weak"@ && tag != "strong"@ ==> tier_of_tag(tag) is None,
{
    law_tags_round_trip(Tier::Weak, tag);
    law_tags_round_trip(Tier::Strong, tag);
}

/// Weak lies below Strong, and the higher of two tiers is Strong exactly where
/// one of them is.
pub proof fn law_strong_is_above_weak(left: Tier, right: Tier)
    ensures
        Tier::Weak.rank() < Tier::Strong.rank(),
        left.highest(right) == Tier::Strong <==> left == Tier::Strong || right == Tier::Strong,
        left.highest(right) == right.highest(left),
{
}

/// A binary64 number lies in the unit interval exactly where it is a zero of
/// either sign, has a clear sign and an exponent below that of one, or is one
/// itself: the exponent takes the eleven bits above the fraction's fifty-two.
pub proof fn law_unit_interval_by_exponent(bits: u64)
    ensures
        in_unit_interval(bits) <==> {
            let sign = bits as int / 0x8000_0000_0000_0000;
            let exponent = (bits as int / 0x10_0000_0000_0000) % 2048;
            let fraction = bits as int % 0x10_0000_0000_0000;
            ||| exponent == 0 && fraction == 0
            ||| sign == 0 && exponent < 1023
            ||| sign == 0 && exponent == 1023 && fraction == 0
        },
{
}

/// A configuration is refused for its threshold exactly where that lies outside
/// the unit interval, then for an endpoint that does not parse, then for a token
/// variable without a name, unset or empty; any other one is accepted.
pub proof fn law_configs_are_accepted_or_refused(
    raw: RawConfig,
    endpoint: Result<UriShape, Seq<char>>,
    auth_value: Option<Seq<char>>,
)
    ensures
        ({
            let fault = config_fault(raw, endpoint, auth_value);
            let fits = raw.threshold is None || in_unit_interval(raw.threshold->0);
            let name = raw.judge.auth_value_env;
            let filled = auth_value is Some && auth_value->0.len() > 0;
            &&& fault == Some(ConfigFault::Threshold) <==> !fits
            &&& fault == Some(ConfigFault::Endpoint) <==> fits && endpoint is Err
            &&& fault == Some(ConfigFault::EmptyAuthEnv) <==> fits && endpoint is Ok && (
            name matches Some(name) && name@.len() == 0)
            &&& fault is Some && fault->0 is UnsetAuthEnv <==> fits && endpoint is Ok && (
            name matches Some(name) && name@.len() > 0) && !filled
            &&& fault matches Some(ConfigFault::UnsetAuthEnv(unset)) ==> unset == name->0@
            &&& fault is None <==> fits && endpoint is Ok && (name is None || name->0@.len() > 0
                && filled)
        }),
{
}

/// An accepted configuration holds every setting as it was written. What was
/// left out is half for the threshold, five seconds for the judge, checked
/// certificates, open failures and an enabled floor.
pub proof fn law_accepted_config_keeps_every_setting(
    config: RouteConfig,
    raw: RawConfig,
    endpoint: Result<UriShape, Seq<char>>,
    auth_value: Option<Seq<char>>,
    byte_order: ByteOrder,
)
    requires
        config_outcome(Ok(config), raw, endpoint, auth_value, byte_order),
    ensures
        config.judge.endpoint@ == raw.judge.endpoint@,
        config.judge.model@ == raw.judge.model@,
        config.weak.cluster@ == raw.weak.cluster@,
        config.weak.model@ == raw.weak.model@,
        config.strong.cluster@ == raw.strong.cluster@,
        config.strong.model@ == raw.strong.model@,
        config.byte_order == byte_order,
        raw.judge.timeout_ms matches Some(ms) ==> config.judge.timeout_ms == ms,
        raw.judge.timeout_ms is None ==> config.judge.timeout_ms == 5000,
        raw.judge.verify_tls matches Some(verify) ==> config.judge.verify_tls == verify,
        raw.judge.verify_tls is None ==> config.judge.verify_tls,
        raw.threshold matches Some(bits) ==> config.threshold == bits,
        raw.threshold is None ==> config.threshold == 0x3FE0_0000_0000_0000,
        raw.on_failure matches Some(mode) ==> config.on_failure == mode,
        raw.on_failure is None ==> config.on_failure == FailureMode::Open,
        raw.session_floor matches Some(floor) ==> config.session_floor == floor,
        raw.session_floor is None ==> config.session_floor == SessionFloor::Enabled,
        raw.judge.auth_value_env is Some ==> (config.judge.auth_token matches Some(token)
            && auth_value == Some(token@)),
        raw.judge.auth_value_env is None ==> config.judge.auth_token is None,
{
}

/// A refusal says what is wrong, with the whole name of an unset variable.
pub proof fn law_refusals_say_why(name: String)
    ensures
        ConfigError::Threshold@.message() == "threshold must be between 0.0 and 1.0"@,
        ConfigError::Endpoint@.message() == "judge.endpoint is not a valid URL"@,
        ConfigError::EmptyAuthEnv@.message() == "judge.auth.value_env must not be empty"@,
        ConfigError::UnsetAuthEnv(name)@.message() == "judge.auth.value_env '"@ + name@
            + "' is unset or empty"@,
{
}

/// Each tier has its own target.
pub proof fn law_each_tier_has_its_target(config: RouteConfig)
    ensures
        config.spec_target(Tier::Weak) == config.weak,
        config.spec_target(Tier::Strong) == config.strong,
{
}

/// The rendering of a judge configuration shows its endpoint, its model, its
/// timeout, whether certificates are checked and whether there is a token.
pub proof fn law_debug_text_shows_the_rest(config: JudgeConfig)
    ensures
        ({
            let verify = if config.verify_tls {
                "true"@
            } else {
                "false"@
            };
            let token = if config.auth_token is None {
                "None"@
            } else {
                "Some(\"[redacted]\")"@
            };
            config.spec_debug_text() == "JudgeConfig { endpoint: "@ + quoted_text(config.endpoint@)
                + ", model: "@ + quoted_text(config.model@) + ", timeout_ms: "@ + decimal_text(
                config.timeout_ms as nat,
            ) + ", verify_tls: "@ + verify + ", auth_token: "@ + token + " }"@
        }),
{
}

/// The classifier tries the weak tier first, asks the judge by its own name, goes
/// by the configured threshold and leaves sessions to the store.
pub proof fn law_classifier_is_set_up_from_the_config(config: &RouteConfig, plan: ClassifierPlan)
    requires
        call_ensures(classifier_plan, (config,), plan),
    ensures
        plan.judge@ == "judge"@,
        plan.efficient@ == "weak"@,
        plan.capable@ == "strong"@,
        plan.threshold == config.threshold,
        !plan.session_affinity,
{
}

/// A request may be sent to the clusters of the two tiers and to no other one.
pub proof fn law_clusters_are_those_of_the_tiers(config: &RouteConfig, clusters: Vec<String>, i: int)
    requires
        call_ensures(RouteConfig::selected_clusters, (config,), clusters),
        0 <= i < clusters@.len(),
    ensures
        clusters@[i]@ == config.spec_target(
            if i == 0 {
                Tier::Weak
            } else {
                Tier::Strong
            },
        ).cluster@,
        clusters@.len() == 2,
{
}

/// A refused configuration is refused with its own fault, and only where it has
/// one.
pub proof fn law_refusal_is_the_fault(
    outcome: Result<RouteConfig, ConfigError>,
    raw: RawConfig,
    endpoint: Result<UriShape, Seq<char>>,
    auth_value: Option<Seq<char>>,
    byte_order: ByteOrder,
)
    requires
        config_outcome(outcome, raw, endpoint, auth_value, byte_order),
    ensures
        outcome is Err <==> config_fault(raw, endpoint, auth_value) is Some,
        outcome matches Err(err) ==> Some(err@) == config_fault(raw, endpoint, auth_value),
{
}

} // verus!
