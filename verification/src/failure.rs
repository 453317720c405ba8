//! What a failed routing attempt turns into: reuse, default Strong, reject or unrouted.

use vstd::prelude::*;

use crate::config::{FailureMode, Tier};

verus! {

/// Decision token of a live verdict.
pub const DECISION_ROUTED: &'static str = "routed";

/// Decision token of a rejected request.
pub const DECISION_REJECTED: &'static str = "rejected";

/// Decision token of a request passed through without a tier.
pub const DECISION_UNROUTED: &'static str = "unrouted";

/// Decision token of a request the session floor answered.
pub const DECISION_FLOOR_SKIP: &'static str = "floor_skip";

/// How to finish a request whose routing failed.
#[derive(Debug, Clone, Copy, PartialEq, Eq, Structural)]
pub enum FailureAction {
    /// HTTP 503; any remembered tier is ignored.
    Reject,
    /// Continue without rewriting the request or selecting a cluster.
    Unrouted,
    /// Rewrite to a tier and continue.
    Apply(FailureApply),
}

/// Tier applied after a failure, and why.
#[derive(Debug, Clone, Copy, PartialEq, Eq, Structural)]
pub struct FailureApply {
    pub tier: Tier,
    pub kind: FailureApplyKind,
}

/// Why a failure still selected a tier.
#[derive(Debug, Clone, Copy, PartialEq, Eq, Structural)]
pub enum FailureApplyKind {
    /// Last successful verdict of this session.
    Reuse,
    /// No remembered success: serve Strong and do not record it.
    DefaultStrong,
}

impl FailureApplyKind {
    /// Decision token of this kind.
    pub open spec fn spec_metadata(self) -> Seq<char> {
        match self {
            FailureApplyKind::Reuse => "reuse"@,
            FailureApplyKind::DefaultStrong => "default_strong"@,
        }
    }

    /// Decision token of this kind.
    pub fn metadata(self) -> (token: &'static str)
        ensures
            token@ == self.spec_metadata(),
    {
        match self {
            FailureApplyKind::Reuse => "reuse",
            FailureApplyKind::DefaultStrong => "default_strong",
        }
    }
}

/// Tier served without a live decision: the remembered one, else Strong.
pub open spec fn fallback(remembered: Option<Tier>) -> FailureApply {
    match remembered {
        Some(tier) => FailureApply { tier, kind: FailureApplyKind::Reuse },
        None => FailureApply { tier: Tier::Strong, kind: FailureApplyKind::DefaultStrong },
    }
}

/// Outcome of a failure: closed rejects whatever else holds; open applies the
/// fallback tier where the request may be rewritten and passes it on otherwise.
pub open spec fn failure_outcome(
    mode: FailureMode,
    may_apply: bool,
    remembered: Option<Tier>,
) -> FailureAction {
    if mode == FailureMode::Closed {
        FailureAction::Reject
    } else if may_apply {
        FailureAction::Apply(fallback(remembered))
    } else {
        FailureAction::Unrouted
    }
}

/// Chooses reject, unrouted or apply.
pub fn failure_action(mode: FailureMode, may_apply: bool, remembered: Option<Tier>) -> (action:
    FailureAction)
    ensures
        action == failure_outcome(mode, may_apply, remembered),
{
    if may_apply {
        live_chat_failure(mode, remembered)
    } else {
        closed_or_unrouted(mode)
    }
}

/// Failure of a chat request that can be rewritten.
pub fn live_chat_failure(mode: FailureMode, remembered: Option<Tier>) -> (action: FailureAction)
    ensures
        action == failure_outcome(mode, true, remembered),
{
    match mode {
        FailureMode::Closed => FailureAction::Reject,
        FailureMode::Open => FailureAction::Apply(open_apply(remembered)),
    }
}

/// Reuses a stored success, or defaults to Strong.
pub fn open_apply(remembered: Option<Tier>) -> (apply: FailureApply)
    ensures
        apply == fallback(remembered),
{
    match remembered {
        Some(tier) => FailureApply { tier, kind: FailureApplyKind::Reuse },
        None => FailureApply { tier: Tier::Strong, kind: FailureApplyKind::DefaultStrong },
    }
}

/// Failure of a request that must not be rewritten.
pub fn closed_or_unrouted(mode: FailureMode) -> (action: FailureAction)
    ensures
        forall|remembered: Option<Tier>|
            action == #[trigger] failure_outcome(mode, false, remembered),
{
    match mode {
        FailureMode::Closed => FailureAction::Reject,
        FailureMode::Open => FailureAction::Unrouted,
    }
}

/// Log line for an applied fallback: its message and the tag of its tier.
pub fn log_failure_apply(apply: FailureApply) -> (line: (&'static str, &'static str))
    ensures
        line.0@ == (match apply.kind {
            FailureApplyKind::Reuse => "switchyard_route: reuse"@,
            FailureApplyKind::DefaultStrong => "switchyard_route: default_strong"@,
        }),
        line.1@ == apply.tier.spec_tag(),
{
    match apply.kind {
        FailureApplyKind::Reuse => ("switchyard_route: reuse", apply.tier.tag()),
        FailureApplyKind::DefaultStrong => ("switchyard_route: default_strong", apply.tier.tag()),
    }
}

/// A closed failure is a rejection, whatever the session remembers.
pub proof fn law_closed_ignores_the_session(
    may_apply: bool,
    left: Option<Tier>,
    right: Option<Tier>,
)
    ensures
        failure_outcome(FailureMode::Closed, may_apply, left) == FailureAction::Reject,
        failure_outcome(FailureMode::Closed, may_apply, left) == failure_outcome(
            FailureMode::Closed,
            may_apply,
            right,
        ),
{
}

/// An open failure of a rewritable request serves the remembered tier, and
/// Strong where nothing is remembered; it is never rejected.
pub proof fn law_open_serves_a_tier(remembered: Option<Tier>)
    ensures
        failure_outcome(FailureMode::Open, true, remembered) matches FailureAction::Apply(apply)
            && apply.tier == (match remembered {
            Some(tier) => tier,
            None => Tier::Strong,
        }) && (apply.kind == FailureApplyKind::Reuse <==> remembered is Some),
{
}

/// A failure is rejected exactly in closed mode; otherwise it is passed on
/// unrouted exactly where it must not be rewritten.
pub proof fn law_mode_and_request_decide(
    mode: FailureMode,
    may_apply: bool,
    remembered: Option<Tier>,
)
    ensures
        failure_outcome(mode, may_apply, remembered) is Reject <==> mode == FailureMode::Closed,
        failure_outcome(mode, may_apply, remembered) is Unrouted <==> mode == FailureMode::Open
            && !may_apply,
        failure_outcome(mode, may_apply, remembered) is Apply <==> mode == FailureMode::Open
            && may_apply,
{
}

/// The tier after a failure is the remembered one, under the token `reuse`, and
/// Strong under the token `default_strong` where nothing is remembered.
pub proof fn law_fallback_is_what_was_remembered(tier: Tier)
    ensures
        fallback(Some(tier)).tier == tier,
        fallback(Some(tier)).kind.spec_metadata() == "reuse"@,
        fallback(None).tier == Tier::Strong,
        fallback(None).kind.spec_metadata() == "default_strong"@,
{
}

/// The tokens under which decisions are recorded.
pub proof fn law_decision_tokens()
    ensures
        DECISION_ROUTED@ == "routed"@,
        DECISION_REJECTED@ == "rejected"@,
        DECISION_UNROUTED@ == "unrouted"@,
        DECISION_FLOOR_SKIP@ == "floor_skip"@,
        FailureApplyKind::Reuse.spec_metadata() == "reuse"@,
        FailureApplyKind::DefaultStrong.spec_metadata() == "default_strong"@,
{
}

/// The log line of a fallback names how it came about and the tier it serves.
pub proof fn law_fallback_log_line(
    apply: FailureApply,
    line: (&'static str, &'static str),
)
    requires
        call_ensures(log_failure_apply, (apply,), line),
    ensures
        line.0@ == "switchyard_route: reuse"@ || line.0@ == "switchyard_route: default_strong"@,
        apply.kind == FailureApplyKind::Reuse ==> line.0@ == "switchyard_route: reuse"@,
        apply.kind == FailureApplyKind::DefaultStrong ==> line.0@
            == "switchyard_route: default_strong"@,
        apply.tier == Tier::Weak ==> line.1@ == "weak"@,
        apply.tier == Tier::Strong ==> line.1@ == "strong"@,
{
}

/// What a failed request that must not be rewritten comes to depends on the mode
/// alone.
pub proof fn law_unrewritable_failure_by_mode(mode: FailureMode, action: FailureAction)
    requires
        call_ensures(closed_or_unrouted, (mode,), action),
    ensures
        mode == FailureMode::Closed ==> action == FailureAction::Reject,
        mode == FailureMode::Open ==> action == FailureAction::Unrouted,
{
    assert(action == failure_outcome(mode, false, None));
}

} // verus!
