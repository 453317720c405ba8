//! One routing turn: floor check, live verdict, and what a failure turns into.
//!
//! A turn starts in [`on_request_body`]. Where the judge has to be asked, the
//! turn is handed back as a [`PendingRoute`] and ends in [`resume`].

use vstd::prelude::*;

use crate::body::{asks_for, opt_bytes, parse_body, parsed_body, rewrite_for_tier, rewritten};
use crate::config::{FailureMode, RouteConfig, SessionFloor, Tier};
use crate::error::{RouteError, RouteFault};
use crate::failure::{
    fallback, failure_action, failure_outcome, FailureAction, FailureApply, DECISION_FLOOR_SKIP,
    DECISION_REJECTED, DECISION_ROUTED, DECISION_UNROUTED,
};
use crate::headers::header_fields;
use crate::json::{Json, JsonTree};
use crate::judge::tier_outcome;
use crate::session::{request_key, session_key_from_request, ByteOrder};
use crate::store::{SessionKey, SessionStore, StoreState};
use crate::text::{ends_with, has_suffix, truncate_chars, truncated};
use crate::uri::opt_text;

verus! {

/// Metadata key of the chosen cluster.
pub const METADATA_CLUSTER: &'static str = "switchyard_route.cluster";

/// Metadata key of the reason for the choice.
pub const METADATA_DECISION: &'static str = "switchyard_route.decision";

/// Metadata key of a routing error.
pub const METADATA_ERROR: &'static str = "switchyard_route.error";

/// End of the paths that are routed.
pub const CHAT_PATH: &'static str = "/chat/completions";

/// Most characters of an error that the metadata keep.
pub const ERROR_LIMIT: usize = 250;

/// Status of a rejected request.
pub const REJECT_STATUS: u16 = 503;

/// What the filter says about a request.
#[derive(Debug, Clone, Copy, PartialEq, Eq, Structural)]
pub enum FilterVerdict {
    /// Go on with the request.
    Continue,
    /// Answer with this status.
    Reject(u16),
}

/// A request while it is routed: its body and what is recorded about it.
#[derive(Debug, PartialEq, Eq)]
pub struct Exchange {
    /// Buffered body.
    pub body: Option<Vec<u8>>,
    /// Tier that serves the request.
    pub tier: Option<Tier>,
    /// Cluster that serves the request.
    pub cluster: Option<String>,
    /// Why that cluster, or none, was chosen.
    pub decision: Option<&'static str>,
    /// Why routing failed, cut for the metadata.
    pub error: Option<String>,
    /// Why routing failed, in full.
    pub cause: Option<String>,
    /// Why a fallback tier could not be served, in full.
    pub fallback_cause: Option<String>,
}

/// Mathematical [`Exchange`].
pub struct ExchangeState {
    pub body: Option<Seq<u8>>,
    pub tier: Option<Tier>,
    pub cluster: Option<Seq<char>>,
    pub decision: Option<Seq<char>>,
    pub error: Option<Seq<char>>,
    pub cause: Option<Seq<char>>,
    pub fallback_cause: Option<Seq<char>>,
}

impl View for Exchange {
    type V = ExchangeState;

    open spec fn view(&self) -> ExchangeState {
        ExchangeState {
            body: opt_bytes(self.body),
            tier: self.tier,
            cluster: opt_text(self.cluster),
            decision: match self.decision {
                Some(decision) => Some(decision@),
                None => None,
            },
            error: opt_text(self.error),
            cause: opt_text(self.cause),
            fallback_cause: opt_text(self.fallback_cause),
        }
    }
}

impl ExchangeState {
    /// Served by a tier: the body asks for the tier's model, and the tier and its
    /// cluster are recorded. Fails where the body cannot be rewritten.
    pub open spec fn served(
        self,
        config: RouteConfig,
        value: JsonTree,
        tier: Tier,
        decision: Seq<char>,
    ) -> Result<ExchangeState, RouteFault> {
        match rewritten(value, config.spec_target(tier).model@) {
            Ok(bytes) => Ok(
                ExchangeState {
                    body: Some(bytes),
                    tier: Some(tier),
                    cluster: Some(config.spec_target(tier).cluster@),
                    decision: Some(decision),
                    ..self
                },
            ),
            Err(fault) => Err(fault),
        }
    }

    /// With a decision recorded.
    pub open spec fn decided(self, decision: Seq<char>) -> ExchangeState {
        ExchangeState { decision: Some(decision), ..self }
    }

    /// With an error recorded.
    pub open spec fn erred(self, fault: RouteFault) -> ExchangeState {
        ExchangeState {
            error: Some(truncated(fault.message(), ERROR_LIMIT as nat)),
            cause: Some(fault.message()),
            ..self
        }
    }

    /// With the reason recorded why no fallback tier could be served.
    pub open spec fn without_fallback(self, fault: RouteFault) -> ExchangeState {
        ExchangeState { fallback_cause: Some(fault.message()), ..self }
    }
}

/// Whether a body reads as `value` with the model of `tier`.
pub open spec fn asks_tier(
    body: Option<Seq<u8>>,
    config: RouteConfig,
    value: JsonTree,
    tier: Tier,
) -> bool {
    value.is_plain() ==> (body matches Some(bytes) && asks_for(
        bytes,
        value,
        config.spec_target(tier).model@,
    ))
}

/// Serves a request with a tier. On failure the request stays as it is.
pub fn serve_tier(
    config: &RouteConfig,
    exchange: &mut Exchange,
    value: Json,
    tier: Tier,
    decision: &'static str,
) -> (outcome: Result<(), RouteError>)
    ensures
        match old(exchange)@.served(*config, value@, tier, decision@) {
            Ok(next) => outcome is Ok && final(exchange)@ == next && asks_tier(
                next.body,
                *config,
                value@,
                tier,
            ),
            Err(fault) => outcome matches Err(err) && err@ == fault && *final(exchange) == *old(
                exchange,
            ),
        },
{
    match rewrite_for_tier(config, &mut exchange.body, value, tier) {
        Err(err) => Err(err),
        Ok(cluster) => {
            exchange.tier = Some(tier);
            exchange.cluster = Some(cluster);
            exchange.decision = Some(decision);
            Ok(())
        },
    }
}

/// Records the reason of a failure, in full and cut to a readable length.
pub fn record_error_metadata(exchange: &mut Exchange, err: &RouteError)
    ensures
        final(exchange)@ == old(exchange)@.erred(err@),
{
    let message = err.message();
    exchange.error = Some(truncate_chars(message.as_str(), ERROR_LIMIT));
    exchange.cause = Some(message);
}

/// Rejects the request.
pub fn reject_closed(exchange: &mut Exchange) -> (verdict: FilterVerdict)
    ensures
        verdict == FilterVerdict::Reject(503),
        final(exchange)@ == old(exchange)@.decided(DECISION_REJECTED@),
{
    exchange.decision = Some(DECISION_REJECTED);
    FilterVerdict::Reject(REJECT_STATUS)
}

/// Passes the request on without a tier.
pub fn fail_open_unrouted(exchange: &mut Exchange) -> (verdict: FilterVerdict)
    ensures
        verdict == FilterVerdict::Continue,
        final(exchange)@ == old(exchange)@.decided(DECISION_UNROUTED@),
{
    exchange.decision = Some(DECISION_UNROUTED);
    FilterVerdict::Continue
}

/// End of a failed turn.
pub struct Ending {
    pub exchange: ExchangeState,
    pub verdict: FilterVerdict,
}

/// Passed on without a tier.
pub open spec fn unrouted(exchange: ExchangeState) -> Ending {
    Ending { exchange: exchange.decided(DECISION_UNROUTED@), verdict: FilterVerdict::Continue }
}

/// Served with a fallback tier, or passed on where the body cannot be rewritten.
pub open spec fn fallback_served(
    config: RouteConfig,
    exchange: ExchangeState,
    apply: FailureApply,
    value: JsonTree,
) -> Ending {
    match exchange.served(config, value, apply.tier, apply.kind.spec_metadata()) {
        Ok(next) => Ending { exchange: next, verdict: FilterVerdict::Continue },
        Err(fault) => unrouted(exchange.without_fallback(fault)),
    }
}

/// Serves a failed request with a fallback tier. Where the body cannot be
/// rewritten the request is passed on without one.
pub fn apply_failure_tier(
    config: &RouteConfig,
    exchange: &mut Exchange,
    apply: FailureApply,
    value: Json,
) -> (verdict: FilterVerdict)
    ensures
        (Ending { exchange: final(exchange)@, verdict }) == fallback_served(
            *config,
            old(exchange)@,
            apply,
            value@,
        ),
        value@ is Object ==> asks_tier(final(exchange)@.body, *config, value@, apply.tier),
{
    match serve_tier(config, exchange, value, apply.tier, apply.kind.metadata()) {
        Ok(_) => FilterVerdict::Continue,
        Err(err) => {
            exchange.fallback_cause = Some(err.message());
            fail_open_unrouted(exchange)
        },
    }
}

/// View of an optional key.
pub open spec fn opt_key(key: Option<SessionKey>) -> Option<Seq<char>> {
    match key {
        Some(key) => Some(key@),
        None => None,
    }
}

/// Tier that the store holds for an optional key.
pub open spec fn recalled(store: StoreState, key: Option<Seq<char>>, now: u128) -> Option<Tier> {
    match key {
        Some(key) => store.lookup(key, now),
        None => None,
    }
}

/// Store after an optional key was looked up.
pub open spec fn after_recall(store: StoreState, key: Option<Seq<char>>, now: u128) -> StoreState {
    match key {
        Some(key) => store.looked_up(key, now),
        None => store,
    }
}

/// Looks an optional key up.
fn recall(store: &mut SessionStore, key: &Option<SessionKey>, now: u128) -> (tier: Option<Tier>)
    ensures
        tier == recalled(old(store)@, opt_key(*key), now),
        final(store)@ == after_recall(old(store)@, opt_key(*key), now),
        old(store)@.wf() ==> final(store)@.wf(),
{
    match key {
        Some(key) => store.last_success(key, now),
        None => None,
    }
}

/// How a failure ends, given what is remembered and the document of the request
/// where it may be rewritten.
pub open spec fn failure_ending(
    config: RouteConfig,
    exchange: ExchangeState,
    may_apply: bool,
    remembered: Option<Tier>,
    value: Option<JsonTree>,
) -> Ending {
    match failure_outcome(config.on_failure, may_apply, remembered) {
        FailureAction::Reject => Ending {
            exchange: exchange.decided(DECISION_REJECTED@),
            verdict: FilterVerdict::Reject(503),
        },
        FailureAction::Unrouted => unrouted(exchange),
        FailureAction::Apply(apply) => match value {
            Some(value) => fallback_served(config, exchange, apply, value),
            None => unrouted(exchange),
        },
    }
}

/// View of an optional document.
pub open spec fn opt_tree(value: Option<Json>) -> Option<JsonTree> {
    match value {
        Some(value) => Some(value@),
        None => None,
    }
}

/// Ends a failed turn whose document and key are known.
pub fn finish_failure(
    config: &RouteConfig,
    store: &mut SessionStore,
    exchange: &mut Exchange,
    may_apply: bool,
    value: Option<Json>,
    key: Option<SessionKey>,
    now: u128,
) -> (verdict: FilterVerdict)
    ensures
        (Ending { exchange: final(exchange)@, verdict }) == failure_ending(
            *config,
            old(exchange)@,
            may_apply,
            recalled(old(store)@, opt_key(key), now),
            opt_tree(value),
        ),
        final(store)@ == after_recall(old(store)@, opt_key(key), now),
        config.on_failure == FailureMode::Open && may_apply ==> (opt_tree(value) matches Some(
            tree,
        ) ==> tree is Object ==> asks_tier(
            final(exchange)@.body,
            *config,
            tree,
            fallback(recalled(old(store)@, opt_key(key), now)).tier,
        )),
        old(store)@.wf() ==> final(store)@.wf(),
{
    let remembered = recall(store, &key, now);
    match failure_action(config.on_failure, may_apply, remembered) {
        FailureAction::Reject => reject_closed(exchange),
        FailureAction::Unrouted => fail_open_unrouted(exchange),
        FailureAction::Apply(apply) => match value {
            Some(value) => apply_failure_tier(config, exchange, apply, value),
            None => fail_open_unrouted(exchange),
        },
    }
}

/// Store and request of a turn.
pub struct TurnState {
    pub store: StoreState,
    pub exchange: ExchangeState,
}

/// The document that a fallback may rewrite after `fault`.
pub open spec fn fallback_value(body: Option<Seq<u8>>, fault: RouteFault) -> Option<JsonTree> {
    if fault.may_apply() {
        match parsed_body(body) {
            Ok(value) => Some(value),
            Err(_) => None,
        }
    } else {
        None
    }
}

/// Session key of an optional document.
pub open spec fn fallback_key(
    fields: Map<Seq<char>, Seq<u8>>,
    value: Option<JsonTree>,
    order: ByteOrder,
) -> Option<Seq<char>> {
    match value {
        Some(value) => request_key(fields, value, order),
        None => None,
    }
}

/// A turn that ended with a verdict.
pub struct Ended {
    pub turn: TurnState,
    pub verdict: FilterVerdict,
}

/// How a turn with a routing failure ends.
pub open spec fn failed_turn(
    config: RouteConfig,
    turn: TurnState,
    fields: Map<Seq<char>, Seq<u8>>,
    fault: RouteFault,
    now: u128,
) -> Ended {
    let value = fallback_value(turn.exchange.body, fault);
    let key = fallback_key(fields, value, config.byte_order);
    let ending = failure_ending(
        config,
        turn.exchange.erred(fault),
        fault.may_apply(),
        recalled(turn.store, key, now),
        value,
    );
    Ended {
        turn: TurnState {
            store: after_recall(turn.store, key, now),
            exchange: ending.exchange,
        },
        verdict: ending.verdict,
    }
}

/// Records a failure and applies the configured mode to it.
pub fn on_route_error(
    config: &RouteConfig,
    store: &mut SessionStore,
    exchange: &mut Exchange,
    headers: &http::HeaderMap,
    err: &RouteError,
    now: u128,
) -> (verdict: FilterVerdict)
    ensures
        (Ended {
            turn: TurnState { store: final(store)@, exchange: final(exchange)@ },
            verdict,
        }) == failed_turn(
            *config,
            TurnState { store: old(store)@, exchange: old(exchange)@ },
            header_fields(*headers),
            err@,
            now,
        ),
        config.on_failure == FailureMode::Open ==> (fallback_value(
            old(exchange)@.body,
            err@,
        ) matches Some(value) ==> value is Object ==> asks_tier(
            final(exchange)@.body,
            *config,
            value,
            fallback(
                recalled(
                    old(store)@,
                    request_key(header_fields(*headers), value, config.byte_order),
                    now,
                ),
            ).tier,
        )),
        old(store)@.wf() ==> final(store)@.wf(),
{
    record_error_metadata(exchange, err);
    let may_apply = err.may_apply_failure_tier();
    let value: Option<Json> = if may_apply {
        let body: Option<&[u8]> = match &exchange.body {
            Some(bytes) => Some(bytes.as_slice()),
            None => None,
        };
        match parse_body(body) {
            Ok(value) => Some(value),
            Err(_) => None,
        }
    } else {
        None
    };
    let key = match &value {
        Some(value) => session_key_from_request(headers, value, config.byte_order),
        None => None,
    };
    finish_failure(config, store, exchange, may_apply, value, key, now)
}

/// A turn that waits for the judge.
#[derive(Debug)]
pub struct PendingRoute {
    /// Parsed body.
    pub value: Json,
    /// Session of the request, if it has one.
    pub key: Option<SessionKey>,
    /// Time at which the turn began.
    pub now: u128,
}

/// Mathematical [`PendingRoute`].
pub struct PendingShape {
    pub value: JsonTree,
    pub key: Option<Seq<char>>,
    pub now: u128,
}

impl View for PendingRoute {
    type V = PendingShape;

    open spec fn view(&self) -> PendingShape {
        PendingShape { value: self.value@, key: opt_key(self.key), now: self.now }
    }
}

/// How a turn begins.
#[derive(Debug)]
pub enum RouteStart {
    /// The session floor answered with this tier.
    FloorSkip(Tier),
    /// The judge has to be asked.
    Undecided(PendingRoute),
}

/// Mathematical [`RouteStart`].
pub enum StartShape {
    FloorSkip(Tier),
    Undecided(PendingShape),
}

/// View of the outcome of a start.
pub open spec fn start_outcome(outcome: Result<RouteStart, RouteError>) -> Result<
    StartShape,
    RouteFault,
> {
    match outcome {
        Ok(RouteStart::FloorSkip(tier)) => Ok(StartShape::FloorSkip(tier)),
        Ok(RouteStart::Undecided(pending)) => Ok(StartShape::Undecided(pending@)),
        Err(err) => Err(err@),
    }
}

/// A turn after its start.
pub struct Started {
    pub turn: TurnState,
    pub outcome: Result<StartShape, RouteFault>,
}

/// Start of a turn with a known document and key. With the floor enabled the
/// session is looked up, and one that is at Strong is served without the judge.
pub open spec fn floor_start(
    config: RouteConfig,
    turn: TurnState,
    value: JsonTree,
    key: Option<Seq<char>>,
    now: u128,
) -> Started {
    let undecided = Ok(StartShape::Undecided(PendingShape { value, key, now }));
    if config.session_floor == SessionFloor::Disabled {
        Started { turn, outcome: undecided }
    } else {
        let store = after_recall(turn.store, key, now);
        if recalled(turn.store, key, now) != Some(Tier::Strong) {
            Started { turn: TurnState { store, ..turn }, outcome: undecided }
        } else {
            match turn.exchange.served(config, value, Tier::Strong, DECISION_FLOOR_SKIP@) {
                Ok(exchange) => Started {
                    turn: TurnState { store, exchange },
                    outcome: Ok(StartShape::FloorSkip(Tier::Strong)),
                },
                Err(fault) => Started { turn: TurnState { store, ..turn }, outcome: Err(fault) },
            }
        }
    }
}

/// Starts a turn with a known document and key.
pub fn check_floor(
    config: &RouteConfig,
    store: &mut SessionStore,
    exchange: &mut Exchange,
    value: Json,
    key: Option<SessionKey>,
    now: u128,
) -> (outcome: Result<RouteStart, RouteError>)
    ensures
        (Started {
            turn: TurnState { store: final(store)@, exchange: final(exchange)@ },
            outcome: start_outcome(outcome),
        }) == floor_start(
            *config,
            TurnState { store: old(store)@, exchange: old(exchange)@ },
            value@,
            opt_key(key),
            now,
        ),
        outcome matches Ok(RouteStart::FloorSkip(tier)) ==> asks_tier(
            final(exchange)@.body,
            *config,
            value@,
            tier,
        ),
        old(store)@.wf() ==> final(store)@.wf(),
{
    match config.session_floor {
        SessionFloor::Disabled => Ok(RouteStart::Undecided(PendingRoute { value, key, now })),
        SessionFloor::Enabled => {
            let floor = recall(store, &key, now);
            if let Some(tier) = floor {
                if tier.is_max() {
                    return match serve_tier(config, exchange, value, tier, DECISION_FLOOR_SKIP) {
                        Ok(_) => Ok(RouteStart::FloorSkip(tier)),
                        Err(err) => Err(err),
                    };
                }
            }
            Ok(RouteStart::Undecided(PendingRoute { value, key, now }))
        },
    }
}

/// The document of a request that can be routed: its body parses and its path
/// ends as a chat completions path does.
pub open spec fn routable(body: Option<Seq<u8>>, path: Seq<char>) -> Result<JsonTree, RouteFault> {
    match parsed_body(body) {
        Err(fault) => Err(fault),
        Ok(value) => if has_suffix(path, CHAT_PATH@) {
            Ok(value)
        } else {
            Err(RouteFault::UnsupportedPath)
        },
    }
}

/// Start of a turn.
pub open spec fn turn_start(
    config: RouteConfig,
    turn: TurnState,
    fields: Map<Seq<char>, Seq<u8>>,
    path: Seq<char>,
    now: u128,
) -> Started {
    match routable(turn.exchange.body, path) {
        Err(fault) => Started { turn, outcome: Err(fault) },
        Ok(value) => floor_start(
            config,
            turn,
            value,
            request_key(fields, value, config.byte_order),
            now,
        ),
    }
}

/// Starts a turn: parses the body, checks the path and consults the session floor.
pub fn start_route(
    config: &RouteConfig,
    store: &mut SessionStore,
    exchange: &mut Exchange,
    headers: &http::HeaderMap,
    path: &str,
    now: u128,
) -> (outcome: Result<RouteStart, RouteError>)
    ensures
        (Started {
            turn: TurnState { store: final(store)@, exchange: final(exchange)@ },
            outcome: start_outcome(outcome),
        }) == turn_start(
            *config,
            TurnState { store: old(store)@, exchange: old(exchange)@ },
            header_fields(*headers),
            path@,
            now,
        ),
        outcome matches Ok(RouteStart::FloorSkip(tier)) ==> asks_tier(
            final(exchange)@.body,
            *config,
            parsed_body(old(exchange)@.body)->Ok_0,
            tier,
        ),
        old(store)@.wf() ==> final(store)@.wf(),
{
    let body: Option<&[u8]> = match &exchange.body {
        Some(bytes) => Some(bytes.as_slice()),
        None => None,
    };
    let value = match parse_body(body) {
        Ok(value) => value,
        Err(err) => {
            return Err(err);
        },
    };
    if !ends_with(path, CHAT_PATH) {
        return Err(RouteError::UnsupportedPath);
    }
    let key = session_key_from_request(headers, &value, config.byte_order);
    check_floor(config, store, exchange, value, key, now)
}

/// Whether the judge can be asked: the request was decoded for the classifier
/// and there is a client to call the judge with. A decoding error comes first.
pub fn judge_ready(decoded: Result<(), String>, has_client: bool) -> (outcome: Result<
    (),
    RouteError,
>)
    ensures
        match decoded {
            Err(cause) => outcome matches Err(err) && err@ == RouteFault::Translation(cause@),
            Ok(_) => if has_client {
                outcome is Ok
            } else {
                outcome matches Err(err) && err@ == RouteFault::MissingSubrequestClient
            },
        },
{
    match decoded {
        Err(cause) => Err(RouteError::Translation(cause)),
        Ok(_) => {
            if !has_client {
                return Err(RouteError::MissingSubrequestClient);
            }
            Ok(())
        },
    }
}

/// Store after a live verdict.
pub open spec fn after_verdict(
    store: StoreState,
    pending: PendingShape,
    tier: Tier,
    floor: SessionFloor,
) -> StoreState {
    match pending.key {
        Some(key) => store.remembered(key, tier, pending.now, floor),
        None => store,
    }
}

/// Serves the tier that the judge named and remembers it for the session.
/// Nothing is remembered where the body cannot be rewritten.
pub fn finish_route(
    config: &RouteConfig,
    store: &mut SessionStore,
    exchange: &mut Exchange,
    pending: PendingRoute,
    tier: Tier,
) -> (outcome: Result<(), RouteError>)
    ensures
        match old(exchange)@.served(*config, pending@.value, tier, DECISION_ROUTED@) {
            Ok(next) => {
                &&& outcome is Ok
                &&& final(exchange)@ == next
                &&& final(store)@ == after_verdict(
                    old(store)@,
                    pending@,
                    tier,
                    config.session_floor,
                )
                &&& asks_tier(next.body, *config, pending@.value, tier)
            },
            Err(fault) => {
                &&& outcome matches Err(err)
                &&& err@ == fault
                &&& *final(exchange) == *old(exchange)
                &&& final(store)@ == old(store)@
            },
        },
        old(store)@.wf() ==> final(store)@.wf(),
{
    match serve_tier(config, exchange, pending.value, tier, DECISION_ROUTED) {
        Err(err) => Err(err),
        Ok(_) => {
            if let Some(key) = &pending.key {
                store.remember(key, tier, pending.now, config.session_floor);
            }
            Ok(())
        },
    }
}

/// What the body phase of a turn comes to.
#[derive(Debug)]
pub enum BodyStep {
    /// The turn is over.
    Finished(FilterVerdict),
    /// The judge has to be asked; [`resume`] ends the turn.
    AskJudge(PendingRoute),
}

/// Mathematical [`BodyStep`].
pub enum BodyStepShape {
    Finished(FilterVerdict),
    AskJudge(PendingShape),
}

impl View for BodyStep {
    type V = BodyStepShape;

    open spec fn view(&self) -> BodyStepShape {
        match self {
            BodyStep::Finished(verdict) => BodyStepShape::Finished(*verdict),
            BodyStep::AskJudge(pending) => BodyStepShape::AskJudge(pending@),
        }
    }
}

/// A turn after its body phase.
pub struct BodyPhase {
    pub turn: TurnState,
    pub step: BodyStepShape,
}

/// Body phase of a turn. A body that is still arriving is passed on.
pub open spec fn body_phase(
    config: RouteConfig,
    turn: TurnState,
    fields: Map<Seq<char>, Seq<u8>>,
    path: Seq<char>,
    end_of_stream: bool,
    now: u128,
) -> BodyPhase {
    if !end_of_stream {
        BodyPhase { turn, step: BodyStepShape::Finished(FilterVerdict::Continue) }
    } else {
        let started = turn_start(config, turn, fields, path, now);
        match started.outcome {
            Ok(StartShape::FloorSkip(_)) => BodyPhase {
                turn: started.turn,
                step: BodyStepShape::Finished(FilterVerdict::Continue),
            },
            Ok(StartShape::Undecided(pending)) => BodyPhase {
                turn: started.turn,
                step: BodyStepShape::AskJudge(pending),
            },
            Err(fault) => {
                let ended = failed_turn(config, started.turn, fields, fault, now);
                BodyPhase { turn: ended.turn, step: BodyStepShape::Finished(ended.verdict) }
            },
        }
    }
}

/// Takes in the body of a request.
pub fn on_request_body(
    config: &RouteConfig,
    store: &mut SessionStore,
    exchange: &mut Exchange,
    headers: &http::HeaderMap,
    path: &str,
    end_of_stream: bool,
    now: u128,
) -> (step: BodyStep)
    ensures
        (BodyPhase {
            turn: TurnState { store: final(store)@, exchange: final(exchange)@ },
            step: step@,
        }) == body_phase(
            *config,
            TurnState { store: old(store)@, exchange: old(exchange)@ },
            header_fields(*headers),
            path@,
            end_of_stream,
            now,
        ),
        end_of_stream ==> (turn_start(
            *config,
            TurnState { store: old(store)@, exchange: old(exchange)@ },
            header_fields(*headers),
            path@,
            now,
        ).outcome matches Ok(StartShape::FloorSkip(tier)) ==> asks_tier(
            final(exchange)@.body,
            *config,
            parsed_body(old(exchange)@.body)->Ok_0,
            tier,
        )),
        old(store)@.wf() ==> final(store)@.wf(),
{
    if !end_of_stream {
        return BodyStep::Finished(FilterVerdict::Continue);
    }
    match start_route(config, store, exchange, headers, path, now) {
        Ok(RouteStart::FloorSkip(_)) => BodyStep::Finished(FilterVerdict::Continue),
        Ok(RouteStart::Undecided(pending)) => BodyStep::AskJudge(pending),
        Err(err) => BodyStep::Finished(
            on_route_error(config, store, exchange, headers, &err, now),
        ),
    }
}

/// End of a turn that asked the judge.
pub open spec fn resumed(
    config: RouteConfig,
    turn: TurnState,
    fields: Map<Seq<char>, Seq<u8>>,
    pending: PendingShape,
    decided: Result<Tier, RouteFault>,
    now: u128,
) -> Ended {
    match decided {
        Err(fault) => failed_turn(config, turn, fields, fault, now),
        Ok(tier) => match turn.exchange.served(config, pending.value, tier, DECISION_ROUTED@) {
            Err(fault) => failed_turn(config, turn, fields, fault, now),
            Ok(exchange) => Ended {
                turn: TurnState {
                    store: after_verdict(turn.store, pending, tier, config.session_floor),
                    exchange,
                },
                verdict: FilterVerdict::Continue,
            },
        },
    }
}

/// Ends a turn with what the judge decided.
pub fn resume(
    config: &RouteConfig,
    store: &mut SessionStore,
    exchange: &mut Exchange,
    headers: &http::HeaderMap,
    pending: PendingRoute,
    decided: Result<Tier, RouteError>,
    now: u128,
) -> (verdict: FilterVerdict)
    ensures
        (Ended {
            turn: TurnState { store: final(store)@, exchange: final(exchange)@ },
            verdict,
        }) == resumed(
            *config,
            TurnState { store: old(store)@, exchange: old(exchange)@ },
            header_fields(*headers),
            pending@,
            tier_outcome(decided),
            now,
        ),
        decided matches Ok(tier) ==> pending@.value is Object ==> asks_tier(
            final(exchange)@.body,
            *config,
            pending@.value,
            tier,
        ),
        decided matches Err(err) ==> config.on_failure == FailureMode::Open ==> (fallback_value(
            old(exchange)@.body,
            err@,
        ) matches Some(value) ==> value is Object ==> asks_tier(
            final(exchange)@.body,
            *config,
            value,
            fallback(
                recalled(
                    old(store)@,
                    request_key(header_fields(*headers), value, config.byte_order),
                    now,
                ),
            ).tier,
        )),
        old(store)@.wf() ==> final(store)@.wf(),
{
    match decided {
        Err(err) => on_route_error(config, store, exchange, headers, &err, now),
        Ok(tier) => match finish_route(config, store, exchange, pending, tier) {
            Err(err) => on_route_error(config, store, exchange, headers, &err, now),
            Ok(_) => FilterVerdict::Continue,
        },
    }
}

/// Cluster of a request in the header phase: the one that the body phase
/// recorded, else the one that the request already has.
pub fn on_request(recorded: Option<&str>, current: Option<String>) -> (cluster: Option<String>)
    ensures
        opt_text(cluster) == (match recorded {
            Some(recorded) => Some(recorded@),
            None => opt_text(current),
        }),
{
    match recorded {
        Some(recorded) => Some(recorded.to_owned()),
        None => current,
    }
}

} // verus!
