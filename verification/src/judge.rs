//! Calling the judge: address fallback, reply checks and the classifier's steps.

use vstd::prelude::*;
use vstd::string::StringExecFns;
use vstd::utf8::{decode_utf8, encode_utf8, valid_utf8};

use crate::config::{law_only_two_tags_name_a_tier, tier_of_tag, JudgeConfig, Tier};
use crate::endpoint::judge_failure;
use crate::error::{RouteError, RouteFault};
use crate::json::{
    json_bytes, json_from_slice, json_outcome, json_to_vec, parsed_json, Json, JsonTree,
};
use crate::text::{
    decimal, decimal_text, decode_lossy, join, lossy_text, quoted, quoted_text, truncate_chars,
    truncated,
};

verus! {

/// Most bytes that are buffered of a request or of a judge reply.
pub const DEFAULT_MAX_BODY_BYTES: usize = 1_048_576;

/// Most characters of a reply that an error message shows.
pub const PREVIEW_LIMIT: usize = 200;

/// Why an attempt at one judge address failed.
#[derive(Debug, PartialEq, Eq)]
pub enum JudgeAttemptError {
    /// The next address may still answer.
    Retryable(String),
    /// The callout is over.
    Fatal(RouteError),
}

/// Mathematical [`JudgeAttemptError`].
pub enum AttemptFault {
    Retryable(Seq<char>),
    Fatal(RouteFault),
}

impl View for JudgeAttemptError {
    type V = AttemptFault;

    open spec fn view(&self) -> AttemptFault {
        match self {
            JudgeAttemptError::Retryable(message) => AttemptFault::Retryable(message@),
            JudgeAttemptError::Fatal(err) => AttemptFault::Fatal(err@),
        }
    }
}

/// Addresses of the judge host, given what the lookup returned.
pub fn resolve_judge_addrs(host: &str, lookup: Result<Vec<String>, String>) -> (outcome: Result<
    Vec<String>,
    RouteError,
>)
    ensures
        match lookup {
            Err(cause) => outcome matches Err(err) && err@ == RouteFault::Judge(
                "DNS resolution failed for "@ + host@ + ": "@ + cause@,
            ),
            Ok(addrs) => if addrs@.len() == 0 {
                outcome matches Err(err) && err@ == RouteFault::Judge(
                    "no addresses resolved for "@ + host@,
                )
            } else {
                outcome == Ok::<Vec<String>, RouteError>(addrs)
            },
        },
{
    match lookup {
        Err(cause) => Err(
            RouteError::Judge(
                join("DNS resolution failed for ", host).concat(": ").concat(cause.as_str()),
            ),
        ),
        Ok(addrs) => {
            if addrs.len() == 0 {
                return Err(judge_failure("no addresses resolved for ", host));
            }
            Ok(addrs)
        },
    }
}

/// Start of a body for an error message.
pub open spec fn preview_of(body: Seq<u8>) -> Seq<char> {
    truncated(lossy_text(body), PREVIEW_LIMIT as nat)
}

/// Shows the start of a body, whatever its encoding.
pub fn body_preview(body: &[u8]) -> (preview: String)
    ensures
        preview@ == preview_of(body@),
        valid_utf8(body@) ==> preview@ == truncated(decode_utf8(body@), PREVIEW_LIMIT as nat),
{
    let text = decode_lossy(body);
    truncate_chars(text.as_str(), PREVIEW_LIMIT)
}

/// Size and start of a body for an error message.
pub open spec fn body_note(body: Seq<u8>) -> Seq<char> {
    "body_len="@ + decimal_text(body.len()) + " preview="@ + quoted_text(preview_of(body))
}

/// Describes a body for an error message.
fn describe_body(body: &[u8]) -> (note: String)
    ensures
        note@ == body_note(body@),
{
    let len = decimal(body.len() as u64);
    let preview = quoted(body_preview(body).as_str());
    join("body_len=", len.as_str()).concat(" preview=").concat(preview.as_str())
}

/// A reply of the judge.
#[derive(Debug, PartialEq, Eq)]
pub struct JudgeResponse {
    pub status: u16,
    pub body: Vec<u8>,
}

/// Message of a reply with a status that is no success.
pub open spec fn status_message(addr: Seq<char>, status: u16, body: Seq<u8>) -> Seq<char> {
    "HTTP "@ + decimal_text(status as nat) + " from "@ + addr + " "@ + body_note(body)
}

/// Body of a reply from one address: replies outside the success range and
/// failed requests leave the callout to the next address.
pub fn fetch_judge_body(addr: &str, response: Result<JudgeResponse, String>) -> (outcome: Result<
    Vec<u8>,
    JudgeAttemptError,
>)
    ensures
        match response {
            Err(cause) => outcome matches Err(err) && err@ == AttemptFault::Retryable(
                addr@ + ": "@ + cause@,
            ),
            Ok(response) => if 200 <= response.status < 300 {
                outcome == Ok::<Vec<u8>, JudgeAttemptError>(response.body)
            } else {
                outcome matches Err(err) && err@ == AttemptFault::Retryable(
                    status_message(addr@, response.status, response.body@),
                )
            },
        },
{
    match response {
        Err(cause) => Err(JudgeAttemptError::Retryable(join(addr, ": ").concat(cause.as_str()))),
        Ok(response) => {
            if response.status < 200 || response.status >= 300 {
                let status = decimal(response.status as u64);
                let note = describe_body(response.body.as_slice());
                return Err(
                    JudgeAttemptError::Retryable(
                        join("HTTP ", status.as_str()).concat(" from ").concat(addr).concat(
                            " ",
                        ).concat(note.as_str()),
                    ),
                );
            }
            Ok(response.body)
        },
    }
}

/// Message of a reply that is not JSON.
pub open spec fn non_json_message(addr: Seq<char>, cause: Seq<char>, body: Seq<u8>) -> Seq<char> {
    "judge_non_json from "@ + addr + ": "@ + cause + "; "@ + body_note(body)
}

/// What a reply body holds, given what it parses to. A body that is not JSON
/// leaves the callout to the next address.
pub open spec fn reply_outcome(
    outcome: Result<Json, JudgeAttemptError>,
    addr: Seq<char>,
    body: Seq<u8>,
    parsed: Result<JsonTree, Seq<char>>,
) -> bool {
    match parsed {
        Ok(tree) => outcome matches Ok(value) && value@ == tree,
        Err(cause) => outcome matches Err(err) && err@ == AttemptFault::Retryable(
            non_json_message(addr, cause, body),
        ),
    }
}

/// Parses a reply body.
pub fn decode_judge_aggregated(addr: &str, body: &[u8]) -> (outcome: Result<
    Json,
    JudgeAttemptError,
>)
    ensures
        reply_outcome(outcome, addr@, body@, parsed_json(body@)),
{
    accept_judge_json(addr, body, json_from_slice(body))
}

/// Checks what a reply body parsed to.
pub fn accept_judge_json(addr: &str, body: &[u8], parsed: Result<Json, String>) -> (outcome: Result<
    Json,
    JudgeAttemptError,
>)
    ensures
        reply_outcome(outcome, addr@, body@, json_outcome(parsed)),
{
    match parsed {
        Ok(value) => Ok(value),
        Err(cause) => {
            let note = describe_body(body);
            Err(
                JudgeAttemptError::Retryable(
                    join("judge_non_json from ", addr).concat(": ").concat(cause.as_str()).concat(
                        "; ",
                    ).concat(note.as_str()),
                ),
            )
        },
    }
}

/// A reply that the classifier cannot read ends the callout.
pub fn translation_failure(cause: &str) -> (err: JudgeAttemptError)
    ensures
        err@ == AttemptFault::Fatal(
            RouteFault::Judge("response translation failed: "@ + cause@),
        ),
{
    JudgeAttemptError::Fatal(judge_failure("response translation failed: ", cause))
}

/// Outcome of handing a reply to the classifier.
pub fn respond_judge(delivered: Result<(), String>) -> (outcome: Result<(), RouteError>)
    ensures
        match delivered {
            Ok(_) => outcome is Ok,
            Err(cause) => outcome matches Err(err) && err@ == RouteFault::Judge(
                "failed to deliver judge response: "@ + cause@,
            ),
        },
{
    match delivered {
        Ok(_) => Ok(()),
        Err(cause) => Err(judge_failure("failed to deliver judge response: ", cause.as_str())),
    }
}

/// What is set on the classifier's request before it is sent to the judge.
#[derive(Debug, PartialEq, Eq)]
pub struct JudgeRequestPlan {
    /// Model that is asked.
    pub model: String,
    /// Whether the reply is streamed.
    pub stream: bool,
}

/// A judge request asks for the judge's model and for a reply in one piece.
pub fn judge_request_plan(config: &JudgeConfig) -> (plan: JudgeRequestPlan)
    ensures
        plan.model@ == config.model@,
        !plan.stream,
{
    JudgeRequestPlan { model: config.model.clone(), stream: false }
}

/// Body of a judge request, given its document or why it has none.
pub fn encode_judge_request(wire: Result<Json, String>) -> (outcome: Result<Vec<u8>, RouteError>)
    ensures
        match wire {
            Ok(document) => outcome matches Ok(bytes) && bytes@ == json_bytes(document@) && (
            document@.is_plain() ==> (parsed_json(bytes@) matches Ok(again) ==> document@.reads_as(
                again,
            ))),
            Err(cause) => outcome matches Err(err) && err@ == RouteFault::Judge(
                "request encoding failed: "@ + cause@,
            ),
        },
{
    match wire {
        Err(cause) => Err(judge_failure("request encoding failed: ", cause.as_str())),
        Ok(document) => match json_to_vec(&document) {
            Ok(bytes) => Ok(bytes),
            Err(cause) => Err(judge_failure("request serialization failed: ", cause.as_str())),
        },
    }
}

/// End of an attempt at one address.
#[derive(Debug, PartialEq, Eq)]
pub enum Attempt {
    /// The reply was handed to the classifier, with this outcome.
    Answered(Result<(), RouteError>),
    /// There was no usable reply.
    Failed(JudgeAttemptError),
}

/// View of an outcome without a value.
pub open spec fn unit_outcome(outcome: Result<(), RouteError>) -> Result<(), RouteFault> {
    match outcome {
        Ok(_) => Ok(()),
        Err(err) => Err(err@),
    }
}

/// Mathematical [`Attempt`].
pub enum AttemptShape {
    Answered(Result<(), RouteFault>),
    Failed(AttemptFault),
}

impl View for Attempt {
    type V = AttemptShape;

    open spec fn view(&self) -> AttemptShape {
        match self {
            Attempt::Answered(outcome) => AttemptShape::Answered(unit_outcome(*outcome)),
            Attempt::Failed(err) => AttemptShape::Failed(err@),
        }
    }
}

impl AttemptShape {
    /// Outcome of the callout, where this attempt settles it.
    pub open spec fn settles(self) -> Option<Result<(), RouteFault>> {
        match self {
            AttemptShape::Answered(outcome) => Some(outcome),
            AttemptShape::Failed(AttemptFault::Fatal(fault)) => Some(Err(fault)),
            AttemptShape::Failed(AttemptFault::Retryable(_)) => None,
        }
    }

    /// Message of a failure that leaves the callout to the next address.
    pub open spec fn message(self) -> Seq<char>
        recommends
            self.settles() is None,
    {
        self->Failed_0->Retryable_0
    }
}

/// What to do next in a judge callout.
#[derive(Debug, PartialEq, Eq)]
pub enum CalloutStep {
    /// Try the address with this index.
    Try(usize),
    /// The callout is over.
    Finished(Result<(), RouteError>),
}

/// Mathematical [`CalloutStep`].
pub enum CalloutStepShape {
    Try(nat),
    Finished(Result<(), RouteFault>),
}

impl View for CalloutStep {
    type V = CalloutStepShape;

    open spec fn view(&self) -> CalloutStepShape {
        match self {
            CalloutStep::Try(index) => CalloutStepShape::Try(*index as nat),
            CalloutStep::Finished(outcome) => CalloutStepShape::Finished(unit_outcome(*outcome)),
        }
    }
}

/// Progress of a callout over the addresses of the judge.
#[derive(Debug)]
pub struct JudgeCallout {
    /// Number of addresses.
    pub count: usize,
    /// Addresses tried so far.
    pub tried: usize,
    /// Message of the latest failure.
    pub last_error: String,
}

/// Mathematical [`JudgeCallout`].
pub struct CalloutState {
    pub count: nat,
    pub tried: nat,
    pub last_error: Seq<char>,
}

impl View for JudgeCallout {
    type V = CalloutState;

    open spec fn view(&self) -> CalloutState {
        CalloutState {
            count: self.count as nat,
            tried: self.tried as nat,
            last_error: self.last_error@,
        }
    }
}

impl CalloutState {
    /// A callout that has tried no address.
    pub open spec fn fresh(count: nat) -> CalloutState {
        CalloutState { count, tried: 0, last_error: "no address attempted"@ }
    }

    /// The next address, or the latest failure once every address was tried.
    pub open spec fn step(self) -> CalloutStepShape {
        if self.tried < self.count {
            CalloutStepShape::Try(self.tried)
        } else {
            CalloutStepShape::Finished(Err(RouteFault::Judge(self.last_error)))
        }
    }

    /// State after a failure that leaves the callout to the next address.
    pub open spec fn failed(self, message: Seq<char>) -> CalloutState {
        CalloutState {
            count: self.count,
            tried: if self.tried < self.count {
                self.tried + 1
            } else {
                self.tried
            },
            last_error: message,
        }
    }

    /// Outcome of the callout when the remaining attempts end like this.
    pub open spec fn outcome(self, attempts: Seq<AttemptShape>) -> CalloutStepShape
        decreases attempts.len(),
    {
        if attempts.len() == 0 || !(self.step() is Try) {
            self.step()
        } else {
            match attempts[0].settles() {
                Some(outcome) => CalloutStepShape::Finished(outcome),
                None => self.failed(attempts[0].message()).outcome(attempts.skip(1)),
            }
        }
    }
}

impl JudgeCallout {
    /// A callout over `count` addresses.
    pub fn new(count: usize) -> (callout: Self)
        ensures
            callout@ == CalloutState::fresh(count as nat),
    {
        JudgeCallout { count, tried: 0, last_error: "no address attempted".to_owned() }
    }

    /// The next address, or the latest failure once every address was tried.
    pub fn step(&self) -> (step: CalloutStep)
        ensures
            step@ == self@.step(),
    {
        if self.tried < self.count {
            CalloutStep::Try(self.tried)
        } else {
            CalloutStep::Finished(Err(RouteError::Judge(self.last_error.clone())))
        }
    }

    /// Takes in the end of an attempt and says what to do next.
    pub fn record(&mut self, attempt: Attempt) -> (step: CalloutStep)
        ensures
            match attempt@.settles() {
                Some(outcome) => final(self)@ == old(self)@ && step@ == CalloutStepShape::Finished(
                    outcome,
                ),
                None => final(self)@ == old(self)@.failed(attempt@.message()) && step@ == old(
                    self,
                )@.failed(attempt@.message()).step(),
            },
    {
        match attempt {
            Attempt::Answered(outcome) => CalloutStep::Finished(outcome),
            Attempt::Failed(JudgeAttemptError::Fatal(err)) => CalloutStep::Finished(Err(err)),
            Attempt::Failed(JudgeAttemptError::Retryable(message)) => {
                if self.tried < self.count {
                    self.tried = self.tried + 1;
                }
                self.last_error = message;
                self.step()
            },
        }
    }
}

/// A callout ends with the first attempt that is not retryable; later addresses
/// have no say.
pub proof fn law_first_settled_attempt_wins(
    state: CalloutState,
    attempts: Seq<AttemptShape>,
    first: int,
)
    requires
        0 <= first < attempts.len(),
        state.tried + first < state.count,
        forall|i: int| 0 <= i < first ==> (#[trigger] attempts[i]).settles() is None,
        attempts[first].settles() is Some,
    ensures
        state.outcome(attempts) == CalloutStepShape::Finished(attempts[first].settles()->0),
    decreases first,
{
    if first > 0 {
        assert(attempts[0].settles() is None);
        assert forall|i: int| 0 <= i < first - 1 implies (#[trigger] attempts.skip(
            1,
        )[i]).settles() is None by {
            assert(attempts.skip(1)[i] == attempts[i + 1]);
        }
        law_first_settled_attempt_wins(
            state.failed(attempts[0].message()),
            attempts.skip(1),
            first - 1,
        );
    }
}

/// Every address is tried before a callout gives up, and it then reports the
/// failure of the last one.
pub proof fn law_exhausted_callout_reports_last_failure(
    state: CalloutState,
    attempts: Seq<AttemptShape>,
)
    requires
        attempts.len() > 0,
        state.tried + attempts.len() == state.count,
        forall|i: int| 0 <= i < attempts.len() ==> (#[trigger] attempts[i]).settles() is None,
    ensures
        state.outcome(attempts) == CalloutStepShape::Finished(
            Err(RouteFault::Judge(attempts.last().message())),
        ),
    decreases attempts.len(),
{
    let next = state.failed(attempts[0].message());
    let rest = attempts.skip(1);
    assert(attempts[0].settles() is None);
    if rest.len() > 0 {
        assert forall|i: int| 0 <= i < rest.len() implies (#[trigger] rest[i]).settles() is None by {
            assert(rest[i] == attempts[i + 1]);
        }
        law_exhausted_callout_reports_last_failure(next, rest);
        assert(rest.last() == attempts.last());
    } else {
        assert(next.outcome(rest) == next.step());
    }
}

/// A callout without addresses fails without an attempt.
pub proof fn law_no_address_no_attempt(attempts: Seq<AttemptShape>)
    ensures
        CalloutState::fresh(0).outcome(attempts) == CalloutStepShape::Finished(
            Err(RouteFault::Judge("no address attempted"@)),
        ),
{
}

/// One event of a classifier run.
#[derive(Debug, PartialEq, Eq)]
pub enum DecisionEvent {
    /// A decision; a routed one names the tier to serve.
    Decision { routed: bool, tag: String },
    /// A model call; a routed one is the served request, any other is the judge.
    CallLlm { routed: bool, tag: String },
    /// The judge call that was asked for has ended.
    JudgeServed(Result<(), RouteError>),
    /// The run hands control back.
    ReturnToAgent,
    /// The run failed.
    Failed(String),
    /// The run is over.
    Ended,
}

/// What a classifier run needs next.
#[derive(Debug, PartialEq, Eq)]
pub enum DecisionAction {
    /// Wait for the next event.
    Poll,
    /// Call the judge.
    ServeJudge,
    /// The run is over.
    Finish(Result<Tier, RouteError>),
}

/// Mathematical [`DecisionEvent`].
pub enum EventShape {
    Decision { routed: bool, tag: Seq<char> },
    CallLlm { routed: bool, tag: Seq<char> },
    JudgeServed(Result<(), RouteFault>),
    ReturnToAgent,
    Failed(Seq<char>),
    Ended,
}

impl View for DecisionEvent {
    type V = EventShape;

    open spec fn view(&self) -> EventShape {
        match self {
            DecisionEvent::Decision { routed, tag } => EventShape::Decision {
                routed: *routed,
                tag: tag@,
            },
            DecisionEvent::CallLlm { routed, tag } => EventShape::CallLlm {
                routed: *routed,
                tag: tag@,
            },
            DecisionEvent::JudgeServed(outcome) => EventShape::JudgeServed(unit_outcome(*outcome)),
            DecisionEvent::ReturnToAgent => EventShape::ReturnToAgent,
            DecisionEvent::Failed(cause) => EventShape::Failed(cause@),
            DecisionEvent::Ended => EventShape::Ended,
        }
    }
}

/// View of an outcome that carries a tier.
pub open spec fn tier_outcome(outcome: Result<Tier, RouteError>) -> Result<Tier, RouteFault> {
    match outcome {
        Ok(tier) => Ok(tier),
        Err(err) => Err(err@),
    }
}

/// Mathematical [`DecisionAction`].
pub enum ActionShape {
    Poll,
    ServeJudge,
    Finish(Result<Tier, RouteFault>),
}

impl View for DecisionAction {
    type V = ActionShape;

    open spec fn view(&self) -> ActionShape {
        match self {
            DecisionAction::Poll => ActionShape::Poll,
            DecisionAction::ServeJudge => ActionShape::ServeJudge,
            DecisionAction::Finish(outcome) => ActionShape::Finish(tier_outcome(*outcome)),
        }
    }
}

/// The tier that a routed decision names.
pub open spec fn routed_tier(tag: Seq<char>) -> Result<Tier, RouteFault> {
    match tier_of_tag(tag) {
        Some(tier) => Ok(tier),
        None => Err(RouteFault::UnknownTier(tag)),
    }
}

impl EventShape {
    /// Reaction to this event.
    pub open spec fn action(self) -> ActionShape {
        match self {
            EventShape::Decision { routed: true, tag } => ActionShape::Finish(routed_tier(tag)),
            EventShape::Decision { routed: false, tag } => ActionShape::Poll,
            EventShape::CallLlm { routed: true, tag } => ActionShape::Finish(routed_tier(tag)),
            EventShape::CallLlm { routed: false, tag } => ActionShape::ServeJudge,
            EventShape::JudgeServed(Ok(_)) => ActionShape::Poll,
            EventShape::JudgeServed(Err(fault)) => ActionShape::Finish(Err(fault)),
            EventShape::ReturnToAgent => ActionShape::Finish(Err(RouteFault::NoDecision)),
            EventShape::Failed(cause) => ActionShape::Finish(Err(RouteFault::Run(cause))),
            EventShape::Ended => ActionShape::Finish(Err(RouteFault::NoDecision)),
        }
    }
}

/// Tier of a routed decision.
fn tier_from_decision(tag: String) -> (outcome: Result<Tier, RouteError>)
    ensures
        tier_outcome(outcome) == routed_tier(tag@),
{
    match Tier::from_tag(tag.as_str()) {
        Some(tier) => Ok(tier),
        None => Err(RouteError::UnknownTier(tag)),
    }
}

/// Reacts to one event of a classifier run.
pub fn decide(event: DecisionEvent) -> (action: DecisionAction)
    ensures
        action@ == event@.action(),
{
    match event {
        DecisionEvent::Decision { routed, tag } => if routed {
            DecisionAction::Finish(tier_from_decision(tag))
        } else {
            DecisionAction::Poll
        },
        DecisionEvent::CallLlm { routed, tag } => if routed {
            DecisionAction::Finish(tier_from_decision(tag))
        } else {
            DecisionAction::ServeJudge
        },
        DecisionEvent::JudgeServed(Ok(_)) => DecisionAction::Poll,
        DecisionEvent::JudgeServed(Err(err)) => DecisionAction::Finish(Err(err)),
        DecisionEvent::ReturnToAgent => DecisionAction::Finish(Err(RouteError::NoDecision)),
        DecisionEvent::Failed(cause) => DecisionAction::Finish(Err(RouteError::Run(cause))),
        DecisionEvent::Ended => DecisionAction::Finish(Err(RouteError::NoDecision)),
    }
}

/// Outcome of a run with these events, once one of them ends it.
pub open spec fn run_outcome(events: Seq<EventShape>) -> Option<Result<Tier, RouteFault>>
    decreases events.len(),
{
    if events.len() == 0 {
        None
    } else {
        match events[0].action() {
            ActionShape::Finish(outcome) => Some(outcome),
            _ => run_outcome(events.skip(1)),
        }
    }
}

/// Whether an event is a decision about the request itself.
pub open spec fn is_routed(event: EventShape) -> bool {
    match event {
        EventShape::Decision { routed, tag } => routed,
        EventShape::CallLlm { routed, tag } => routed,
        _ => false,
    }
}

/// A run yields a tier only through a routed decision that carries the tier's
/// tag: neither an unrouted decision nor a judge reply selects one.
pub proof fn law_tier_comes_from_routed_decision(events: Seq<EventShape>)
    requires
        run_outcome(events) matches Some(Ok(_)),
    ensures
        exists|i: int|
            0 <= i < events.len() && is_routed(#[trigger] events[i]) && events[i].action()
                == ActionShape::Finish(run_outcome(events)->0),
    decreases events.len(),
{
    if events[0].action() is Finish {
        assert(is_routed(events[0]));
    } else {
        let rest = events.skip(1);
        law_tier_comes_from_routed_decision(rest);
        let i = choose|i: int|
            0 <= i < rest.len() && is_routed(#[trigger] rest[i]) && rest[i].action()
                == ActionShape::Finish(run_outcome(rest)->0);
        assert(events[i + 1] == rest[i]);
    }
}

/// The first event that ends a run decides it, whatever would follow.
pub proof fn law_first_final_event_decides(events: Seq<EventShape>, first: int)
    requires
        0 <= first < events.len(),
        forall|i: int| 0 <= i < first ==> !((#[trigger] events[i]).action() is Finish),
        events[first].action() is Finish,
    ensures
        run_outcome(events) == Some(events[first].action()->Finish_0),
    decreases first,
{
    if first > 0 {
        assert(!(events[0].action() is Finish));
        assert forall|i: int| 0 <= i < first - 1 implies !((#[trigger] events.skip(
            1,
        )[i]).action() is Finish) by {
            assert(events.skip(1)[i] == events[i + 1]);
        }
        law_first_final_event_decides(events.skip(1), first - 1);
    }
}

/// Fields of a judge verdict that are worth a log line.
#[derive(Debug, PartialEq)]
pub struct JudgeVerdict {
    /// Estimated chance that the weak tier solves the turn.
    pub p_solve: Option<serde_json::Number>,
    pub rule: String,
    pub boundary: String,
}

/// Cloning a `serde_json::Number` gives the same number.
pub assume_specification[ <serde_json::Number as Clone>::clone ](
    number: &serde_json::Number,
) -> (res: serde_json::Number)
    ensures
        res == *number,
;

/// The first item of an array, or the member that an object holds under `0`.
pub open spec fn first_item(tree: JsonTree) -> Option<JsonTree> {
    match tree {
        JsonTree::Array(items) => if items.len() > 0 {
            Some(items[0])
        } else {
            None
        },
        _ => tree.field("0"@),
    }
}

/// Verdict text of a reply: the content of the first choice's message.
pub open spec fn verdict_content(reply: JsonTree) -> Option<Seq<char>> {
    match reply.field("choices"@) {
        None => None,
        Some(choices) => match first_item(choices) {
            None => None,
            Some(choice) => match choice.field("message"@) {
                None => None,
                Some(message) => message.text_field("content"@),
            },
        },
    }
}

/// Finds the verdict text of a reply.
pub fn find_verdict_content(reply: &Json) -> (content: Option<&str>)
    ensures
        match content {
            Some(content) => verdict_content(reply@) == Some(content@),
            None => verdict_content(reply@) is None,
        },
{
    let choices = match reply.get("choices") {
        Some(choices) => choices,
        None => {
            return None;
        },
    };
    let choice = match choices.as_array() {
        Some(items) => {
            if items.len() == 0 {
                return None;
            }
            &items[0]
        },
        None => match choices.get("0") {
            Some(choice) => choice,
            None => {
                return None;
            },
        },
    };
    match choice.get("message") {
        Some(message) => message.get_text("content"),
        None => None,
    }
}

/// A text field of a verdict, or `?` where it has none.
pub open spec fn verdict_text(verdict: JsonTree, name: Seq<char>) -> Seq<char> {
    match verdict.text_field(name) {
        Some(text) => text,
        None => "?"@,
    }
}

/// Whether `summary` shows the fields of `verdict`.
pub open spec fn summarizes(summary: JudgeVerdict, verdict: JsonTree) -> bool {
    &&& summary.p_solve == (match verdict.field("p_solve"@) {
        Some(JsonTree::Number(number)) => Some(number),
        _ => None,
    })
    &&& summary.rule@ == verdict_text(verdict, "primary_rule"@)
    &&& summary.boundary@ == verdict_text(verdict, "capability_boundary"@)
}

/// Reads the fields of a verdict.
pub fn summarize_verdict(verdict: &Json) -> (summary: JudgeVerdict)
    ensures
        summarizes(summary, verdict@),
{
    let p_solve = match verdict.get("p_solve") {
        Some(Json::Number(number)) => Some(number.clone()),
        _ => None,
    };
    let rule = match verdict.get_text("primary_rule") {
        Some(rule) => rule,
        None => "?",
    };
    let boundary = match verdict.get_text("capability_boundary") {
        Some(boundary) => boundary,
        None => "?",
    };
    JudgeVerdict { p_solve, rule: rule.to_owned(), boundary: boundary.to_owned() }
}

/// The verdict in a reply body: there is one where the body is JSON and its
/// verdict text is JSON too.
pub open spec fn verdict_in(body: Seq<u8>) -> Option<JsonTree> {
    match parsed_json(body) {
        Err(_) => None,
        Ok(reply) => match verdict_content(reply) {
            None => None,
            Some(content) => match parsed_json(encode_utf8(content)) {
                Err(_) => None,
                Ok(verdict) => Some(verdict),
            },
        },
    }
}

/// What to log of a judge reply; nothing where it holds no verdict.
pub fn log_judge_verdict(body: &[u8]) -> (summary: Option<JudgeVerdict>)
    ensures
        match verdict_in(body@) {
            Some(verdict) => summary matches Some(summary) && summarizes(summary, verdict),
            None => summary is None,
        },
{
    match json_from_slice(body) {
        Err(_) => None,
        Ok(reply) => match find_verdict_content(&reply) {
            None => None,
            Some(content) => match json_from_slice(content.as_bytes()) {
                Err(_) => None,
                Ok(verdict) => Some(summarize_verdict(&verdict)),
            },
        },
    }
}

/// What an error message shows of a reply is the start of its text: all of it up
/// to two hundred characters.
pub proof fn law_preview_is_the_start_of_the_reply(body: Seq<u8>)
    ensures
        lossy_text(body).len() <= 200 ==> preview_of(body) == lossy_text(body),
        lossy_text(body).len() > 200 ==> preview_of(body) == lossy_text(body).take(200),
{
}

/// The messages of unusable replies name the address, the status or the parser's
/// words, and the size and start of the body.
pub proof fn law_reply_messages_say_what_came(
    addr: Seq<char>,
    status: u16,
    cause: Seq<char>,
    body: Seq<u8>,
)
    ensures
        body_note(body) == "body_len="@ + decimal_text(body.len()) + " preview="@ + quoted_text(
            preview_of(body),
        ),
        status_message(addr, status, body) == "HTTP "@ + decimal_text(status as nat) + " from "@
            + addr + " "@ + body_note(body),
        non_json_message(addr, cause, body) == "judge_non_json from "@ + addr + ": "@ + cause
            + "; "@ + body_note(body),
{
}

/// A reply that parses is taken as it is; one that does not leaves the callout
/// to the next address.
pub proof fn law_replies_are_taken_or_retried(
    outcome: Result<Json, JudgeAttemptError>,
    addr: Seq<char>,
    body: Seq<u8>,
    parsed: Result<JsonTree, Seq<char>>,
)
    requires
        reply_outcome(outcome, addr, body, parsed),
    ensures
        outcome is Ok <==> parsed is Ok,
        outcome matches Ok(value) ==> value@ == parsed->Ok_0,
        outcome matches Err(err) ==> err@ == AttemptFault::Retryable(
            non_json_message(addr, parsed->Err_0, body),
        ),
{
}

/// An answer and a fatal failure settle a callout with their own outcome; any
/// other failure leaves it open, whatever it says.
pub proof fn law_only_retryable_failures_go_on(
    outcome: Result<(), RouteFault>,
    fault: RouteFault,
    message: Seq<char>,
)
    ensures
        AttemptShape::Answered(outcome).settles() == Some(outcome),
        AttemptShape::Failed(AttemptFault::Fatal(fault)).settles() == Some(
            Err::<(), RouteFault>(fault),
        ),
        AttemptShape::Failed(AttemptFault::Retryable(message)).settles() is None,
        AttemptShape::Failed(AttemptFault::Retryable(message)).message() == message,
{
}

/// State of a callout after these failures.
pub open spec fn after_failures(state: CalloutState, messages: Seq<Seq<char>>) -> CalloutState
    decreases messages.len(),
{
    if messages.len() == 0 {
        state
    } else {
        after_failures(state, messages.drop_last()).failed(messages.last())
    }
}

/// Addresses are tried in order, each once: after as many failures as there were
/// attempts the next address is tried, and after the last address the callout
/// ends with the latest failure.
pub proof fn law_addresses_are_tried_in_order(count: nat, messages: Seq<Seq<char>>)
    ensures
        messages.len() < count ==> after_failures(CalloutState::fresh(count), messages).step()
            == CalloutStepShape::Try(messages.len()),
        messages.len() >= count && messages.len() > 0 ==> after_failures(
            CalloutState::fresh(count),
            messages,
        ).step() == CalloutStepShape::Finished(Err(RouteFault::Judge(messages.last()))),
        count == 0 && messages.len() == 0 ==> after_failures(
            CalloutState::fresh(count),
            messages,
        ).step() == CalloutStepShape::Finished(Err(RouteFault::Judge("no address attempted"@))),
        after_failures(CalloutState::fresh(count), messages).count == count,
        after_failures(CalloutState::fresh(count), messages).tried == if messages.len() < count {
            messages.len()
        } else {
            count
        },
    decreases messages.len(),
{
    if messages.len() > 0 {
        law_addresses_are_tried_in_order(count, messages.drop_last());
    }
}

/// A routed event ends the run with the tier whose tag it carries, or with that
/// tag as an unknown one; an unrouted decision and a served judge call go on; a
/// judge call is served; every other event ends the run with its own failure.
pub proof fn law_events_and_what_they_lead_to(tag: Seq<char>, fault: RouteFault, cause: Seq<char>)
    ensures
        (EventShape::Decision { routed: true, tag: "weak"@ }).action() == ActionShape::Finish(
            Ok(Tier::Weak),
        ),
        (EventShape::Decision { routed: true, tag: "strong"@ }).action() == ActionShape::Finish(
            Ok(Tier::Strong),
        ),
        tag != "weak"@ && tag != "strong"@ ==> (EventShape::Decision { routed: true, tag }).action()
            == ActionShape::Finish(Err(RouteFault::UnknownTier(tag))),
        (EventShape::CallLlm { routed: true, tag }).action() == (EventShape::Decision {
            routed: true,
            tag,
        }).action(),
        (EventShape::Decision { routed: false, tag }).action() == ActionShape::Poll,
        (EventShape::CallLlm { routed: false, tag }).action() == ActionShape::ServeJudge,
        EventShape::JudgeServed(Ok(())).action() == ActionShape::Poll,
        EventShape::JudgeServed(Err(fault)).action() == ActionShape::Finish(Err(fault)),
        EventShape::ReturnToAgent.action() == ActionShape::Finish(Err(RouteFault::NoDecision)),
        EventShape::Failed(cause).action() == ActionShape::Finish(Err(RouteFault::Run(cause))),
        EventShape::Ended.action() == ActionShape::Finish(Err(RouteFault::NoDecision)),
{
    law_only_two_tags_name_a_tier(tag);
}

/// A run without an event that ends it has no outcome.
pub proof fn law_unfinished_run_has_no_outcome(events: Seq<EventShape>)
    requires
        forall|i: int| 0 <= i < events.len() ==> !((#[trigger] events[i]).action() is Finish),
    ensures
        run_outcome(events) is None,
    decreases events.len(),
{
    if events.len() > 0 {
        assert(!(events[0].action() is Finish));
        assert forall|i: int| 0 <= i < events.len() - 1 implies !((#[trigger] events.skip(
            1,
        )[i]).action() is Finish) by {
            assert(events.skip(1)[i] == events[i + 1]);
        }
        law_unfinished_run_has_no_outcome(events.skip(1));
    }
}

/// The text of a verdict is the whole string under `content` in the `message` of
/// the first of the `choices`, and there is none without it.
pub proof fn law_verdict_is_the_first_choice(reply: JsonTree, text: Seq<char>, tree: JsonTree)
    ensures
        verdict_content(reply) == Some(text) <==> (reply.field("choices"@) matches Some(choices)
            && (first_item(choices) matches Some(choice) && (choice.field(
            "message"@,
        ) matches Some(message) && message.field("content"@) == Some(JsonTree::Text(text))))),
        tree matches JsonTree::Array(items) ==> first_item(tree) == if items.len() > 0 {
            Some(items[0])
        } else {
            None
        },
        !(tree is Array) ==> first_item(tree) == tree.field("0"@),
{
}

/// A reply holds a verdict exactly where it is JSON whose verdict text is JSON
/// too, and the verdict is what that text parses to.
pub proof fn law_verdict_is_parsed_from_its_text(body: Seq<u8>, verdict: JsonTree)
    ensures
        verdict_in(body) == Some(verdict) <==> (parsed_json(body) matches Ok(reply) && (
        verdict_content(reply) matches Some(text) && parsed_json(encode_utf8(text)) == Ok::<
            JsonTree,
            Seq<char>,
        >(verdict))),
{
}

/// A summary shows the number `p_solve`, where it is one, and the whole texts
/// `primary_rule` and `capability_boundary`, or a question mark for each that is
/// no text.
pub proof fn law_summary_shows_the_verdict(
    summary: JudgeVerdict,
    verdict: JsonTree,
    number: serde_json::Number,
    text: Seq<char>,
)
    requires
        summarizes(summary, verdict),
    ensures
        summary.p_solve == Some(number) <==> verdict.field("p_solve"@) == Some(
            JsonTree::Number(number),
        ),
        verdict.field("primary_rule"@) == Some(JsonTree::Text(text)) ==> summary.rule@ == text,
        !(verdict.field("primary_rule"@) matches Some(JsonTree::Text(_))) ==> summary.rule@
            == "?"@,
        verdict.field("capability_boundary"@) == Some(JsonTree::Text(text)) ==> summary.boundary@
            == text,
        !(verdict.field("capability_boundary"@) matches Some(JsonTree::Text(_)))
            ==> summary.boundary@ == "?"@,
{
}

/// Attempts, steps, events and actions show what they hold.
pub proof fn law_callout_values_show_what_they_hold(
    err: RouteError,
    message: String,
    index: usize,
    routed: bool,
    tier: Tier,
    callout: JudgeCallout,
)
    ensures
        unit_outcome(Ok(())) == Ok::<(), RouteFault>(()),
        unit_outcome(Err(err)) == Err::<(), RouteFault>(err@),
        tier_outcome(Ok(tier)) == Ok::<Tier, RouteFault>(tier),
        tier_outcome(Err(err)) == Err::<Tier, RouteFault>(err@),
        JudgeAttemptError::Retryable(message)@ == AttemptFault::Retryable(message@),
        JudgeAttemptError::Fatal(err)@ == AttemptFault::Fatal(err@),
        Attempt::Answered(Err(err))@ == AttemptShape::Answered(Err(err@)),
        Attempt::Answered(Ok(()))@ == AttemptShape::Answered(Ok(())),
        Attempt::Failed(JudgeAttemptError::Fatal(err))@ == AttemptShape::Failed(
            AttemptFault::Fatal(err@),
        ),
        Attempt::Failed(JudgeAttemptError::Retryable(message))@ == AttemptShape::Failed(
            AttemptFault::Retryable(message@),
        ),
        CalloutStep::Try(index)@ == CalloutStepShape::Try(index as nat),
        CalloutStep::Finished(Err(err))@ == CalloutStepShape::Finished(Err(err@)),
        CalloutStep::Finished(Ok(()))@ == CalloutStepShape::Finished(Ok(())),
        callout@.count == callout.count,
        callout@.tried == callout.tried,
        callout@.last_error == callout.last_error@,
        (DecisionEvent::Decision { routed, tag: message })@ == (EventShape::Decision {
            routed,
            tag: message@,
        }),
        (DecisionEvent::CallLlm { routed, tag: message })@ == (EventShape::CallLlm {
            routed,
            tag: message@,
        }),
        DecisionEvent::JudgeServed(Err(err))@ == EventShape::JudgeServed(Err(err@)),
        DecisionEvent::JudgeServed(Ok(()))@ == EventShape::JudgeServed(Ok(())),
        DecisionEvent::ReturnToAgent@ == EventShape::ReturnToAgent,
        DecisionEvent::Failed(message)@ == EventShape::Failed(message@),
        DecisionEvent::Ended@ == EventShape::Ended,
        DecisionAction::Poll@ == ActionShape::Poll,
        DecisionAction::ServeJudge@ == ActionShape::ServeJudge,
        DecisionAction::Finish(Ok(tier))@ == ActionShape::Finish(Ok(tier)),
        DecisionAction::Finish(Err(err))@ == ActionShape::Finish(Err(err@)),
{
}

/// A reply is usable exactly where its status is a success, from 200 up to 299,
/// and is then its whole body.
pub proof fn law_success_statuses_pass(
    addr: &str,
    response: JudgeResponse,
    outcome: Result<Vec<u8>, JudgeAttemptError>,
)
    requires
        call_ensures(fetch_judge_body, (addr, Ok(response)), outcome),
    ensures
        outcome is Ok <==> 200 <= response.status <= 299,
        outcome matches Ok(body) ==> body@ == response.body@,
        outcome matches Err(err) ==> err@ is Retryable,
{
}

/// A lookup that found addresses is taken as it is; one that failed or found none
/// ends the callout and names the host.
pub proof fn law_addresses_are_taken_as_found(
    host: &str,
    lookup: Result<Vec<String>, String>,
    outcome: Result<Vec<String>, RouteError>,
)
    requires
        call_ensures(resolve_judge_addrs, (host, lookup), outcome),
    ensures
        outcome is Ok <==> lookup is Ok && lookup->Ok_0@.len() > 0,
        outcome is Ok ==> outcome->Ok_0@ == lookup->Ok_0@,
        lookup matches Err(cause) ==> outcome->Err_0@ == RouteFault::Judge(
            "DNS resolution failed for "@ + host@ + ": "@ + cause@,
        ),
        lookup is Ok && outcome is Err ==> outcome->Err_0@ == RouteFault::Judge(
            "no addresses resolved for "@ + host@,
        ),
{
}

/// A reply that the classifier cannot read is fatal, so that no further address
/// is tried, and one that cannot be handed over fails the callout; both with the
/// whole cause.
pub proof fn law_reply_failures_keep_their_cause(
    cause: &str,
    err: JudgeAttemptError,
    delivered: Result<(), String>,
    outcome: Result<(), RouteError>,
)
    requires
        call_ensures(translation_failure, (cause,), err),
        call_ensures(respond_judge, (delivered,), outcome),
    ensures
        err@ == AttemptFault::Fatal(RouteFault::Judge("response translation failed: "@ + cause@)),
        outcome is Ok <==> delivered is Ok,
        delivered matches Err(reason) ==> outcome->Err_0@ == RouteFault::Judge(
            "failed to deliver judge response: "@ + reason@,
        ),
{
}

/// A judge request asks for the judge's own model, unstreamed, and its body is
/// the rendering of its document.
pub proof fn law_judge_request_renders_its_document(
    config: &JudgeConfig,
    plan: JudgeRequestPlan,
    wire: Result<Json, String>,
    outcome: Result<Vec<u8>, RouteError>,
)
    requires
        call_ensures(judge_request_plan, (config,), plan),
        call_ensures(encode_judge_request, (wire,), outcome),
    ensures
        plan.model@ == config.model@,
        !plan.stream,
        outcome is Ok <==> wire is Ok,
        wire matches Ok(document) ==> outcome->Ok_0@ == json_bytes(document@),
        wire matches Err(cause) ==> outcome->Err_0@ == RouteFault::Judge(
            "request encoding failed: "@ + cause@,
        ),
{
}

/// From any state a callout tries the first address that was not tried, until
/// all were, and a failure counts one address and keeps its whole message.
pub proof fn law_callout_goes_one_address_on(state: CalloutState, message: Seq<char>)
    ensures
        state.tried < state.count ==> state.step() == CalloutStepShape::Try(state.tried),
        state.tried >= state.count ==> state.step() == CalloutStepShape::Finished(
            Err(RouteFault::Judge(state.last_error)),
        ),
        state.failed(message).count == state.count,
        state.failed(message).last_error == message,
        state.tried < state.count ==> state.failed(message).tried == state.tried + 1,
        state.tried >= state.count ==> state.failed(message).tried == state.tried,
{
}

} // verus!
