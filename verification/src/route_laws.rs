//! What holds of whole turns, and of one turn after another.

use vstd::prelude::*;

use crate::body::{
    bytes_outcome, document, law_asking_bytes_read_as_the_document,
    law_rewriting_renders_the_changed_document, parsed_body,
};
use crate::config::{law_each_tier_has_its_target, FailureMode, RouteConfig, SessionFloor, Tier};
use crate::error::{RouteError, RouteFault};
use crate::failure::{
    DECISION_FLOOR_SKIP, DECISION_REJECTED, DECISION_ROUTED, DECISION_UNROUTED,
};
use crate::json::{json_bytes, parsed_json, Json, JsonTree};
use crate::route::{
    after_recall, after_verdict, asks_tier, body_phase, failed_turn, failure_ending, fallback_key,
    fallback_value, floor_start, judge_ready, on_request, opt_key, opt_tree, recalled, resumed,
    routable, start_outcome, BodyStep, BodyStepShape, Exchange, ExchangeState, FilterVerdict,
    PendingRoute, PendingShape, RouteStart, StartShape, TurnState, CHAT_PATH, ERROR_LIMIT,
    METADATA_CLUSTER, METADATA_DECISION, METADATA_ERROR, REJECT_STATUS,
};
use crate::session::request_key;
use crate::store::{lemma_sweep_keeps_lookup, SessionKey, StoreState};
use crate::store_laws::{
    kept_tier, law_floor_only_rises, law_hit_refreshes_session, law_lookup_adds_no_entry,
    law_lookup_keeps_invariant, law_remember_keeps_invariant, law_remember_then_lookup,
    law_sessions_do_not_leak, law_store_stays_within_capacity,
};
use crate::text::law_suffix_completes_the_text;

verus! {

// ---------------------------------------------------------------------------
// The session floor
// ---------------------------------------------------------------------------

/// With the floor on, a session at Strong is served Strong without the judge:
/// the turn ends in its body phase, nothing is recorded as an error, and the
/// session stays at Strong with its idle time started over.
pub proof fn law_strong_session_skips_the_judge(
    config: RouteConfig,
    turn: TurnState,
    fields: Map<Seq<char>, Seq<u8>>,
    path: Seq<char>,
    now: u128,
    value: JsonTree,
    key: Seq<char>,
    later: u128,
)
    requires
        config.session_floor == SessionFloor::Enabled,
        routable(turn.exchange.body, path) == Ok::<JsonTree, RouteFault>(value),
        value is Object,
        request_key(fields, value, config.byte_order) == Some(key),
        turn.store.lookup(key, now) == Some(Tier::Strong),
    ensures
        body_phase(config, turn, fields, path, true, now).step == BodyStepShape::Finished(
            FilterVerdict::Continue,
        ),
        body_phase(config, turn, fields, path, true, now).turn.exchange.decision == Some(
            DECISION_FLOOR_SKIP@,
        ),
        body_phase(config, turn, fields, path, true, now).turn.exchange.cluster == Some(
            config.strong.cluster@,
        ),
        body_phase(config, turn, fields, path, true, now).turn.exchange.error
            == turn.exchange.error,
        body_phase(config, turn, fields, path, true, now).turn.store == turn.store.looked_up(
            key,
            now,
        ),
        turn.store.wf() && turn.store.next_seq < u64::MAX && later - now <= turn.store.ttl
            ==> body_phase(config, turn, fields, path, true, now).turn.store.lookup(key, later)
            == Some(Tier::Strong),
{
    if turn.store.wf() && turn.store.next_seq < u64::MAX && later - now <= turn.store.ttl {
        law_hit_refreshes_session(turn.store, key, now, later, key);
    }
}

/// The judge is asked exactly for a routable request whose session is not at
/// Strong, or for every routable request with the floor off. Asking it changes
/// neither the body nor the metadata.
pub proof fn law_judge_is_asked_unless_strong(
    config: RouteConfig,
    turn: TurnState,
    fields: Map<Seq<char>, Seq<u8>>,
    path: Seq<char>,
    now: u128,
)
    ensures
        body_phase(config, turn, fields, path, true, now).step is AskJudge <==> (routable(
            turn.exchange.body,
            path,
        ) matches Ok(value) && (config.session_floor == SessionFloor::Disabled || recalled(
            turn.store,
            request_key(fields, value, config.byte_order),
            now,
        ) != Some(Tier::Strong))),
        body_phase(config, turn, fields, path, true, now).step matches BodyStepShape::AskJudge(
            pending,
        ) ==> body_phase(config, turn, fields, path, true, now).turn.exchange == turn.exchange
            && routable(turn.exchange.body, path) == Ok::<JsonTree, RouteFault>(pending.value)
            && pending.key == request_key(fields, pending.value, config.byte_order) && pending.now == now,
        config.session_floor == SessionFloor::Disabled && body_phase(
            config,
            turn,
            fields,
            path,
            true,
            now,
        ).step is AskJudge ==> body_phase(config, turn, fields, path, true, now).turn == turn,
{
}

/// A Strong verdict with the floor on settles the following turns of its
/// session: within the idle time they are served Strong without the judge.
pub proof fn law_strong_verdict_settles_later_turns(
    config: RouteConfig,
    turn: TurnState,
    fields: Map<Seq<char>, Seq<u8>>,
    pending: PendingShape,
    end: u128,
    next: TurnState,
    next_fields: Map<Seq<char>, Seq<u8>>,
    path: Seq<char>,
    later: u128,
    value: JsonTree,
)
    requires
        config.session_floor == SessionFloor::Enabled,
        turn.store.wf(),
        turn.store.next_seq < u64::MAX,
        turn.store.max_entries > 0,
        pending.value is Object,
        pending.key is Some,
        next.store == resumed(config, turn, fields, pending, Ok(Tier::Strong), end).turn.store,
        routable(next.exchange.body, path) == Ok::<JsonTree, RouteFault>(value),
        value is Object,
        request_key(next_fields, value, config.byte_order) == pending.key,
        later - pending.now <= turn.store.ttl,
    ensures
        resumed(
            config,
            turn,
            fields,
            pending,
            Ok(Tier::Strong),
            end,
        ).turn.exchange.decision == Some(DECISION_ROUTED@),
        body_phase(config, next, next_fields, path, true, later).step == BodyStepShape::Finished(
            FilterVerdict::Continue,
        ),
        body_phase(config, next, next_fields, path, true, later).turn.exchange.decision == Some(
            DECISION_FLOOR_SKIP@,
        ),
        body_phase(config, next, next_fields, path, true, later).turn.exchange.cluster == Some(
            config.strong.cluster@,
        ),
{
    let key = pending.key->0;
    law_remember_then_lookup(
        turn.store,
        key,
        Tier::Strong,
        pending.now,
        SessionFloor::Enabled,
        later,
    );
    law_strong_session_skips_the_judge(
        config,
        next,
        next_fields,
        path,
        later,
        value,
        key,
        later,
    );
}

// ---------------------------------------------------------------------------
// Live verdicts
// ---------------------------------------------------------------------------

/// A live verdict serves its own tier, whatever the session holds, and leaves
/// no error behind.
pub proof fn law_live_verdict_serves_its_tier(
    config: RouteConfig,
    turn: TurnState,
    fields: Map<Seq<char>, Seq<u8>>,
    pending: PendingShape,
    tier: Tier,
    now: u128,
)
    requires
        pending.value is Object,
    ensures
        resumed(config, turn, fields, pending, Ok(tier), now).verdict == FilterVerdict::Continue,
        resumed(config, turn, fields, pending, Ok(tier), now).turn.exchange.cluster == Some(
            config.spec_target(tier).cluster@,
        ),
        resumed(config, turn, fields, pending, Ok(tier), now).turn.exchange.decision == Some(
            DECISION_ROUTED@,
        ),
        resumed(config, turn, fields, pending, Ok(tier), now).turn.exchange.error
            == turn.exchange.error,
{
}

/// What a verdict left behind is what a later failure of the session reuses:
/// with the floor off that verdict itself, with the floor on the higher of it
/// and what the session held.
pub proof fn law_verdict_is_reused_after_failure(
    config: RouteConfig,
    turn: TurnState,
    fields: Map<Seq<char>, Seq<u8>>,
    pending: PendingShape,
    tier: Tier,
    end: u128,
    next: TurnState,
    next_fields: Map<Seq<char>, Seq<u8>>,
    fault: RouteFault,
    later: u128,
    value: JsonTree,
) -> (served: Tier)
    requires
        config.on_failure == FailureMode::Open,
        turn.store.wf(),
        turn.store.next_seq < u64::MAX,
        turn.store.max_entries > 0,
        pending.value is Object,
        pending.key is Some,
        next.store == resumed(config, turn, fields, pending, Ok(tier), end).turn.store,
        fault.may_apply(),
        parsed_body(next.exchange.body) == Ok::<JsonTree, RouteFault>(value),
        value is Object,
        request_key(next_fields, value, config.byte_order) == pending.key,
        later - pending.now <= turn.store.ttl,
    ensures
        served == kept_tier(
            turn.store.lookup(pending.key->0, pending.now),
            tier,
            config.session_floor,
        ),
        failed_turn(config, next, next_fields, fault, later).verdict == FilterVerdict::Continue,
        failed_turn(config, next, next_fields, fault, later).turn.exchange.decision == Some(
            "reuse"@,
        ),
        failed_turn(config, next, next_fields, fault, later).turn.exchange.cluster == Some(
            config.spec_target(served).cluster@,
        ),
{
    let key = pending.key->0;
    law_remember_then_lookup(turn.store, key, tier, pending.now, config.session_floor, later);
    next.store.lookup(key, later)->0
}

/// A verdict for one session is not reused by another: a session that is
/// unknown before the verdict is served Strong by default when its turn fails.
pub proof fn law_verdict_stays_in_its_session(
    config: RouteConfig,
    turn: TurnState,
    fields: Map<Seq<char>, Seq<u8>>,
    pending: PendingShape,
    tier: Tier,
    end: u128,
    next: TurnState,
    next_fields: Map<Seq<char>, Seq<u8>>,
    fault: RouteFault,
    later: u128,
    value: JsonTree,
    other: Seq<char>,
)
    requires
        config.on_failure == FailureMode::Open,
        pending.value is Object,
        pending.key is Some,
        next.store == resumed(config, turn, fields, pending, Ok(tier), end).turn.store,
        fault.may_apply(),
        parsed_body(next.exchange.body) == Ok::<JsonTree, RouteFault>(value),
        value is Object,
        request_key(next_fields, value, config.byte_order) == Some(other),
        other != pending.key->0,
        !turn.store.entries.contains_key(other),
    ensures
        failed_turn(config, next, next_fields, fault, later).turn.exchange.decision == Some(
            "default_strong"@,
        ),
        failed_turn(config, next, next_fields, fault, later).turn.exchange.cluster == Some(
            config.strong.cluster@,
        ),
{
    law_sessions_do_not_leak(
        turn.store,
        pending.key->0,
        tier,
        pending.now,
        config.session_floor,
        other,
    );
}

// ---------------------------------------------------------------------------
// Failures
// ---------------------------------------------------------------------------

/// Closed rejects every failure with 503 and leaves the body and the cluster
/// alone, whatever the session remembers.
pub proof fn law_closed_failure_rejects(
    config: RouteConfig,
    turn: TurnState,
    fields: Map<Seq<char>, Seq<u8>>,
    fault: RouteFault,
    now: u128,
)
    requires
        config.on_failure == FailureMode::Closed,
    ensures
        failed_turn(config, turn, fields, fault, now).verdict == FilterVerdict::Reject(503),
        failed_turn(config, turn, fields, fault, now).turn.exchange.decision == Some(
            DECISION_REJECTED@,
        ),
        failed_turn(config, turn, fields, fault, now).turn.exchange.body == turn.exchange.body,
        failed_turn(config, turn, fields, fault, now).turn.exchange.cluster
            == turn.exchange.cluster,
        failed_turn(config, turn, fields, fault, now).turn.exchange.tier == turn.exchange.tier,
{
}

/// Open lets every failed request through.
pub proof fn law_open_failure_continues(
    config: RouteConfig,
    turn: TurnState,
    fields: Map<Seq<char>, Seq<u8>>,
    fault: RouteFault,
    now: u128,
)
    requires
        config.on_failure == FailureMode::Open,
    ensures
        failed_turn(config, turn, fields, fault, now).verdict == FilterVerdict::Continue,
{
}

/// Every failure records its reason, in full and cut to the limit, and one of
/// the four decisions of a failure.
pub proof fn law_failure_is_recorded(
    config: RouteConfig,
    turn: TurnState,
    fields: Map<Seq<char>, Seq<u8>>,
    fault: RouteFault,
    now: u128,
)
    ensures
        failed_turn(config, turn, fields, fault, now).turn.exchange.cause == Some(fault.message()),
        failed_turn(config, turn, fields, fault, now).turn.exchange.error is Some,
        failed_turn(config, turn, fields, fault, now).turn.exchange.error->0.len() <= ERROR_LIMIT,
        failed_turn(config, turn, fields, fault, now).turn.exchange.error->0.is_prefix_of(
            fault.message(),
        ),
        failed_turn(config, turn, fields, fault, now).turn.exchange.decision == Some("reuse"@)
            || failed_turn(config, turn, fields, fault, now).turn.exchange.decision == Some(
            "default_strong"@,
        ) || failed_turn(config, turn, fields, fault, now).turn.exchange.decision == Some(
            DECISION_REJECTED@,
        ) || failed_turn(config, turn, fields, fault, now).turn.exchange.decision == Some(
            DECISION_UNROUTED@,
        ),
{
    let message = fault.message();
    if message.len() > ERROR_LIMIT {
        assert(message.take(ERROR_LIMIT as int) =~= message.subrange(0, ERROR_LIMIT as int));
    } else {
        assert(message =~= message.subrange(0, message.len() as int));
    }
}

/// A failed request that must not be rewritten, because its body or path is not
/// that of a chat request, keeps its body and its cluster, and the sessions are
/// not consulted.
pub proof fn law_unroutable_request_is_untouched(
    config: RouteConfig,
    turn: TurnState,
    fields: Map<Seq<char>, Seq<u8>>,
    fault: RouteFault,
    now: u128,
)
    requires
        !fault.may_apply(),
    ensures
        failed_turn(config, turn, fields, fault, now).turn.exchange.body == turn.exchange.body,
        failed_turn(config, turn, fields, fault, now).turn.exchange.cluster
            == turn.exchange.cluster,
        failed_turn(config, turn, fields, fault, now).turn.exchange.tier == turn.exchange.tier,
        failed_turn(config, turn, fields, fault, now).turn.store == turn.store,
        config.on_failure == FailureMode::Open ==> failed_turn(
            config,
            turn,
            fields,
            fault,
            now,
        ).turn.exchange.decision == Some(DECISION_UNROUTED@),
{
}

/// A fallback is served only where the document can be rewritten; any other
/// body reaches the upstream as it arrived.
pub proof fn law_failed_rewrite_leaves_the_body(
    config: RouteConfig,
    turn: TurnState,
    fields: Map<Seq<char>, Seq<u8>>,
    fault: RouteFault,
    now: u128,
)
    requires
        !(parsed_body(turn.exchange.body) matches Ok(JsonTree::Object(_))),
    ensures
        failed_turn(config, turn, fields, fault, now).turn.exchange.body == turn.exchange.body,
        failed_turn(config, turn, fields, fault, now).turn.exchange.cluster
            == turn.exchange.cluster,
        failed_turn(config, turn, fields, fault, now).turn.exchange.tier == turn.exchange.tier,
        config.on_failure == FailureMode::Open ==> failed_turn(
            config,
            turn,
            fields,
            fault,
            now,
        ).turn.exchange.decision == Some(DECISION_UNROUTED@),
{
}

/// An open failure of a chat request serves the remembered tier, and Strong
/// where nothing is remembered.
pub proof fn law_open_failure_serves_a_tier(
    config: RouteConfig,
    turn: TurnState,
    fields: Map<Seq<char>, Seq<u8>>,
    fault: RouteFault,
    now: u128,
    value: JsonTree,
)
    requires
        config.on_failure == FailureMode::Open,
        fault.may_apply(),
        parsed_body(turn.exchange.body) == Ok::<JsonTree, RouteFault>(value),
        value is Object,
    ensures
        recalled(turn.store, request_key(fields, value, config.byte_order), now) matches Some(tier) ==> failed_turn(
            config,
            turn,
            fields,
            fault,
            now,
        ).turn.exchange.decision == Some("reuse"@) && failed_turn(
            config,
            turn,
            fields,
            fault,
            now,
        ).turn.exchange.cluster == Some(config.spec_target(tier).cluster@),
        recalled(turn.store, request_key(fields, value, config.byte_order), now) is None ==> failed_turn(
            config,
            turn,
            fields,
            fault,
            now,
        ).turn.exchange.decision == Some("default_strong"@) && failed_turn(
            config,
            turn,
            fields,
            fault,
            now,
        ).turn.exchange.cluster == Some(config.strong.cluster@),
{
}

/// A lookup stores nothing: every session it leaves was there with that tier.
proof fn lemma_recall_writes_nothing(
    store: StoreState,
    key: Option<Seq<char>>,
    now: u128,
    session: Seq<char>,
)
    requires
        after_recall(store, key, now).entries.contains_key(session),
    ensures
        store.entries.contains_key(session),
        after_recall(store, key, now).entries[session].tier == store.entries[session].tier,
{
    if let Some(key) = key {
        lemma_sweep_keeps_lookup(store, key, now);
        lemma_sweep_keeps_lookup(store, session, now);
    }
}

/// A failure stores no session and changes no stored tier: a default Strong and
/// a rejection are never written.
pub proof fn law_failure_is_never_stored(
    config: RouteConfig,
    turn: TurnState,
    fields: Map<Seq<char>, Seq<u8>>,
    fault: RouteFault,
    now: u128,
    session: Seq<char>,
)
    requires
        failed_turn(config, turn, fields, fault, now).turn.store.entries.contains_key(session),
    ensures
        turn.store.entries.contains_key(session),
        failed_turn(config, turn, fields, fault, now).turn.store.entries[session].tier
            == turn.store.entries[session].tier,
{
    let value = fallback_value(turn.exchange.body, fault);
    lemma_recall_writes_nothing(turn.store, fallback_key(fields, value, config.byte_order), now, session);
}

/// The body phase stores no session and changes no stored tier: only a live
/// verdict does.
pub proof fn law_body_phase_is_never_stored(
    config: RouteConfig,
    turn: TurnState,
    fields: Map<Seq<char>, Seq<u8>>,
    path: Seq<char>,
    end_of_stream: bool,
    now: u128,
    session: Seq<char>,
)
    requires
        body_phase(
            config,
            turn,
            fields,
            path,
            end_of_stream,
            now,
        ).turn.store.entries.contains_key(session),
    ensures
        turn.store.entries.contains_key(session),
        body_phase(config, turn, fields, path, end_of_stream, now).turn.store.entries[session].tier
            == turn.store.entries[session].tier,
{
    if let Ok(value) = routable(turn.exchange.body, path) {
        let key = request_key(fields, value, config.byte_order);
        if end_of_stream && config.session_floor == SessionFloor::Enabled {
            lemma_recall_writes_nothing(turn.store, key, now, session);
        }
    }
}

/// A request that is no readable chat request is never routed: without the
/// judge and without the sessions it is passed on unrouted, or rejected where
/// failures are closed, with its body and cluster as they were.
pub proof fn law_unreadable_request_is_never_routed(
    config: RouteConfig,
    turn: TurnState,
    fields: Map<Seq<char>, Seq<u8>>,
    path: Seq<char>,
    now: u128,
)
    requires
        routable(turn.exchange.body, path) is Err,
    ensures
        body_phase(config, turn, fields, path, true, now).step == BodyStepShape::Finished(
            if config.on_failure == FailureMode::Open {
                FilterVerdict::Continue
            } else {
                FilterVerdict::Reject(503)
            },
        ),
        body_phase(config, turn, fields, path, true, now).turn.exchange.decision == Some(
            if config.on_failure == FailureMode::Open {
                DECISION_UNROUTED@
            } else {
                DECISION_REJECTED@
            },
        ),
        body_phase(config, turn, fields, path, true, now).turn.exchange.body == turn.exchange.body,
        body_phase(config, turn, fields, path, true, now).turn.exchange.cluster
            == turn.exchange.cluster,
        body_phase(config, turn, fields, path, true, now).turn.store == turn.store,
        body_phase(config, turn, fields, path, true, now).turn.exchange.error is Some,
{
    assert(!(routable(turn.exchange.body, path)->Err_0).may_apply());
}

/// A document that is no object has no model to set: neither the floor, nor a
/// live verdict, nor a fallback serves it, and its body stays as it is.
pub proof fn law_unrewritable_body_is_untouched(
    config: RouteConfig,
    turn: TurnState,
    fields: Map<Seq<char>, Seq<u8>>,
    path: Seq<char>,
    now: u128,
    pending: PendingShape,
    decided: Result<Tier, RouteFault>,
)
    requires
        parsed_body(turn.exchange.body) == Ok::<JsonTree, RouteFault>(pending.value),
        !(pending.value is Object),
    ensures
        body_phase(config, turn, fields, path, true, now).turn.exchange.body == turn.exchange.body,
        body_phase(config, turn, fields, path, true, now).turn.exchange.cluster
            == turn.exchange.cluster,
        resumed(config, turn, fields, pending, decided, now).turn.exchange.body
            == turn.exchange.body,
        resumed(config, turn, fields, pending, decided, now).turn.exchange.cluster
            == turn.exchange.cluster,
        resumed(config, turn, fields, pending, decided, now).turn.exchange.decision == Some(
            if config.on_failure == FailureMode::Open {
                DECISION_UNROUTED@
            } else {
                DECISION_REJECTED@
            },
        ),
{
}

/// A body that is still arriving changes nothing.
pub proof fn law_partial_body_is_untouched(
    config: RouteConfig,
    turn: TurnState,
    fields: Map<Seq<char>, Seq<u8>>,
    path: Seq<char>,
    now: u128,
)
    ensures
        body_phase(config, turn, fields, path, false, now).turn == turn,
        body_phase(config, turn, fields, path, false, now).step == BodyStepShape::Finished(
            FilterVerdict::Continue,
        ),
{
}

/// With the floor on, no turn lowers what a live session holds: each phase
/// leaves its stored tier where it was, or higher.
pub proof fn law_turns_never_lower_a_session(
    config: RouteConfig,
    turn: TurnState,
    fields: Map<Seq<char>, Seq<u8>>,
    path: Seq<char>,
    now: u128,
    pending: PendingShape,
    decided: Result<Tier, RouteFault>,
    session: Seq<char>,
)
    requires
        config.session_floor == SessionFloor::Enabled,
        turn.store.lookup(session, pending.now) is Some,
    ensures
        body_phase(config, turn, fields, path, true, now).turn.store.entries.contains_key(session)
            ==> body_phase(
            config,
            turn,
            fields,
            path,
            true,
            now,
        ).turn.store.entries[session].tier.rank() >= turn.store.entries[session].tier.rank(),
        resumed(config, turn, fields, pending, decided, now).turn.store.entries.contains_key(
            session,
        ) ==> resumed(
            config,
            turn,
            fields,
            pending,
            decided,
            now,
        ).turn.store.entries[session].tier.rank() >= turn.store.entries[session].tier.rank(),
{
    if body_phase(config, turn, fields, path, true, now).turn.store.entries.contains_key(session) {
        law_body_phase_is_never_stored(config, turn, fields, path, true, now, session);
    }
    let end = resumed(config, turn, fields, pending, decided, now);
    if end.turn.store.entries.contains_key(session) {
        match decided {
            Err(fault) => {
                law_failure_is_never_stored(config, turn, fields, fault, now, session);
            },
            Ok(tier) => {
                if let Some(key) = pending.key {
                    if pending.value is Object {
                        law_floor_only_rises(turn.store, key, tier, pending.now, session);
                    }
                }
            },
        }
    }
}

// ---------------------------------------------------------------------------
// The store across turns
// ---------------------------------------------------------------------------

proof fn lemma_recall_keeps_capacity(store: StoreState, key: Option<Seq<char>>, now: u128)
    requires
        store.wf(),
    ensures
        after_recall(store, key, now).wf(),
        after_recall(store, key, now).entries.len() <= store.entries.len(),
        after_recall(store, key, now).max_entries == store.max_entries,
{
    if let Some(key) = key {
        law_lookup_keeps_invariant(store, key, now);
        law_lookup_adds_no_entry(store, key, now);
    }
}

/// Neither phase of a turn breaks the store's invariant or lets it outgrow its
/// capacity.
pub proof fn law_turns_keep_the_store_bounded(
    config: RouteConfig,
    turn: TurnState,
    fields: Map<Seq<char>, Seq<u8>>,
    path: Seq<char>,
    end_of_stream: bool,
    now: u128,
    pending: PendingShape,
    decided: Result<Tier, RouteFault>,
)
    requires
        turn.store.wf(),
        turn.store.entries.len() <= turn.store.max_entries,
    ensures
        body_phase(config, turn, fields, path, end_of_stream, now).turn.store.wf(),
        body_phase(config, turn, fields, path, end_of_stream, now).turn.store.entries.len()
            <= turn.store.max_entries,
        resumed(config, turn, fields, pending, decided, now).turn.store.wf(),
        resumed(config, turn, fields, pending, decided, now).turn.store.entries.len()
            <= turn.store.max_entries,
{
    if let Ok(value) = routable(turn.exchange.body, path) {
        lemma_recall_keeps_capacity(turn.store, request_key(fields, value, config.byte_order), now);
    }
    if let Ok(tier) = decided {
        if let Some(key) = pending.key {
            law_remember_keeps_invariant(turn.store, key, tier, pending.now, config.session_floor);
            law_store_stays_within_capacity(
                turn.store,
                key,
                tier,
                pending.now,
                config.session_floor,
            );
        }
    }
    if let Err(fault) = decided {
        let value = fallback_value(turn.exchange.body, fault);
        lemma_recall_keeps_capacity(turn.store, fallback_key(fields, value, config.byte_order), now);
    }
}

// ---------------------------------------------------------------------------
// Which requests are routed
// ---------------------------------------------------------------------------

/// A request is routable exactly where its body parses and the last characters
/// of its path are those of a chat completions path. A body that does not parse
/// is refused for that, any other path as unsupported.
pub proof fn law_only_chat_paths_are_routable(body: Option<Seq<u8>>, path: Seq<char>)
    ensures
        routable(body, path) is Ok <==> parsed_body(body) is Ok && path.len() >= 17 && path.skip(
            path.len() - 17,
        ) == "/chat/completions"@,
        routable(body, path) matches Ok(value) ==> parsed_body(body) == Ok::<JsonTree, RouteFault>(
            value,
        ),
        parsed_body(body) is Err ==> routable(body, path) == parsed_body(body),
        parsed_body(body) is Ok && routable(body, path) is Err ==> routable(body, path) == Err::<
            JsonTree,
            RouteFault,
        >(RouteFault::UnsupportedPath),
{
    reveal_strlit("/chat/completions");
}

/// What stands before the chat completions path does not matter.
pub proof fn law_path_prefix_does_not_matter(
    body: Option<Seq<u8>>,
    before: Seq<char>,
    other: Seq<char>,
)
    ensures
        routable(body, before + "/chat/completions"@) == parsed_body(body),
        routable(body, before + "/chat/completions"@) == routable(
            body,
            other + "/chat/completions"@,
        ),
{
    law_suffix_completes_the_text(before, before, "/chat/completions"@);
    law_suffix_completes_the_text(other, other, "/chat/completions"@);
}

/// Without a key nothing is looked up; with one the store's own lookup is made.
pub proof fn law_recall_is_a_lookup(store: StoreState, key: Seq<char>, now: u128)
    ensures
        recalled(store, None, now) is None,
        after_recall(store, None, now) == store,
        recalled(store, Some(key), now) == store.lookup(key, now),
        after_recall(store, Some(key), now) == store.looked_up(key, now),
{
}

// ---------------------------------------------------------------------------
// What a turn leaves behind, in full
// ---------------------------------------------------------------------------

/// Whether `exchange` was served with the tier from `before`: its body is the
/// rendering of `set`, which is `value` with the tier's model and no other
/// change, the tier and its cluster are recorded under `decision`, and nothing
/// else was touched.
pub open spec fn is_served(
    exchange: ExchangeState,
    before: ExchangeState,
    config: RouteConfig,
    value: JsonTree,
    set: JsonTree,
    tier: Tier,
    decision: Seq<char>,
) -> bool {
    let target = if tier == Tier::Weak {
        config.weak
    } else {
        config.strong
    };
    &&& exchange.body == Some(json_bytes(set))
    &&& set is Object
    &&& set.field("model"@) == Some(JsonTree::Text(target.model@))
    &&& forall|name: Seq<char>| name != "model"@ ==> #[trigger] set.field(name) == value.field(name)
    &&& exchange.tier == Some(tier)
    &&& exchange.cluster == Some(target.cluster@)
    &&& exchange.decision == Some(decision)
    &&& exchange.error == before.error
    &&& exchange.cause == before.cause
    &&& exchange.fallback_cause == before.fallback_cause
}

/// A live verdict for an object is served as it is, under `routed`, with only the
/// model changed. The session takes the verdict in as of the turn's beginning; a
/// request without a session leaves the store alone.
pub proof fn law_live_verdict_in_full(
    config: RouteConfig,
    turn: TurnState,
    fields: Map<Seq<char>, Seq<u8>>,
    pending: PendingShape,
    tier: Tier,
    now: u128,
) -> (set: JsonTree)
    requires
        pending.value is Object,
    ensures
        ({
            let end = resumed(config, turn, fields, pending, Ok(tier), now);
            &&& end.verdict == FilterVerdict::Continue
            &&& is_served(
                end.turn.exchange,
                turn.exchange,
                config,
                pending.value,
                set,
                tier,
                "routed"@,
            )
            &&& pending.key is None ==> end.turn.store == turn.store
            &&& pending.key matches Some(key) ==> end.turn.store == turn.store.remembered(
                key,
                tier,
                pending.now,
                config.session_floor,
            )
        }),
{
    law_each_tier_has_its_target(config);
    law_rewriting_renders_the_changed_document(
        pending.value,
        config.spec_target(tier).model@,
    )
}

/// A session at Strong is served Strong under `floor_skip`, with only the model
/// changed.
pub proof fn law_floor_skip_in_full(
    config: RouteConfig,
    turn: TurnState,
    fields: Map<Seq<char>, Seq<u8>>,
    path: Seq<char>,
    now: u128,
    value: JsonTree,
    key: Seq<char>,
) -> (set: JsonTree)
    requires
        config.session_floor == SessionFloor::Enabled,
        routable(turn.exchange.body, path) == Ok::<JsonTree, RouteFault>(value),
        value is Object,
        request_key(fields, value, config.byte_order) == Some(key),
        turn.store.lookup(key, now) == Some(Tier::Strong),
    ensures
        is_served(
            body_phase(config, turn, fields, path, true, now).turn.exchange,
            turn.exchange,
            config,
            value,
            set,
            Tier::Strong,
            "floor_skip"@,
        ),
{
    law_rewriting_renders_the_changed_document(value, config.strong.model@)
}

/// In open mode a chat request whose decision is missing is always served: after
/// a failed judge, run or decoding, an unknown tier, a missing client or no
/// decision at all, whatever the failure says. It gets the remembered tier under
/// `reuse`, or Strong under `default_strong`, with only the model changed.
pub proof fn law_missing_decision_is_always_served(
    config: RouteConfig,
    turn: TurnState,
    fields: Map<Seq<char>, Seq<u8>>,
    fault: RouteFault,
    now: u128,
    value: JsonTree,
) -> (set: JsonTree)
    requires
        config.on_failure == FailureMode::Open,
        fault is Judge || fault is Run || fault is Translation || fault is UnknownTier || fault
            is MissingSubrequestClient || fault is NoDecision,
        parsed_body(turn.exchange.body) == Ok::<JsonTree, RouteFault>(value),
        value is Object,
    ensures
        ({
            let end = failed_turn(config, turn, fields, fault, now);
            let key = request_key(fields, value, config.byte_order);
            let found = if key is Some {
                turn.store.lookup(key->0, now)
            } else {
                None
            };
            let before = ExchangeState {
                error: end.turn.exchange.error,
                cause: Some(fault.message()),
                ..turn.exchange
            };
            &&& end.verdict == FilterVerdict::Continue
            &&& found matches Some(tier) ==> is_served(
                end.turn.exchange,
                before,
                config,
                value,
                set,
                tier,
                "reuse"@,
            )
            &&& found is None ==> is_served(
                end.turn.exchange,
                before,
                config,
                value,
                set,
                Tier::Strong,
                "default_strong"@,
            )
            &&& end.turn.store == if key is Some {
                turn.store.looked_up(key->0, now)
            } else {
                turn.store
            }
        }),
{
    let key = request_key(fields, value, config.byte_order);
    let tier = match recalled(turn.store, key, now) {
        Some(tier) => tier,
        None => Tier::Strong,
    };
    law_each_tier_has_its_target(config);
    law_rewriting_renders_the_changed_document(value, config.spec_target(tier).model@)
}

/// A failure of the request itself, in its body, its JSON, its path or its
/// rendering, is never served: in open mode it is passed on under `unrouted`,
/// and in closed mode refused under `rejected`. Only the failure is recorded.
pub proof fn law_request_failure_is_never_served(
    config: RouteConfig,
    turn: TurnState,
    fields: Map<Seq<char>, Seq<u8>>,
    fault: RouteFault,
    now: u128,
)
    requires
        fault is Body || fault is Json || fault is UnsupportedPath || fault is Serialize,
    ensures
        ({
            let end = failed_turn(config, turn, fields, fault, now);
            let open = config.on_failure == FailureMode::Open;
            &&& end.turn.store == turn.store
            &&& end.turn.exchange == (ExchangeState {
                decision: Some(
                    if open {
                        "unrouted"@
                    } else {
                        "rejected"@
                    },
                ),
                error: end.turn.exchange.error,
                cause: Some(fault.message()),
                ..turn.exchange
            })
            &&& end.verdict == if open {
                FilterVerdict::Continue
            } else {
                FilterVerdict::Reject(503)
            }
        }),
{
}

/// A failure is recorded as the first 250 characters of its message: all of a
/// shorter one, exactly so many of a longer one.
pub proof fn law_error_is_the_start_of_the_message(
    config: RouteConfig,
    turn: TurnState,
    fields: Map<Seq<char>, Seq<u8>>,
    fault: RouteFault,
    now: u128,
)
    ensures
        fault.message().len() <= 250 ==> failed_turn(
            config,
            turn,
            fields,
            fault,
            now,
        ).turn.exchange.error == Some(fault.message()),
        fault.message().len() > 250 ==> failed_turn(
            config,
            turn,
            fields,
            fault,
            now,
        ).turn.exchange.error == Some(fault.message().take(250)),
{
}

/// In open mode a missing decision for a document that is no object leaves the
/// request unrouted and records why no fallback was served.
pub proof fn law_failed_fallback_says_why(
    config: RouteConfig,
    turn: TurnState,
    fields: Map<Seq<char>, Seq<u8>>,
    fault: RouteFault,
    now: u128,
    value: JsonTree,
)
    requires
        config.on_failure == FailureMode::Open,
        fault.may_apply(),
        parsed_body(turn.exchange.body) == Ok::<JsonTree, RouteFault>(value),
        !(value is Object),
    ensures
        failed_turn(config, turn, fields, fault, now).turn.exchange.decision == Some("unrouted"@),
        failed_turn(config, turn, fields, fault, now).turn.exchange.fallback_cause == Some(
            "request body "@ + "not an object"@,
        ),
        failed_turn(config, turn, fields, fault, now).turn.exchange.body == turn.exchange.body,
{
}

/// A failed decision and a failed start end a turn alike: as that failure does.
pub proof fn law_failed_decision_ends_as_its_failure(
    config: RouteConfig,
    turn: TurnState,
    fields: Map<Seq<char>, Seq<u8>>,
    pending: PendingShape,
    fault: RouteFault,
    path: Seq<char>,
    now: u128,
)
    ensures
        resumed(config, turn, fields, pending, Err(fault), now) == failed_turn(
            config,
            turn,
            fields,
            fault,
            now,
        ),
        routable(turn.exchange.body, path) == Err::<JsonTree, RouteFault>(fault) ==> body_phase(
            config,
            turn,
            fields,
            path,
            true,
            now,
        ).turn == failed_turn(config, turn, fields, fault, now).turn,
{
}

/// Waiting for the judge, a request has been looked up with the floor on, and
/// not at all with the floor off.
pub proof fn law_asking_the_judge_looks_the_session_up(
    config: RouteConfig,
    turn: TurnState,
    fields: Map<Seq<char>, Seq<u8>>,
    path: Seq<char>,
    now: u128,
)
    ensures
        body_phase(config, turn, fields, path, true, now).step matches BodyStepShape::AskJudge(
            pending,
        ) ==> body_phase(config, turn, fields, path, true, now).turn.store == (
        match pending.key {
            Some(key) => if config.session_floor == SessionFloor::Enabled {
                turn.store.looked_up(key, now)
            } else {
                turn.store
            },
            None => turn.store,
        }),
{
}

/// The keys under which a turn is recorded, and the status of a rejection.
pub proof fn law_metadata_keys()
    ensures
        METADATA_CLUSTER@ == "switchyard_route.cluster"@,
        METADATA_DECISION@ == "switchyard_route.decision"@,
        METADATA_ERROR@ == "switchyard_route.error"@,
        CHAT_PATH@ == "/chat/completions"@,
        REJECT_STATUS == 503,
{
}

/// A request and its turn show what they hold.
pub proof fn law_turn_values_show_what_they_hold(
    exchange: Exchange,
    pending: PendingRoute,
    err: RouteError,
    tier: Tier,
    verdict: FilterVerdict,
    key: SessionKey,
    value: Json,
    bytes: Vec<u8>,
)
    ensures
        exchange.body matches Some(body) ==> exchange@.body == Some(body@),
        exchange.body is None ==> exchange@.body is None,
        exchange@.tier == exchange.tier,
        exchange.cluster matches Some(cluster) ==> exchange@.cluster == Some(cluster@),
        exchange.cluster is None ==> exchange@.cluster is None,
        exchange.decision matches Some(decision) ==> exchange@.decision == Some(decision@),
        exchange.decision is None ==> exchange@.decision is None,
        exchange.error matches Some(error) ==> exchange@.error == Some(error@),
        exchange.error is None ==> exchange@.error is None,
        exchange.cause matches Some(cause) ==> exchange@.cause == Some(cause@),
        exchange.cause is None ==> exchange@.cause is None,
        exchange.fallback_cause matches Some(cause) ==> exchange@.fallback_cause == Some(cause@),
        exchange.fallback_cause is None ==> exchange@.fallback_cause is None,
        pending@.value == pending.value@,
        pending@.now == pending.now,
        pending.key matches Some(key) ==> pending@.key == Some(key.inner@),
        pending.key is None ==> pending@.key is None,
        start_outcome(Ok(RouteStart::FloorSkip(tier))) == Ok::<StartShape, RouteFault>(
            StartShape::FloorSkip(tier),
        ),
        start_outcome(Ok(RouteStart::Undecided(pending))) == Ok::<StartShape, RouteFault>(
            StartShape::Undecided(pending@),
        ),
        start_outcome(Err(err)) == Err::<StartShape, RouteFault>(err@),
        BodyStep::Finished(verdict)@ == BodyStepShape::Finished(verdict),
        BodyStep::AskJudge(pending)@ == BodyStepShape::AskJudge(pending@),
        opt_key(Some(key)) == Some(key.inner@),
        opt_key(None) is None,
        opt_tree(Some(value)) == Some(value@),
        opt_tree(None) is None,
        document(Ok(value)) == Ok::<JsonTree, RouteFault>(value@),
        document(Err(err)) == Err::<JsonTree, RouteFault>(err@),
        bytes_outcome(Ok(bytes)) == Ok::<Seq<u8>, RouteFault>(bytes@),
        bytes_outcome(Err(err)) == Err::<Seq<u8>, RouteFault>(err@),
{
}

/// The judge can be asked exactly where the request was decoded and there is a
/// client; a decoding failure is told before a missing client.
pub proof fn law_judge_needs_a_request_and_a_client(
    decoded: Result<(), String>,
    has_client: bool,
    outcome: Result<(), RouteError>,
)
    requires
        call_ensures(judge_ready, (decoded, has_client), outcome),
    ensures
        outcome is Ok <==> decoded is Ok && has_client,
        decoded matches Err(cause) ==> outcome->Err_0@ == RouteFault::Translation(cause@),
        decoded is Ok && !has_client ==> outcome->Err_0@ == RouteFault::MissingSubrequestClient,
{
}

/// A cluster that the body phase recorded is used; without one the request keeps
/// the cluster it has.
pub proof fn law_recorded_cluster_is_used(
    recorded: Option<&str>,
    current: Option<String>,
    cluster: Option<String>,
)
    requires
        call_ensures(on_request, (recorded, current), cluster),
    ensures
        recorded matches Some(recorded) ==> (cluster matches Some(cluster) && cluster@
            == recorded@),
        recorded is None ==> (cluster is Some <==> current is Some),
        recorded is None && current is Some ==> cluster->0@ == current->0@,
{
}

/// Serving an object succeeds under any decision, with only the model changed; a
/// document that is no object is refused as such.
pub proof fn law_served_in_full(
    exchange: ExchangeState,
    config: RouteConfig,
    value: JsonTree,
    tier: Tier,
    decision: Seq<char>,
) -> (set: JsonTree)
    ensures
        value is Object ==> (exchange.served(config, value, tier, decision) matches Ok(next)
            && is_served(next, exchange, config, value, set, tier, decision)),
        !(value is Object) ==> exchange.served(config, value, tier, decision) == Err::<
            ExchangeState,
            RouteFault,
        >(RouteFault::Body("not an object"@)),
{
    law_each_tier_has_its_target(config);
    if value is Object {
        law_rewriting_renders_the_changed_document(value, config.spec_target(tier).model@)
    } else {
        value
    }
}

/// Recording a decision, an error or a failed fallback touches its own entries
/// and nothing else of a request.
pub proof fn law_records_touch_only_their_own(
    exchange: ExchangeState,
    decision: Seq<char>,
    fault: RouteFault,
)
    ensures
        exchange.decided(decision) == (ExchangeState { decision: Some(decision), ..exchange }),
        exchange.erred(fault) == (ExchangeState {
            error: Some(
                if fault.message().len() <= 250 {
                    fault.message()
                } else {
                    fault.message().take(250)
                },
            ),
            cause: Some(fault.message()),
            ..exchange
        }),
        exchange.without_fallback(fault) == (ExchangeState {
            fallback_cause: Some(fault.message()),
            ..exchange
        }),
{
}

/// How a failure ends, case by case: rejected in closed mode; in open mode served
/// where the request may be rewritten and is an object, and otherwise passed on
/// as it is, with the reason where a rewrite was refused.
pub proof fn law_failure_ends_by_cases(
    config: RouteConfig,
    exchange: ExchangeState,
    may_apply: bool,
    remembered: Option<Tier>,
    value: Option<JsonTree>,
) -> (set: JsonTree)
    ensures
        ({
            let end = failure_ending(config, exchange, may_apply, remembered, value);
            let open = config.on_failure == FailureMode::Open;
            &&& !open ==> end.verdict == FilterVerdict::Reject(503) && end.exchange == (
            ExchangeState { decision: Some("rejected"@), ..exchange })
            &&& open ==> end.verdict == FilterVerdict::Continue
            &&& open && (!may_apply || value is None) ==> end.exchange == (ExchangeState {
                decision: Some("unrouted"@),
                ..exchange
            })
            &&& open && may_apply && value is Some && !(value->0 is Object) ==> end.exchange == (
            ExchangeState {
                decision: Some("unrouted"@),
                fallback_cause: Some("request body "@ + "not an object"@),
                ..exchange
            })
            &&& open && may_apply && value is Some && value->0 is Object ==> is_served(
                end.exchange,
                exchange,
                config,
                value->0,
                set,
                if remembered is Some {
                    remembered->0
                } else {
                    Tier::Strong
                },
                if remembered is Some {
                    "reuse"@
                } else {
                    "default_strong"@
                },
            )
        }),
{
    let tier = if remembered is Some {
        remembered->0
    } else {
        Tier::Strong
    };
    if value is Some {
        law_served_in_full(
            exchange,
            config,
            value->0,
            tier,
            if remembered is Some {
                "reuse"@
            } else {
                "default_strong"@
            },
        )
    } else {
        JsonTree::Null
    }
}

/// A failed turn looks its session up exactly where a fallback may be applied to
/// a body that parses, in either mode, and otherwise leaves the store alone.
pub proof fn law_failed_turn_looks_the_session_up(
    config: RouteConfig,
    turn: TurnState,
    fields: Map<Seq<char>, Seq<u8>>,
    fault: RouteFault,
    now: u128,
)
    ensures
        failed_turn(config, turn, fields, fault, now).turn.store == if fault.may_apply()
            && parsed_body(turn.exchange.body) is Ok && request_key(
            fields,
            parsed_body(turn.exchange.body)->Ok_0,
            config.byte_order,
        ) is Some {
            turn.store.looked_up(
                request_key(
                    fields,
                    parsed_body(turn.exchange.body)->Ok_0,
                    config.byte_order,
                )->0,
                now,
            )
        } else {
            turn.store
        },
{
}

/// In closed mode only the failure and its decision are recorded.
pub proof fn law_closed_failure_in_full(
    config: RouteConfig,
    turn: TurnState,
    fields: Map<Seq<char>, Seq<u8>>,
    fault: RouteFault,
    now: u128,
)
    requires
        config.on_failure == FailureMode::Closed,
    ensures
        failed_turn(config, turn, fields, fault, now).turn.exchange == (ExchangeState {
            decision: Some("rejected"@),
            error: Some(
                if fault.message().len() <= 250 {
                    fault.message()
                } else {
                    fault.message().take(250)
                },
            ),
            cause: Some(fault.message()),
            ..turn.exchange
        }),
{
}

/// A turn with a known document and key waits for the judge, with the request as
/// it is, unless the floor is on and the session at Strong. It is then served
/// Strong, or refused as no object.
pub proof fn law_floor_decides_the_start(
    config: RouteConfig,
    turn: TurnState,
    value: JsonTree,
    key: Option<Seq<char>>,
    now: u128,
) -> (set: JsonTree)
    ensures
        ({
            let started = floor_start(config, turn, value, key, now);
            let enabled = config.session_floor == SessionFloor::Enabled;
            let strong = enabled && key is Some && turn.store.lookup(key->0, now) == Some(
                Tier::Strong,
            );
            &&& !strong ==> started.outcome == Ok::<StartShape, RouteFault>(
                StartShape::Undecided(PendingShape { value, key, now }),
            ) && started.turn.exchange == turn.exchange
            &&& strong && value is Object ==> started.outcome == Ok::<StartShape, RouteFault>(
                StartShape::FloorSkip(Tier::Strong),
            ) && is_served(
                started.turn.exchange,
                turn.exchange,
                config,
                value,
                set,
                Tier::Strong,
                "floor_skip"@,
            )
            &&& strong && !(value is Object) ==> started.outcome == Err::<StartShape, RouteFault>(
                RouteFault::Body("not an object"@),
            ) && started.turn.exchange == turn.exchange
            &&& started.turn.store == if enabled && key is Some {
                turn.store.looked_up(key->0, now)
            } else {
                turn.store
            }
        }),
{
    law_served_in_full(turn.exchange, config, value, Tier::Strong, "floor_skip"@)
}

/// A verdict is remembered for the session of its request as of the time at which
/// the turn began.
pub proof fn law_verdict_is_remembered_for_its_session(
    store: StoreState,
    pending: PendingShape,
    tier: Tier,
    floor: SessionFloor,
)
    ensures
        pending.key is None ==> after_verdict(store, pending, tier, floor) == store,
        pending.key matches Some(key) ==> after_verdict(store, pending, tier, floor)
            == store.remembered(key, tier, pending.now, floor),
{
}

/// A body that asks for a tier and parses asks for the model of that tier.
pub proof fn law_asking_body_has_the_tiers_model(
    bytes: Seq<u8>,
    config: RouteConfig,
    value: JsonTree,
    tier: Tier,
    again: JsonTree,
)
    requires
        value.is_plain(),
        asks_tier(Some(bytes), config, value, tier),
        parsed_json(bytes) == Ok::<JsonTree, Seq<char>>(again),
    ensures
        tier == Tier::Weak ==> again.field("model"@) == Some(JsonTree::Text(config.weak.model@)),
        tier == Tier::Strong ==> again.field("model"@) == Some(
            JsonTree::Text(config.strong.model@),
        ),
{
    law_each_tier_has_its_target(config);
    law_asking_bytes_read_as_the_document(
        bytes,
        value,
        config.spec_target(tier).model@,
        again,
        "model"@,
    );
}

} // verus!
