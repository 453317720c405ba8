use http::{HeaderMap, HeaderValue};
use switchyard_route::config::{
    parse, FailureMode, RawConfig, RawJudge, RouteConfig, SessionFloor, TargetConfig, Tier,
};
use switchyard_route::error::RouteError;
use switchyard_route::failure::DECISION_FLOOR_SKIP;
use switchyard_route::judge::{
    decide, fetch_judge_body, Attempt, CalloutStep, DecisionAction, DecisionEvent, JudgeCallout,
    JudgeResponse,
};
use switchyard_route::route::{
    judge_ready, on_request, on_request_body, resume, BodyStep, Exchange, FilterVerdict,
};
use switchyard_route::session::{ByteOrder, SESSION_ID_HEADER};
use switchyard_route::store::{SessionStore, SESSION_IDLE_TTL};

const CHAT: &str = "/v1/chat/completions";

struct Filter {
    config: RouteConfig,
    sessions: SessionStore,
}

struct Turn {
    verdict: FilterVerdict,
    exchange: Exchange,
    asked: bool,
}

fn config(on_failure: FailureMode, session_floor: SessionFloor) -> RouteConfig {
    let raw = RawConfig {
        judge: RawJudge {
            endpoint: "http://127.0.0.1:1/v1/chat/completions".to_owned(),
            model: "judge-model".to_owned(),
            timeout_ms: Some(4000),
            verify_tls: None,
            auth_value_env: None,
        },
        weak: TargetConfig { cluster: "weak-cluster".to_owned(), model: "weak-model".to_owned() },
        strong: TargetConfig {
            cluster: "strong-cluster".to_owned(),
            model: "strong-model".to_owned(),
        },
        threshold: Some(0.5_f64.to_bits()),
        on_failure: Some(on_failure),
        session_floor: Some(session_floor),
    };
    parse(raw, None, ByteOrder::Little).ok().expect("test config is valid")
}

fn filter(on_failure: FailureMode) -> Filter {
    filter_with_floor(on_failure, SessionFloor::Enabled)
}

fn filter_with_floor(on_failure: FailureMode, session_floor: SessionFloor) -> Filter {
    Filter { config: config(on_failure, session_floor), sessions: SessionStore::with_defaults() }
}

fn exchange(body: Option<&[u8]>) -> Exchange {
    Exchange {
        body: body.map(<[u8]>::to_vec),
        tier: None,
        cluster: None,
        decision: None,
        error: None,
        cause: None,
        fallback_cause: None,
    }
}

impl Filter {
    /// One turn whose judge, if it is asked, decides as given.
    fn turn(
        &mut self,
        headers: &HeaderMap,
        path: &str,
        body: Option<&[u8]>,
        now: u128,
        decided: Result<Tier, RouteError>,
    ) -> Turn {
        let mut exchange = exchange(body);
        let sessions = &mut self.sessions;
        match on_request_body(&self.config, sessions, &mut exchange, headers, path, true, now) {
            BodyStep::Finished(verdict) => Turn { verdict, exchange, asked: false },
            BodyStep::AskJudge(pending) => {
                let verdict = resume(
                    &self.config,
                    sessions,
                    &mut exchange,
                    headers,
                    pending,
                    decided,
                    now + 1,
                );
                Turn { verdict, exchange, asked: true }
            },
        }
    }
}

fn session(id: &str) -> HeaderMap {
    let mut headers = HeaderMap::new();
    headers.insert(SESSION_ID_HEADER, HeaderValue::from_str(id).expect("valid header value"));
    headers
}

fn chat_body(prompt: &str) -> Vec<u8> {
    format!(
        "{{\"messages\":[{{\"content\":{},\"role\":\"user\"}}],\"model\":\"client-model\"}}",
        serde_json::Value::from(prompt)
    )
    .into_bytes()
}

fn model(turn: &Turn) -> String {
    let body = turn.exchange.body.as_ref().expect("there is a body");
    let value: serde_json::Value = serde_json::from_slice(body).expect("the body is JSON");
    value["model"].as_str().expect("the model is a string").to_owned()
}

fn down() -> Result<Tier, RouteError> {
    Err(RouteError::Judge("down".to_owned()))
}

fn no_client() -> Result<Tier, RouteError> {
    Err(judge_ready(Ok(()), false).expect_err("there is no client"))
}

/// A judge that answers every attempt with one status.
fn judge_answering(status: u16, body: &str) -> Result<Tier, RouteError> {
    let mut callout = JudgeCallout::new(1);
    assert_eq!(callout.step(), CalloutStep::Try(0));
    let reply = JudgeResponse { status, body: body.as_bytes().to_vec() };
    let step = match fetch_judge_body("127.0.0.1:1", Ok(reply)) {
        Ok(_) => callout.record(Attempt::Answered(Ok(()))),
        Err(err) => callout.record(Attempt::Failed(err)),
    };
    let CalloutStep::Finished(served) = step else {
        panic!("one address makes one attempt");
    };
    match decide(DecisionEvent::JudgeServed(served)) {
        DecisionAction::Finish(outcome) => outcome,
        _ => Ok(Tier::Weak),
    }
}

#[test]
fn ignores_body_chunks_before_end_of_stream() {
    let mut filter = filter(FailureMode::Closed);
    let body = chat_body("hello");
    let mut exchange = exchange(Some(&body));
    let step = on_request_body(
        &filter.config,
        &mut filter.sessions,
        &mut exchange,
        &HeaderMap::new(),
        CHAT,
        false,
        0,
    );
    assert!(
        matches!(step, BodyStep::Finished(FilterVerdict::Continue)),
        "a partial chunk must pass through untouched"
    );
    assert!(
        exchange.cluster.is_none(),
        "no decision may be taken before the body is complete"
    );
    assert_eq!(exchange.body, Some(body));
}

#[test]
fn fails_open_when_routing_fails() {
    let mut filter = filter(FailureMode::Open);
    let turn =
        filter.turn(&HeaderMap::new(), CHAT, Some(&chat_body("hello")), 0, no_client());
    assert_eq!(
        turn.verdict,
        FilterVerdict::Continue,
        "on_failure: open must let the request through"
    );
    assert_eq!(
        turn.exchange.error.as_deref(),
        Some("subrequest client unavailable"),
        "the failure reason must be recorded for access logs"
    );
}

#[test]
fn fails_closed_when_routing_fails() {
    let mut filter = filter(FailureMode::Closed);
    let turn =
        filter.turn(&HeaderMap::new(), CHAT, Some(&chat_body("hello")), 0, no_client());
    assert_eq!(
        turn.verdict,
        FilterVerdict::Reject(503),
        "a failed routing decision must surface as 503 Service Unavailable"
    );
}

#[test]
fn rejects_non_chat_completion_paths() {
    let mut filter = filter(FailureMode::Closed);
    let turn = filter.turn(
        &HeaderMap::new(),
        "/v1/embeddings",
        Some(&chat_body("hello")),
        0,
        no_client(),
    );
    assert!(
        matches!(turn.verdict, FilterVerdict::Reject(_)),
        "only /chat/completions can be routed"
    );
    assert_eq!(
        turn.exchange.error.as_deref(),
        Some("unsupported path (only /chat/completions)"),
        "the recorded reason must name the path problem"
    );
}

#[test]
fn on_request_promotes_the_stashed_cluster() {
    assert_eq!(
        on_request(Some("strong-cluster"), None).as_deref(),
        Some("strong-cluster"),
        "the body-phase decision must select the cluster"
    );
    assert_eq!(
        on_request(Some("strong-cluster"), Some("router".to_owned())).as_deref(),
        Some("strong-cluster")
    );
}

#[test]
fn on_request_leaves_the_cluster_alone_without_a_decision() {
    assert!(
        on_request(None, None).is_none(),
        "without a decision the router's own cluster choice must stand"
    );
    assert_eq!(on_request(None, Some("router".to_owned())).as_deref(), Some("router"));
}

#[test]
fn routes_to_the_weak_tier_when_the_judge_reports_supported() {
    let mut filter = filter(FailureMode::Closed);
    let turn = filter.turn(
        &HeaderMap::new(),
        CHAT,
        Some(&chat_body("what is 2 + 2?")),
        0,
        Ok(Tier::Weak),
    );
    assert_eq!(
        turn.verdict,
        FilterVerdict::Continue,
        "a successful decision lets the request continue"
    );
    assert_eq!(
        turn.exchange.cluster.as_deref(),
        Some("weak-cluster"),
        "a supported prompt must route to the weak tier"
    );
    assert_eq!(
        turn.exchange.decision,
        Some("routed"),
        "a live judge verdict must be recorded as a real route, not a fallback"
    );
    assert_eq!(
        model(&turn),
        "weak-model",
        "the upstream must be asked for the weak tier's model"
    );
    assert_eq!(turn.exchange.error, None);
    assert_eq!(turn.exchange.tier, Some(Tier::Weak));
}

#[test]
fn routes_to_the_strong_tier_when_the_judge_reports_unsupported() {
    let mut filter = filter(FailureMode::Closed);
    let turn = filter.turn(
        &HeaderMap::new(),
        CHAT,
        Some(&chat_body("reverse-engineer this undocumented format")),
        0,
        Ok(Tier::Strong),
    );
    assert_eq!(
        turn.exchange.cluster.as_deref(),
        Some("strong-cluster"),
        "an unsupported prompt must route to the strong tier"
    );
    assert_eq!(
        model(&turn),
        "strong-model",
        "the upstream must be asked for the strong tier's model"
    );
}

#[test]
fn judge_http_errors_are_reported_as_callout_failures() {
    let mut filter = filter(FailureMode::Open);
    let decided = judge_answering(500, "upstream exploded");
    let turn = filter.turn(&HeaderMap::new(), CHAT, Some(&chat_body("hello")), 0, decided);
    assert_eq!(
        turn.verdict,
        FilterVerdict::Continue,
        "on_failure: open must let the request through"
    );
    let recorded = turn.exchange.error.as_deref().expect("the failure reason is recorded");
    assert!(
        recorded.contains("HTTP 500"),
        "the recorded reason must name the judge status, got {recorded}"
    );
    assert_eq!(
        turn.exchange.decision,
        Some("default_strong"),
        "with nothing remembered, a judge outage must fall back to the strong tier"
    );
    assert_eq!(
        turn.exchange.cluster.as_deref(),
        Some("strong-cluster"),
        "the fallback must select the strong cluster"
    );
    assert_eq!(
        model(&turn),
        "strong-model",
        "the fallback must rewrite the model, not just the cluster"
    );
}

#[test]
fn unreachable_judges_are_reported_as_callout_failures() {
    let mut callout = JudgeCallout::new(1);
    let refused = fetch_judge_body("127.0.0.1:9", Err("connection refused".to_owned()));
    let CalloutStep::Finished(Err(err)) =
        callout.record(Attempt::Failed(refused.expect_err("the attempt failed")))
    else {
        panic!("the only address failed");
    };
    let mut filter = filter(FailureMode::Open);
    let turn = filter.turn(&HeaderMap::new(), CHAT, Some(&chat_body("hello")), 0, Err(err));
    assert_eq!(
        turn.exchange.error.as_deref(),
        Some("judge callout failed: 127.0.0.1:9: connection refused"),
        "a refused connection must surface as a judge callout failure"
    );
}

#[test]
fn reuses_the_remembered_tier_when_the_judge_goes_down() {
    let mut filter = filter(FailureMode::Open);
    let headers = session("session-alpha");
    let first =
        filter.turn(&headers, CHAT, Some(&chat_body("what is 2 + 2?")), 0, Ok(Tier::Weak));
    assert_eq!(
        first.exchange.decision,
        Some("routed"),
        "the first turn must be a live judge decision"
    );
    assert_eq!(
        first.exchange.cluster.as_deref(),
        Some("weak-cluster"),
        "the first turn must route weak so there is a weak verdict to reuse"
    );

    let second = filter.turn(&headers, CHAT, Some(&chat_body("what is 3 + 3?")), 10, down());
    assert_eq!(
        second.verdict,
        FilterVerdict::Continue,
        "a reused tier must let the request through"
    );
    assert_eq!(
        second.exchange.decision,
        Some("reuse"),
        "a judge outage on a known session must reuse the last success, not default to strong"
    );
    assert_eq!(
        second.exchange.cluster.as_deref(),
        Some("weak-cluster"),
        "the reused tier must select the same cluster the judge chose"
    );
    assert_eq!(
        model(&second),
        "weak-model",
        "reuse must rewrite the model to the remembered tier's target"
    );
}

#[test]
fn does_not_reuse_across_different_sessions() {
    let mut filter = filter(FailureMode::Open);
    let known = session("session-alpha");
    filter.turn(&known, CHAT, Some(&chat_body("what is 2 + 2?")), 0, Ok(Tier::Weak));
    let stranger = session("session-beta");
    let second =
        filter.turn(&stranger, CHAT, Some(&chat_body("something else entirely")), 10, down());
    assert_eq!(
        second.exchange.decision,
        Some("default_strong"),
        "one session's remembered tier must not leak into another"
    );
}

#[test]
fn unroutable_failures_pass_through_untouched() {
    let mut filter = filter(FailureMode::Open);
    let original = chat_body("hello");
    let turn =
        filter.turn(&HeaderMap::new(), "/v1/embeddings", Some(&original), 0, no_client());
    assert_eq!(
        turn.verdict,
        FilterVerdict::Continue,
        "on_failure: open must let an unroutable request through"
    );
    assert_eq!(
        turn.exchange.decision,
        Some("unrouted"),
        "a request that cannot be rewritten must be recorded as unrouted"
    );
    assert!(
        turn.exchange.cluster.is_none(),
        "an unrouted request must not select a Switchyard cluster"
    );
    assert_eq!(
        turn.exchange.body,
        Some(original),
        "an unrouted request must reach the upstream byte-for-byte unchanged"
    );
}

#[test]
fn fallback_rewrite_failure_passes_through_when_open() {
    let mut filter = filter(FailureMode::Open);
    let refused = judge_ready(Err("not an object".to_owned()), false);
    let turn = filter.turn(
        &HeaderMap::new(),
        CHAT,
        Some(b"[1, 2, 3]"),
        0,
        Err(refused.expect_err("the body does not decode")),
    );
    assert_eq!(
        turn.verdict,
        FilterVerdict::Continue,
        "a failed fallback rewrite must still fail open"
    );
    assert_eq!(
        turn.exchange.decision,
        Some("unrouted"),
        "a body the fallback cannot rewrite must end up unrouted, not pinned to a tier"
    );
    assert_eq!(
        turn.exchange.body,
        Some(b"[1, 2, 3]".to_vec()),
        "a failed rewrite must leave the body alone"
    );
    assert_eq!(turn.exchange.cause.as_deref(), Some("translation failed: not an object"));
    assert_eq!(turn.exchange.fallback_cause.as_deref(), Some("request body not an object"));
}

#[test]
fn rewritable_failures_reject_when_closed() {
    let mut filter = filter(FailureMode::Closed);
    let turn =
        filter.turn(&HeaderMap::new(), CHAT, Some(&chat_body("hello")), 0, no_client());
    assert_eq!(
        turn.verdict,
        FilterVerdict::Reject(503),
        "a rejected request must surface as 503"
    );
    assert_eq!(
        turn.exchange.decision,
        Some("rejected"),
        "a rejection must be recorded as such"
    );
}

#[test]
fn floor_skip_when_session_already_at_strong() {
    let mut filter = filter(FailureMode::Open);
    let headers = session("session-floor-test");
    let first =
        filter.turn(&headers, CHAT, Some(&chat_body("complex question")), 0, Ok(Tier::Strong));
    assert_eq!(
        first.exchange.decision,
        Some("routed"),
        "first turn must be a live judge decision"
    );
    assert_eq!(
        first.exchange.cluster.as_deref(),
        Some("strong-cluster"),
        "first turn must route to strong"
    );

    let second = filter.turn(&headers, CHAT, Some(&chat_body("simple follow-up")), 10, down());
    assert!(!second.asked, "the judge must not be asked");
    assert_eq!(
        second.verdict,
        FilterVerdict::Continue,
        "floor_skip must let the request through"
    );
    assert_eq!(
        second.exchange.decision,
        Some("floor_skip"),
        "second turn must skip the judge due to floor"
    );
    assert_eq!(
        second.exchange.cluster.as_deref(),
        Some("strong-cluster"),
        "floor_skip must route to the floor tier (Strong)"
    );
    assert_eq!(
        model(&second),
        "strong-model",
        "floor_skip must rewrite the model to the floor tier's target"
    );
    assert_eq!(second.exchange.error, None);
}

#[test]
fn floor_skip_rewrite_failure_follows_on_failure() {
    let unrewritable: &[u8] = b"[1, 2, 3]";

    let mut open = filter(FailureMode::Open);
    let headers = session("session-floor-rewrite-open");
    let seed =
        open.turn(&headers, CHAT, Some(&chat_body("complex question")), 0, Ok(Tier::Strong));
    assert_eq!(
        seed.exchange.cluster.as_deref(),
        Some("strong-cluster"),
        "seed turn must store a Strong floor"
    );
    let turn = open.turn(&headers, CHAT, Some(unrewritable), 10, down());
    assert_eq!(
        turn.verdict,
        FilterVerdict::Continue,
        "on_failure: open must continue after a failed floor-skip rewrite"
    );
    assert_eq!(
        turn.exchange.decision,
        Some("unrouted"),
        "a failed floor-skip rewrite must fail open unrouted, not reuse Strong"
    );
    assert!(
        turn.exchange.cluster.is_none(),
        "an unrouted floor-skip rewrite must not select a cluster"
    );
    assert_eq!(
        turn.exchange.body,
        Some(unrewritable.to_vec()),
        "a failed rewrite must leave the body alone"
    );
    assert_eq!(turn.exchange.error.as_deref(), Some("request body not an object"));

    let mut closed = filter(FailureMode::Closed);
    let headers = session("session-floor-rewrite-closed");
    closed.turn(&headers, CHAT, Some(&chat_body("complex question")), 0, Ok(Tier::Strong));
    let turn = closed.turn(&headers, CHAT, Some(unrewritable), 10, down());
    assert_eq!(
        turn.verdict,
        FilterVerdict::Reject(503),
        "on_failure: closed must reject when floor-skip rewrite fails"
    );
    assert_eq!(
        turn.exchange.decision,
        Some("rejected"),
        "a rejection must be recorded as such"
    );
}

#[test]
fn floor_disabled_calls_judge_every_turn() {
    let mut filter = filter_with_floor(FailureMode::Open, SessionFloor::Disabled);
    let headers = session("session-no-floor");
    let first =
        filter.turn(&headers, CHAT, Some(&chat_body("complex question")), 0, Ok(Tier::Strong));
    assert_eq!(
        first.exchange.cluster.as_deref(),
        Some("strong-cluster"),
        "first turn routes to strong"
    );
    let second =
        filter.turn(&headers, CHAT, Some(&chat_body("simple question")), 10, Ok(Tier::Weak));
    assert!(second.asked);
    assert_eq!(
        second.exchange.decision,
        Some("routed"),
        "with floor disabled, judge is called every turn"
    );
    assert_eq!(
        second.exchange.cluster.as_deref(),
        Some("weak-cluster"),
        "with floor disabled, tier can downgrade to Weak"
    );
}

#[test]
fn floor_disabled_reuse_follows_last_verdict() {
    let mut filter = filter_with_floor(FailureMode::Open, SessionFloor::Disabled);
    let headers = session("session-disabled-reuse");
    filter.turn(&headers, CHAT, Some(&chat_body("complex question")), 0, Ok(Tier::Strong));
    filter.turn(&headers, CHAT, Some(&chat_body("simple question")), 10, Ok(Tier::Weak));
    let third = filter.turn(&headers, CHAT, Some(&chat_body("follow-up")), 20, down());
    assert_eq!(
        third.exchange.decision,
        Some("reuse"),
        "judge failure must reuse the stored tier"
    );
    assert_eq!(
        third.exchange.cluster.as_deref(),
        Some("weak-cluster"),
        "disabled floor must reuse Weak after a Weak live success"
    );
}

#[test]
fn floor_does_not_skip_judge_when_at_weak() {
    let mut filter = filter(FailureMode::Open);
    let headers = session("session-weak-then-strong");
    let first =
        filter.turn(&headers, CHAT, Some(&chat_body("simple question")), 0, Ok(Tier::Weak));
    assert_eq!(
        first.exchange.cluster.as_deref(),
        Some("weak-cluster"),
        "first turn routes to weak"
    );
    let second =
        filter.turn(&headers, CHAT, Some(&chat_body("complex question")), 10, Ok(Tier::Strong));
    assert!(second.asked);
    assert_eq!(
        second.exchange.decision,
        Some("routed"),
        "floor at Weak must still call the judge"
    );
    assert_eq!(
        second.exchange.cluster.as_deref(),
        Some("strong-cluster"),
        "session must escalate from Weak to Strong"
    );
}

#[test]
fn the_floor_lasts_for_the_idle_time_and_a_skip_renews_it() {
    let mut filter = filter(FailureMode::Open);
    let headers = session("idle");
    let body = chat_body("q");
    filter.turn(&headers, CHAT, Some(&body), 0, Ok(Tier::Strong));
    let skipped = filter.turn(&headers, CHAT, Some(&body), SESSION_IDLE_TTL, down());
    assert_eq!(skipped.exchange.decision, Some(DECISION_FLOOR_SKIP));
    let renewed = filter.turn(&headers, CHAT, Some(&body), 2 * SESSION_IDLE_TTL, down());
    assert_eq!(renewed.exchange.decision, Some(DECISION_FLOOR_SKIP));
    let expired = filter.turn(&headers, CHAT, Some(&body), 3 * SESSION_IDLE_TTL + 1, down());
    assert!(expired.asked);
    assert_eq!(expired.exchange.decision, Some("default_strong"));
}

#[test]
fn an_expired_floor_does_not_lift_a_verdict() {
    let mut filter = filter(FailureMode::Open);
    let headers = session("late");
    let body = chat_body("q");
    filter.turn(&session("other"), CHAT, Some(&body), SESSION_IDLE_TTL, Ok(Tier::Weak));
    filter.turn(&headers, CHAT, Some(&body), 0, Ok(Tier::Strong));
    let late = 2 * SESSION_IDLE_TTL;
    filter.turn(&headers, CHAT, Some(&body), late, Ok(Tier::Weak));
    let next = filter.turn(&headers, CHAT, Some(&body), late + 10, down());
    assert_eq!(next.exchange.decision, Some("reuse"));
    assert_eq!(next.exchange.cluster.as_deref(), Some("weak-cluster"));
}

#[test]
fn default_strong_is_not_stored() {
    let mut filter = filter(FailureMode::Open);
    let headers = session("fresh");
    let body = chat_body("q");
    let first = filter.turn(&headers, CHAT, Some(&body), 0, down());
    assert_eq!(first.exchange.decision, Some("default_strong"));
    let second = filter.turn(&headers, CHAT, Some(&body), 10, down());
    assert!(second.asked, "a default Strong is no floor");
    assert_eq!(second.exchange.decision, Some("default_strong"));
    assert_eq!(filter.sessions.len(), 0);
}

#[test]
fn closed_failures_leave_the_request_alone() {
    let mut filter = filter(FailureMode::Closed);
    let headers = session("closed");
    let body = chat_body("q");
    filter.turn(&headers, CHAT, Some(&body), 0, Ok(Tier::Weak));
    let turn = filter.turn(&headers, CHAT, Some(&body), 10, down());
    assert_eq!(turn.verdict, FilterVerdict::Reject(503));
    assert_eq!(turn.exchange.body, Some(body));
    assert_eq!(turn.exchange.cluster, None);
}

#[test]
fn bad_bodies_are_not_rewritten() {
    for (body, reason) in [
        (None, "request body missing"),
        (Some(&b""[..]), "request body empty"),
        (Some(&b"nope"[..]), "invalid JSON: expected ident at line 1 column 2"),
    ] {
        let mut filter = filter(FailureMode::Open);
        let turn = filter.turn(&HeaderMap::new(), CHAT, body, 0, Ok(Tier::Weak));
        assert!(!turn.asked);
        assert_eq!(turn.exchange.decision, Some("unrouted"));
        assert_eq!(turn.exchange.error.as_deref(), Some(reason));
        assert_eq!(turn.exchange.body.as_deref(), body);
    }
}

#[test]
fn any_prefix_of_the_chat_path_is_routed() {
    for (path, asked) in [
        ("/chat/completions", true),
        ("/openai/v1/chat/completions", true),
        ("/chat/completions/", false),
        ("chat/completions", false),
        ("", false),
    ] {
        let mut filter = filter(FailureMode::Open);
        let turn = filter.turn(&HeaderMap::new(), path, Some(b"{}"), 0, Ok(Tier::Weak));
        assert_eq!(turn.asked, asked, "path {path:?}");
    }
}

#[test]
fn a_body_without_a_session_is_routed_and_not_stored() {
    let mut filter = filter(FailureMode::Open);
    let turn = filter.turn(&HeaderMap::new(), CHAT, Some(b"{}"), 0, Ok(Tier::Strong));
    assert_eq!(turn.exchange.decision, Some("routed"));
    assert_eq!(turn.exchange.body, Some(b"{\"model\":\"strong-model\"}".to_vec()));
    assert_eq!(filter.sessions.len(), 0);
}

#[test]
fn a_routed_body_that_is_no_object_fails_and_is_not_stored() {
    let mut filter = filter(FailureMode::Open);
    let turn = filter.turn(&session("s"), CHAT, Some(b"[1]"), 0, Ok(Tier::Strong));
    assert!(turn.asked);
    assert_eq!(turn.exchange.decision, Some("unrouted"));
    assert_eq!(turn.exchange.error.as_deref(), Some("request body not an object"));
    assert_eq!(filter.sessions.len(), 0);
}

#[test]
fn recorded_errors_are_cut() {
    let mut filter = filter(FailureMode::Open);
    let turn = filter.turn(
        &HeaderMap::new(),
        CHAT,
        Some(&chat_body("q")),
        0,
        Err(RouteError::Run("\u{e9}".repeat(400))),
    );
    let error = turn.exchange.error.expect("an error is recorded");
    assert_eq!(error.chars().count(), 250);
    assert!(error.starts_with("switchyard run failed: \u{e9}"));
    let cause = turn.exchange.cause.expect("the full reason is kept");
    assert_eq!(cause, format!("switchyard run failed: {}", "\u{e9}".repeat(400)));
    assert_eq!(turn.exchange.fallback_cause, None);
}

#[test]
fn decoding_errors_come_before_a_missing_client() {
    assert_eq!(judge_ready(Ok(()), true), Ok(()));
    assert_eq!(judge_ready(Ok(()), false), Err(RouteError::MissingSubrequestClient));
    for client in [true, false] {
        assert_eq!(
            judge_ready(Err("bad".to_owned()), client),
            Err(RouteError::Translation("bad".to_owned()))
        );
    }
}
