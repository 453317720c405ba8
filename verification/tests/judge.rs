use switchyard_route::config::{JudgeConfig, Tier};
use switchyard_route::error::RouteError;
use switchyard_route::failure::{
    log_failure_apply, FailureApply, FailureApplyKind,
};
use switchyard_route::json::{Field, Json};
use switchyard_route::judge::{
    accept_judge_json, body_preview, decide, decode_judge_aggregated, encode_judge_request,
    fetch_judge_body, judge_request_plan, log_judge_verdict, resolve_judge_addrs, respond_judge,
    translation_failure, Attempt, CalloutStep, DecisionAction, DecisionEvent, JudgeAttemptError,
    JudgeCallout, JudgeResponse,
};

fn quoted(text: &str) -> String {
    serde_json::Value::from(text).to_string()
}

fn verdict(p_solve: f64, rule: &str, boundary: &str) -> String {
    format!(
        "{{\"crux\":\"test prompt\",\"primary_rule\":{},\"capability_boundary\":{},\"p_solve\":{p_solve:?}}}",
        quoted(rule),
        quoted(boundary)
    )
}

fn judge_body(content: &str) -> String {
    format!(
        "{{\"id\":\"chat-test\",\"object\":\"chat.completion\",\"model\":\"judge-model\",\"choices\":[{{\"index\":0,\"message\":{{\"role\":\"assistant\",\"content\":{}}},\"finish_reason\":\"stop\"}}]}}",
        quoted(content)
    )
}

#[test]
fn route_errors_render_their_cause() {
    let cases = [
        (RouteError::Body("missing"), "request body missing"),
        (RouteError::Json("expected value".to_owned()), "invalid JSON: expected value"),
        (RouteError::UnsupportedPath, "unsupported path (only /chat/completions)"),
        (RouteError::Translation("no messages".to_owned()), "translation failed: no messages"),
        (RouteError::Serialize("io".to_owned()), "serialize failed: io"),
        (RouteError::MissingSubrequestClient, "subrequest client unavailable"),
        (RouteError::Judge("timeout".to_owned()), "judge callout failed: timeout"),
        (RouteError::Run("stream".to_owned()), "switchyard run failed: stream"),
        (RouteError::NoDecision, "no routing decision"),
        (RouteError::UnknownTier("medium".to_owned()), "unknown tier 'medium'"),
    ];
    for (err, expected) in cases {
        assert_eq!(err.message(), expected, "RouteError must render its cause");
    }
}

#[test]
fn judge_failures_may_apply_a_fallback_tier() {
    assert!(
        RouteError::Judge("down".into()).may_apply_failure_tier(),
        "judge HTTP errors are the mid-session failure path"
    );
    assert!(
        RouteError::NoDecision.may_apply_failure_tier(),
        "a missing verdict is still a judge-path failure"
    );
    assert!(
        RouteError::MissingSubrequestClient.may_apply_failure_tier(),
        "no callout client is treated like an unreachable judge"
    );
}

#[test]
fn bad_bodies_and_wrong_paths_stay_unrouted() {
    assert!(
        !RouteError::UnsupportedPath.may_apply_failure_tier(),
        "non-chat paths must not be rewritten to Strong"
    );
    assert!(
        !RouteError::Json("nope".into()).may_apply_failure_tier(),
        "invalid JSON cannot be rewritten"
    );
    assert!(
        !RouteError::Body("empty").may_apply_failure_tier(),
        "missing bodies cannot be rewritten"
    );
}

#[test]
fn the_other_failures_are_sorted_too() {
    assert!(!RouteError::Serialize(String::new()).may_apply_failure_tier());
    assert!(RouteError::Translation(String::new()).may_apply_failure_tier());
    assert!(RouteError::Run(String::new()).may_apply_failure_tier());
    assert!(RouteError::UnknownTier(String::new()).may_apply_failure_tier());
}

#[test]
fn fallback_log_lines_name_the_kind_and_the_tier() {
    let reuse = FailureApply { tier: Tier::Weak, kind: FailureApplyKind::Reuse };
    assert_eq!(log_failure_apply(reuse), ("switchyard_route: reuse", "weak"));
    let fallback = FailureApply { tier: Tier::Strong, kind: FailureApplyKind::DefaultStrong };
    assert_eq!(log_failure_apply(fallback), ("switchyard_route: default_strong", "strong"));
}

#[test]
fn resolves_loopback_judge_addresses() {
    let addrs = resolve_judge_addrs("127.0.0.1", Ok(vec!["127.0.0.1:8000".to_owned()]));
    assert_eq!(
        addrs,
        Ok(vec!["127.0.0.1:8000".to_owned()]),
        "a literal address resolves to itself"
    );
}

#[test]
fn reports_dns_failures() {
    let err = resolve_judge_addrs("judge.invalid.", Err("no such host".to_owned()))
        .expect_err("the reserved .invalid TLD never resolves");
    assert!(
        err.message().contains("DNS resolution failed for judge.invalid."),
        "the error must name the host, got {}",
        err.message()
    );
    assert_eq!(
        err,
        RouteError::Judge("DNS resolution failed for judge.invalid.: no such host".to_owned())
    );
}

#[test]
fn an_empty_lookup_is_a_failure() {
    assert_eq!(
        resolve_judge_addrs("judge", Ok(Vec::new())),
        Err(RouteError::Judge("no addresses resolved for judge".to_owned()))
    );
}

#[test]
fn previews_truncate_long_bodies() {
    let body = "x".repeat(500).into_bytes();
    let preview = body_preview(&body);
    assert_eq!(preview.chars().count(), 200, "previews are capped at 200 characters");
}

#[test]
fn previews_survive_invalid_utf8() {
    let preview = body_preview(&[0xFF, 0xFE, b'o', b'k']);
    assert!(
        preview.ends_with("ok"),
        "lossy decoding must keep the readable tail, got {preview}"
    );
    assert_eq!(preview, "\u{fffd}\u{fffd}ok");
}

#[test]
fn previews_count_characters_and_not_bytes() {
    let body = "\u{e9}".repeat(201).into_bytes();
    assert_eq!(body_preview(&body), "\u{e9}".repeat(200));
    assert_eq!(body_preview(b""), "");
}

fn reply(status: u16, body: &[u8]) -> Result<JudgeResponse, String> {
    Ok(JudgeResponse { status, body: body.to_vec() })
}

#[test]
fn only_success_statuses_yield_a_body() {
    for status in [200, 204, 299] {
        assert_eq!(fetch_judge_body("a:1", reply(status, b"{}")), Ok(b"{}".to_vec()));
    }
    for status in [100, 199, 300, 404, 503] {
        assert_eq!(
            fetch_judge_body("a:1", reply(status, b"no \"luck\"")),
            Err(JudgeAttemptError::Retryable(format!(
                "HTTP {status} from a:1 body_len=9 preview=\"no \\\"luck\\\"\""
            )))
        );
    }
    assert_eq!(
        fetch_judge_body("a:1", Err("timed out".to_owned())),
        Err(JudgeAttemptError::Retryable("a:1: timed out".to_owned()))
    );
}

#[test]
fn decodes_an_aggregated_judge_response() {
    let body = judge_body(&verdict(0.95, "SUP-1", "supported")).into_bytes();
    assert!(
        decode_judge_aggregated("127.0.0.1:8000", &body).is_ok(),
        "a well-formed chat completion must decode"
    );
}

#[test]
fn retries_when_the_judge_returns_non_json() {
    match decode_judge_aggregated("127.0.0.1:8000", b"<html>gateway error</html>") {
        Err(JudgeAttemptError::Retryable(message)) => {
            assert!(
                message.contains("judge_non_json from 127.0.0.1:8000"),
                "the message must name the address, got {message}"
            );
            assert!(
                message.contains("<html>"),
                "the message must preview the body, got {message}"
            );
        },
        Err(JudgeAttemptError::Fatal(err)) => {
            panic!("a non-JSON body is retryable, got fatal {}", err.message())
        },
        Ok(_) => panic!("HTML is not a judge response"),
    }
}

#[test]
fn fails_fatally_when_translation_rejects_the_judge_response() {
    assert!(
        decode_judge_aggregated("127.0.0.1:8000", b"[1, 2, 3]").is_ok(),
        "valid JSON goes on to the translator"
    );
    match translation_failure("not a completion") {
        JudgeAttemptError::Fatal(err) => assert!(
            err.message().contains("response translation failed"),
            "the error must name the translation step, got {}",
            err.message()
        ),
        JudgeAttemptError::Retryable(message) => {
            panic!("valid JSON that is not a completion is fatal, got retryable {message}")
        },
    }
}

#[test]
fn a_non_json_message_holds_cause_length_and_preview() {
    assert_eq!(
        accept_judge_json("h:2", b"oops", Err("cause".to_owned())),
        Err(JudgeAttemptError::Retryable(
            "judge_non_json from h:2: cause; body_len=4 preview=\"oops\"".to_owned()
        ))
    );
}

#[test]
fn delivery_and_encoding_failures_are_judge_failures() {
    assert_eq!(respond_judge(Ok(())), Ok(()));
    assert_eq!(
        respond_judge(Err("gone".to_owned())),
        Err(RouteError::Judge("failed to deliver judge response: gone".to_owned()))
    );
    let document = Json::Object(vec![
        Field { name: "stream".to_owned(), value: Json::Bool(false) },
        Field { name: "model".to_owned(), value: Json::Text("judge".to_owned()) },
    ]);
    assert_eq!(
        encode_judge_request(Ok(document)),
        Ok(b"{\"model\":\"judge\",\"stream\":false}".to_vec())
    );
    assert_eq!(
        encode_judge_request(Err("a".to_owned())),
        Err(RouteError::Judge("request encoding failed: a".to_owned()))
    );
}

#[test]
fn the_judge_is_asked_for_its_own_model_in_one_piece() {
    let config = JudgeConfig {
        endpoint: "http://judge/v1".to_owned(),
        model: "judge-model".to_owned(),
        timeout_ms: 1,
        verify_tls: true,
        auth_token: None,
    };
    let plan = judge_request_plan(&config);
    assert_eq!(plan.model, "judge-model");
    assert!(!plan.stream);
}

fn retryable(message: &str) -> Attempt {
    Attempt::Failed(JudgeAttemptError::Retryable(message.to_owned()))
}

#[test]
fn a_callout_falls_back_address_by_address() {
    let mut callout = JudgeCallout::new(3);
    assert_eq!(callout.step(), CalloutStep::Try(0));
    assert_eq!(callout.record(retryable("first")), CalloutStep::Try(1));
    assert_eq!(callout.record(retryable("second")), CalloutStep::Try(2));
    assert_eq!(
        callout.record(retryable("third")),
        CalloutStep::Finished(Err(RouteError::Judge("third".to_owned()))),
        "the last failure is reported"
    );
    assert_eq!(
        callout.record(retryable("late")),
        CalloutStep::Finished(Err(RouteError::Judge("late".to_owned())))
    );
}

#[test]
fn a_callout_ends_with_the_first_answer_or_fatal_failure() {
    let mut callout = JudgeCallout::new(3);
    assert_eq!(callout.record(retryable("first")), CalloutStep::Try(1));
    assert_eq!(callout.record(Attempt::Answered(Ok(()))), CalloutStep::Finished(Ok(())));

    let mut callout = JudgeCallout::new(3);
    let fatal = Attempt::Failed(JudgeAttemptError::Fatal(RouteError::NoDecision));
    assert_eq!(callout.record(fatal), CalloutStep::Finished(Err(RouteError::NoDecision)));
}

#[test]
fn a_callout_without_addresses_makes_no_attempt() {
    assert_eq!(
        JudgeCallout::new(0).step(),
        CalloutStep::Finished(Err(RouteError::Judge("no address attempted".to_owned())))
    );
}

#[test]
fn routed_decisions_name_the_tier() {
    for (tag, tier) in [("weak", Tier::Weak), ("strong", Tier::Strong)] {
        assert_eq!(
            decide(DecisionEvent::Decision { routed: true, tag: tag.to_owned() }),
            DecisionAction::Finish(Ok(tier))
        );
        assert_eq!(
            decide(DecisionEvent::CallLlm { routed: true, tag: tag.to_owned() }),
            DecisionAction::Finish(Ok(tier))
        );
    }
    assert_eq!(
        decide(DecisionEvent::Decision { routed: true, tag: "medium".to_owned() }),
        DecisionAction::Finish(Err(RouteError::UnknownTier("medium".to_owned())))
    );
}

#[test]
fn unrouted_steps_keep_the_run_going() {
    assert_eq!(
        decide(DecisionEvent::Decision { routed: false, tag: "weak".to_owned() }),
        DecisionAction::Poll
    );
    assert_eq!(
        decide(DecisionEvent::CallLlm { routed: false, tag: "judge".to_owned() }),
        DecisionAction::ServeJudge
    );
    assert_eq!(decide(DecisionEvent::JudgeServed(Ok(()))), DecisionAction::Poll);
}

#[test]
fn a_run_without_a_decision_fails() {
    assert_eq!(
        decide(DecisionEvent::ReturnToAgent),
        DecisionAction::Finish(Err(RouteError::NoDecision))
    );
    assert_eq!(decide(DecisionEvent::Ended), DecisionAction::Finish(Err(RouteError::NoDecision)));
    assert_eq!(
        decide(DecisionEvent::Failed("boom".to_owned())),
        DecisionAction::Finish(Err(RouteError::Run("boom".to_owned())))
    );
    assert_eq!(
        decide(DecisionEvent::JudgeServed(Err(RouteError::Judge("down".to_owned())))),
        DecisionAction::Finish(Err(RouteError::Judge("down".to_owned())))
    );
}

#[test]
fn logging_a_verdict_tolerates_malformed_payloads() {
    // Each of these hits a different early return; none may panic.
    log_judge_verdict(b"not json");
    log_judge_verdict(b"{\"choices\": []}");
    log_judge_verdict(&serde_json::to_vec(&judge_body("not json")).expect("serializes"));
    log_judge_verdict(judge_body(&verdict(0.95, "SUP-1", "supported")).as_bytes());
    log_judge_verdict(judge_body("{}").as_bytes());
}

#[test]
fn a_logged_verdict_shows_its_fields() {
    let body = judge_body(&verdict(0.95, "SUP-1", "supported"));
    let summary = log_judge_verdict(body.as_bytes()).expect("there is a verdict");
    assert_eq!(summary.p_solve.and_then(|number| number.as_f64()), Some(0.95));
    assert_eq!(summary.rule, "SUP-1");
    assert_eq!(summary.boundary, "supported");

    let summary = log_judge_verdict(judge_body("{}").as_bytes()).expect("an empty verdict");
    assert_eq!(summary.p_solve, None);
    assert_eq!(summary.rule, "?");
    assert_eq!(summary.boundary, "?");

    assert_eq!(log_judge_verdict(b"not json"), None);
    assert_eq!(log_judge_verdict(b"{\"choices\": []}"), None);
    assert_eq!(log_judge_verdict(b"{\"choices\": 3}"), None);
    assert_eq!(log_judge_verdict(b"{\"choices\": [{\"message\": {\"content\": 1}}]}"), None);
    assert_eq!(log_judge_verdict(judge_body("not json").as_bytes()), None);
}

#[test]
fn a_choice_may_be_a_member_called_zero() {
    let body = b"{\"choices\":{\"0\":{\"message\":{\"content\":\"{\\\"p_solve\\\":1}\"}}}}";
    let summary = log_judge_verdict(body).expect("there is a verdict");
    assert_eq!(summary.p_solve, Some(serde_json::Number::from(1)));
}
