use switchyard_route::body::{parse_body, rewrite_for_tier, rewrite_model, set_model};
use switchyard_route::config::{parse, RawConfig, RawJudge, TargetConfig, Tier};
use switchyard_route::error::RouteError;
use switchyard_route::json::{Field, Json};
use switchyard_route::session::ByteOrder;

fn chat_body(prompt: &str) -> Vec<u8> {
    format!(
        "{{\"messages\":[{{\"content\":{},\"role\":\"user\"}}],\"model\":\"client-model\"}}",
        serde_json::Value::from(prompt)
    )
    .into_bytes()
}

fn field(name: &str, value: Json) -> Field {
    Field { name: name.to_owned(), value }
}

fn text(text: &str) -> Json {
    Json::Text(text.to_owned())
}

fn number(number: u64) -> Json {
    Json::Number(serde_json::Number::from(number))
}

#[test]
fn rejects_a_missing_body() {
    let err = parse_body(None).expect_err("no body means no routing decision");
    assert_eq!(err.message(), "request body missing", "a missing body is reported as such");
}

#[test]
fn rejects_an_empty_body() {
    let err = parse_body(Some(&[])).expect_err("an empty body means no routing decision");
    assert_eq!(err.message(), "request body empty", "an empty body is reported as such");
}

#[test]
fn rejects_non_json_body() {
    let err = parse_body(Some(b"not json")).expect_err("the body must be JSON");
    assert!(
        err.message().starts_with("invalid JSON:"),
        "the parse error must be surfaced, got {}",
        err.message()
    );
}

#[test]
fn parses_json_body() {
    let raw = chat_body("hello");
    let value = parse_body(Some(&raw)).expect("a chat body is JSON");
    assert_eq!(
        value.get_text("model"),
        Some("client-model"),
        "the parsed value keeps the client's fields"
    );
}

#[test]
fn parsing_keeps_every_kind_of_value() {
    let value = parse_body(Some(b"{\"a\":[null,true,7,\"x\"],\"b\":{}}")).expect("JSON");
    assert_eq!(
        value,
        Json::Object(vec![
            field("a", Json::Array(vec![Json::Null, Json::Bool(true), number(7), text("x")])),
            field("b", Json::Object(Vec::new())),
        ])
    );
}

#[test]
fn a_repeated_name_is_read_once() {
    let value = parse_body(Some(b"{\"model\":\"a\",\"model\":\"b\"}")).expect("JSON");
    assert_eq!(value, Json::Object(vec![field("model", text("b"))]));
}

#[test]
fn rewrites_the_model_field() {
    let value = Json::Object(vec![
        field("model", text("client-model")),
        field("messages", Json::Array(Vec::new())),
    ]);
    let rewritten = rewrite_model(value, "weak-model").expect("an object can be rewritten");
    let parsed: serde_json::Value = serde_json::from_slice(&rewritten).expect("output is JSON");
    assert_eq!(parsed["model"], "weak-model", "the tier's model replaces the client's");
    assert!(parsed.get("messages").is_some(), "other fields must survive the rewrite");
}

#[test]
fn rejects_rewriting_a_non_object_body() {
    let err = rewrite_model(Json::Array(vec![number(1), number(2), number(3)]), "weak-model")
        .expect_err("a JSON array has no model field");
    assert_eq!(
        err.message(),
        "request body not an object",
        "the error must say the body is not an object"
    );
}

#[test]
fn a_missing_model_is_added() {
    let value = Json::Object(vec![field("n", number(1))]);
    assert_eq!(
        set_model(value, "strong-model"),
        Ok(Json::Object(vec![field("n", number(1)), field("model", text("strong-model"))]))
    );
    assert_eq!(set_model(Json::Null, "m"), Err(RouteError::Body("not an object")));
}

#[test]
fn a_rewritten_body_reads_back() {
    let raw = b"{\"stream\":false,\"model\":\"x\",\"messages\":[{\"role\":\"user\",\"content\":\"a\\\"\\u00e9\\n\"}],\"n\":2,\"stop\":null}";
    let value = parse_body(Some(raw)).expect("JSON");
    let bytes = rewrite_model(value, "weak \"model\"").expect("rewrites");
    let again = parse_body(Some(&bytes)).expect("a rewritten body is JSON");
    assert_eq!(again.get_text("model"), Some("weak \"model\""));
    let before = parse_body(Some(raw)).expect("JSON");
    for name in ["stream", "messages", "n", "stop"] {
        assert_eq!(again.get(name), before.get(name), "{name} must survive");
    }
    assert_eq!(again.get("other"), None);
}

fn config() -> switchyard_route::config::RouteConfig {
    let raw = RawConfig {
        judge: RawJudge {
            endpoint: "http://judge/v1".to_owned(),
            model: "judge-model".to_owned(),
            timeout_ms: None,
            verify_tls: None,
            auth_value_env: None,
        },
        weak: TargetConfig { cluster: "weak-cluster".to_owned(), model: "weak-model".to_owned() },
        strong: TargetConfig {
            cluster: "strong-cluster".to_owned(),
            model: "strong-model".to_owned(),
        },
        threshold: None,
        on_failure: None,
        session_floor: None,
    };
    parse(raw, None, ByteOrder::Little).ok().expect("valid")
}

#[test]
fn a_tier_rewrite_returns_the_cluster_and_replaces_the_body() {
    let mut body = Some(b"{}".to_vec());
    let cluster = rewrite_for_tier(&config(), &mut body, Json::Object(Vec::new()), Tier::Strong);
    assert_eq!(cluster, Ok("strong-cluster".to_owned()));
    assert_eq!(body, Some(b"{\"model\":\"strong-model\"}".to_vec()));
}

#[test]
fn a_failed_tier_rewrite_leaves_the_body() {
    let mut body = Some(b"[1]".to_vec());
    let outcome = rewrite_for_tier(&config(), &mut body, Json::Array(Vec::new()), Tier::Weak);
    assert_eq!(outcome, Err(RouteError::Body("not an object")));
    assert_eq!(body, Some(b"[1]".to_vec()));
}

#[test]
fn integers_read_back_exactly() {
    let raw = b"{\"a\":18446744073709551615,\"b\":-9223372036854775808,\"c\":0,\"d\":[7],\"e\":1.5}";
    let value = parse_body(Some(raw)).expect("JSON");
    assert_eq!(value.get("a").and_then(Json::as_integer), Some(i128::from(u64::MAX)));
    let bytes = rewrite_model(value, "m").expect("rewrites");
    let again = parse_body(Some(&bytes)).expect("JSON");
    assert_eq!(again.get("a").and_then(Json::as_integer), Some(i128::from(u64::MAX)));
    assert_eq!(again.get("b").and_then(Json::as_integer), Some(i128::from(i64::MIN)));
    assert_eq!(again.get("c").and_then(Json::as_integer), Some(0));
    assert_eq!(again.get("d"), Some(&Json::Array(vec![number(7)])));
    assert_eq!(again.get("e").and_then(Json::as_integer), None, "a fraction is no integer");
    assert_eq!(again.get("model").and_then(Json::as_integer), None);
}
