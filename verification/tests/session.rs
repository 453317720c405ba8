use std::hash::Hasher;

use http::{HeaderMap, HeaderValue};
use switchyard_route::json::{Field, Json};
use switchyard_route::session::{
    content_text, first_filled_role_text, first_role_text, opening_session_key,
    session_key_from_header, session_key_from_request, write_len_prefixed, ByteOrder,
    SESSION_ID_HEADER,
};

fn header_map(value: &str) -> HeaderMap {
    let mut headers = HeaderMap::new();
    headers.insert(SESSION_ID_HEADER, HeaderValue::from_str(value).unwrap());
    headers
}

fn machine() -> ByteOrder {
    if 1_u16.to_ne_bytes() == [1, 0] {
        ByteOrder::Little
    } else {
        ByteOrder::Big
    }
}

fn object(fields: Vec<(&str, Json)>) -> Json {
    Json::Object(
        fields
            .into_iter()
            .map(|(name, value)| Field { name: name.to_owned(), value })
            .collect(),
    )
}

fn text(text: &str) -> Json {
    Json::Text(text.to_owned())
}

fn message(role: &str, content: &str) -> Json {
    object(vec![("role", text(role)), ("content", text(content))])
}

fn body(messages: Vec<Json>) -> Json {
    object(vec![("messages", Json::Array(messages))])
}

fn chat(system: Option<&str>, users: &[&str]) -> Json {
    let mut messages = Vec::new();
    if let Some(system) = system {
        messages.push(message("system", system));
    }
    for user in users {
        messages.push(message("user", user));
    }
    object(vec![("model", text("agent-default")), ("messages", Json::Array(messages))])
}

#[test]
fn header_wins_over_opening_messages() {
    let body = chat(None, &["hello"]);
    let from_header = session_key_from_request(&header_map("chat-1"), &body, machine()).unwrap();
    let from_body = session_key_from_request(&HeaderMap::new(), &body, machine()).unwrap();
    assert_ne!(from_header, from_body, "header key must not equal opening hash");
    assert!(from_header.as_str().starts_with("h:"), "header keys use h: prefix");
}

#[test]
fn blank_header_falls_through_to_opening() {
    let body = chat(None, &["hello"]);
    let blank = session_key_from_request(&header_map("   "), &body, machine()).unwrap();
    let opening = session_key_from_request(&HeaderMap::new(), &body, machine()).unwrap();
    assert_eq!(blank, opening, "whitespace-only header must be ignored");
}

#[test]
fn later_turns_keep_the_opening_user_message() {
    let turn_one = chat(Some("be brief"), &["capital of France?"]);
    let turn_two = body(vec![
        message("system", "be brief"),
        message("user", "capital of France?"),
        message("assistant", "Paris"),
        message("user", "and Germany?"),
    ]);
    let key_one = session_key_from_request(&HeaderMap::new(), &turn_one, machine()).unwrap();
    let key_two = session_key_from_request(&HeaderMap::new(), &turn_two, machine()).unwrap();
    assert_eq!(key_one, key_two, "follow-up history must keep the opening key");
}

#[test]
fn different_openings_are_different_keys() {
    let france = session_key_from_request(&HeaderMap::new(), &chat(None, &["France"]), machine()).unwrap();
    let spain = session_key_from_request(&HeaderMap::new(), &chat(None, &["Spain"]), machine()).unwrap();
    assert_ne!(france, spain, "distinct first user lines must not share a key");
}

#[test]
fn system_prompt_is_part_of_the_opening_key() {
    let with_a = session_key_from_request(&HeaderMap::new(), &chat(Some("A"), &["hi"]), machine()).unwrap();
    let with_b = session_key_from_request(&HeaderMap::new(), &chat(Some("B"), &["hi"]), machine()).unwrap();
    assert_ne!(with_a, with_b, "different system prompts must not share a key");
}

#[test]
fn opening_hash_does_not_alias_on_concatenated_fields() {
    let split_left = session_key_from_request(&HeaderMap::new(), &chat(Some("ab"), &["c"]), machine()).unwrap();
    let split_right = session_key_from_request(&HeaderMap::new(), &chat(Some("a"), &["bc"]), machine()).unwrap();
    assert_ne!(
        split_left, split_right,
        "system+user must be length-prefixed so concatenations do not collide"
    );
}

#[test]
fn missing_user_message_has_no_opening_key() {
    let body = body(vec![message("system", "only system")]);
    assert!(
        session_key_from_request(&HeaderMap::new(), &body, machine()).is_none(),
        "system-only bodies are not a session"
    );
}

#[test]
fn multimodal_user_text_parts_join() {
    let part = |content: &str| object(vec![("type", text("text")), ("text", text(content))]);
    let body = body(vec![object(vec![
        ("role", text("user")),
        ("content", Json::Array(vec![part("hello "), part("world")])),
    ])]);
    let joined = session_key_from_request(&HeaderMap::new(), &body, machine()).unwrap();
    let plain = session_key_from_request(&HeaderMap::new(), &chat(None, &["hello world"]), machine()).unwrap();
    assert_eq!(joined, plain, "text parts must hash like a single string");
}

#[test]
fn header_keys_are_trimmed_and_bounded() {
    let key = session_key_from_request(&header_map("  chat-1\t"), &Json::Null, machine()).unwrap();
    assert_eq!(key.as_str(), "h:chat-1");
    let long = "x".repeat(300);
    let key = session_key_from_request(&header_map(&long), &Json::Null, machine()).unwrap();
    assert_eq!(key.as_str(), format!("h:{}", "x".repeat(256)));
}

#[test]
fn a_header_that_is_not_ascii_is_ignored() {
    let body = chat(None, &["hello"]);
    let opening = session_key_from_request(&HeaderMap::new(), &body, machine()).unwrap();
    assert_eq!(session_key_from_request(&header_map("caf\u{e9}"), &body, machine()), Some(opening));
    assert_eq!(session_key_from_request(&header_map("caf\u{e9}"), &Json::Null, machine()), None);
}

#[test]
fn opening_keys_are_sixteen_hexadecimal_digits() {
    let mut hasher = std::collections::hash_map::DefaultHasher::new();
    hasher.write_u64(8);
    hasher.write(b"be brief");
    hasher.write_u64(5);
    hasher.write(b"hello");
    let key = session_key_from_request(&HeaderMap::new(), &chat(Some("be brief"), &["hello"]), machine());
    assert_eq!(key.unwrap().as_str(), format!("o:{:016X}", hasher.finish()));
}

#[test]
fn empty_user_messages_are_passed_over() {
    let plain = session_key_from_request(&HeaderMap::new(), &chat(None, &["hi"]), machine());
    assert!(plain.is_some());
    let late = session_key_from_request(&HeaderMap::new(), &chat(None, &["", "", "hi", "bye"]), machine());
    assert_eq!(late, plain);
    let hello = opening_session_key(&body(vec![message("user", ""), message("user", "hello")]), machine());
    assert!(hello.is_some());
    assert_eq!(hello, opening_session_key(&body(vec![message("user", "hello")]), machine()));
    let parts = object(vec![("role", text("user")), ("content", Json::Array(vec![object(vec![
        ("text", text("")),
    ])]))]);
    assert_eq!(opening_session_key(&body(vec![parts, message("user", "hello")]), machine()), hello);
}

#[test]
fn an_empty_opening_is_no_session() {
    assert_eq!(session_key_from_request(&HeaderMap::new(), &chat(None, &["", ""]), machine()), None);
    assert_eq!(session_key_from_request(&HeaderMap::new(), &chat(Some("s"), &[""]), machine()), None);
    assert_eq!(session_key_from_request(&HeaderMap::new(), &Json::Array(Vec::new()), machine()), None);
    assert_eq!(session_key_from_request(&HeaderMap::new(), &object(Vec::new()), machine()), None);
}

#[test]
fn content_text_takes_strings_and_text_parts_only() {
    assert_eq!(content_text(&text("a")), Some("a".to_owned()));
    assert_eq!(content_text(&Json::Null), None);
    assert_eq!(content_text(&Json::Array(Vec::new())), None);
    let image = object(vec![("type", text("image_url"))]);
    assert_eq!(content_text(&Json::Array(vec![image])), None);
    let image = object(vec![("type", text("image_url"))]);
    let caption = object(vec![("text", text("cat"))]);
    assert_eq!(content_text(&Json::Array(vec![image, caption])), Some("cat".to_owned()));
}

#[test]
fn messages_without_text_are_passed_over() {
    let messages = vec![
        Json::Null,
        object(vec![("role", text("user"))]),
        object(vec![("role", text("user")), ("content", Json::Null)]),
        message("assistant", "no"),
        message("user", "yes"),
        message("user", "late"),
    ];
    assert_eq!(first_role_text(&messages, "user"), Some("yes".to_owned()));
    assert_eq!(first_role_text(&messages, "system"), None);
    let messages = vec![message("user", ""), message("user", "yes")];
    assert_eq!(first_role_text(&messages, "user"), Some(String::new()));
    assert_eq!(first_filled_role_text(&messages, "user"), Some("yes".to_owned()));
    assert_eq!(first_filled_role_text(&messages, "system"), None);
}

#[test]
fn header_text_alone_gives_a_key() {
    assert_eq!(session_key_from_header(" a b ").map(|key| key.inner), Some("h:a b".to_owned()));
    assert_eq!(session_key_from_header(" \t\r\n"), None);
    assert_eq!(session_key_from_header(""), None);
}

#[test]
fn lengths_are_written_in_the_given_order() {
    for (order, prefix) in [
        (ByteOrder::Little, [3, 0, 0, 0, 0, 0, 0, 0]),
        (ByteOrder::Big, [0, 0, 0, 0, 0, 0, 0, 3]),
    ] {
        let mut hasher = std::collections::hash_map::DefaultHasher::new();
        write_len_prefixed(&mut hasher, b"abc", order);
        let mut expected = std::collections::hash_map::DefaultHasher::new();
        expected.write(&prefix);
        expected.write(b"abc");
        assert_eq!(hasher.finish(), expected.finish());
    }
    let mut hasher = std::collections::hash_map::DefaultHasher::new();
    write_len_prefixed(&mut hasher, b"abc", machine());
    let mut expected = std::collections::hash_map::DefaultHasher::new();
    expected.write_u64(3);
    expected.write(b"abc");
    assert_eq!(hasher.finish(), expected.finish(), "the machine's order is that of std");
}
