use skeleton_app::json::decimal_string;
use skeleton_app::{finish_send, plan_send, AppState, SendFailure, SendRequest};

fn started() -> AppState {
    let mut s = AppState::new();
    s.initialize();
    s
}

#[test]
fn fresh_state_is_empty() {
    let s = AppState::new();
    assert_eq!(s.counter(), 0);
    assert!(s.messages().is_empty());
    assert_eq!(s.get_messages(String::new()), "[]");
}

#[test]
fn status_after_initialize() {
    let s = started();
    assert_eq!(
        s.get_status(String::new(), "alice.os"),
        "{\"counter\":0,\"message_count\":1,\"node\":\"alice.os\"}"
    );
    assert_eq!(s.messages(), &vec!["App initialized!".to_string()]);
}

#[test]
fn status_after_increment_by_five() {
    let mut s = started();
    assert_eq!(s.increment_counter("5".to_string()), Ok(5));
    assert_eq!(
        s.get_status("ignored".to_string(), "alice.os"),
        "{\"counter\":5,\"message_count\":2,\"node\":\"alice.os\"}"
    );
    assert_eq!(s.messages()[1], "Counter incremented by 5");
}

#[test]
fn increment_adds_exact_amount() {
    let mut s = started();
    s.increment_counter("3".to_string()).unwrap();
    let before = s.messages().len();
    assert_eq!(s.increment_counter("4000000000".to_string()), Ok(4000000003));
    assert_eq!(s.messages().len(), before + 1);
    assert_eq!(s.messages()[before], "Counter incremented by 4000000000");
}

#[test]
fn increment_non_numeric_defaults_to_one() {
    let mut s = started();
    assert_eq!(s.increment_counter("abc".to_string()), Ok(1));
    assert_eq!(s.increment_counter("-3".to_string()), Ok(2));
    assert_eq!(s.increment_counter("4294967296".to_string()), Ok(3));
    assert_eq!(s.increment_counter(String::new()), Ok(4));
    assert_eq!(s.messages()[4], "Counter incremented by 1");
}

#[test]
fn increment_accepts_json_whitespace() {
    let mut s = started();
    assert_eq!(s.increment_counter(" 12\n".to_string()), Ok(12));
}

#[test]
fn increment_wraps_past_u32_max() {
    let mut s = started();
    assert_eq!(s.increment_counter("4294967295".to_string()), Ok(u32::MAX));
    assert_eq!(s.increment_counter("2".to_string()), Ok(1));
    assert_eq!(s.apply_increment(None), Ok(2));
}

#[test]
fn apply_increment_uses_parsed_amount() {
    let mut s = started();
    assert_eq!(s.apply_increment(Some(9)), Ok(9));
    assert_eq!(s.apply_increment(None), Ok(10));
    assert_eq!(s.messages()[1], "Counter incremented by 9");
    assert_eq!(s.messages()[2], "Counter incremented by 1");
}

#[test]
fn status_after_several_increments() {
    let mut s = started();
    for body in ["2", "x", "10", "0"] {
        s.increment_counter(body.to_string()).unwrap();
    }
    assert_eq!(
        s.get_status(String::new(), "n"),
        "{\"counter\":13,\"message_count\":5,\"node\":\"n\"}"
    );
}

#[test]
fn status_escapes_node() {
    let s = started();
    let status = s.get_status(String::new(), "a\"b\\c");
    assert_eq!(status, "{\"counter\":0,\"message_count\":1,\"node\":\"a\\\"b\\\\c\"}");
    let parsed: serde_json::Value = serde_json::from_str(&status).unwrap();
    assert_eq!(parsed["node"], "a\"b\\c");
    assert_eq!(parsed["message_count"], 1);
}

#[test]
fn messages_round_trip() {
    let mut s = started();
    s.increment_counter("7".to_string()).unwrap();
    s.handle_remote_message("quote \" slash \\ line \n tab \t bell \u{7} del \u{7f} é".to_string())
        .unwrap();
    let text = s.get_messages(String::new());
    let back: Vec<String> = serde_json::from_str(&text).unwrap();
    assert_eq!(&back, s.messages());
    assert_eq!(back.len(), 3);
}

#[test]
fn messages_exact_text() {
    let mut s = started();
    s.handle_remote_message("a\u{1}b".to_string()).unwrap();
    assert_eq!(
        s.get_messages(String::new()),
        "[\"App initialized!\",\"Remote message: a\\u0001b\"]"
    );
}

#[test]
fn remote_message_logged_and_acknowledged() {
    let mut s = started();
    assert_eq!(s.handle_remote_message("X".to_string()), Ok("Message received".to_string()));
    assert_eq!(s.messages().len(), 2);
    assert!(s.messages()[1].contains("X"));
    assert_eq!(s.messages()[1], "Remote message: X");
    assert_eq!(s.counter(), 0);
}

#[test]
fn send_with_bad_body_is_rejected() {
    let r = plan_send(Err("missing field `target_node` at line 1 column 17".to_string()));
    assert_eq!(
        r.err(),
        Some("Invalid request: missing field `target_node` at line 1 column 17".to_string())
    );
}

#[test]
fn send_plans_envelope_call() {
    let call = plan_send(Ok(SendRequest {
        target_node: "bob.os".to_string(),
        message: "hi \"there\"".to_string(),
    }))
    .unwrap();
    assert_eq!(call.target_node, "bob.os");
    assert_eq!(call.target_process, "skeleton-app:skeleton-app:skeleton.os");
    assert_eq!(call.body, "{\"HandleRemoteMessage\":\"hi \\\"there\\\"\"}");
    assert_eq!(call.timeout_secs, 30);
}

#[test]
fn send_outcomes() {
    assert_eq!(finish_send(Ok(())), Ok("Message sent successfully".to_string()));
    assert_eq!(
        finish_send(Err(SendFailure::Transport("Timeout".to_string()))),
        Err("Failed to send message: Timeout".to_string())
    );
    assert_eq!(
        finish_send(Err(SendFailure::InvalidProcessId("bad".to_string()))),
        Err("Invalid process ID: bad".to_string())
    );
}

#[test]
fn envelope_reaches_peer_log() {
    let call = plan_send(Ok(SendRequest {
        target_node: "bob.os".to_string(),
        message: "hi".to_string(),
    }))
    .unwrap();
    let envelope: serde_json::Value = serde_json::from_str(&call.body).unwrap();
    let message = envelope["HandleRemoteMessage"].as_str().unwrap().to_string();
    let mut peer = started();
    assert_eq!(peer.handle_remote_message(message), Ok("Message received".to_string()));
    let log: Vec<String> = serde_json::from_str(&peer.get_messages(String::new())).unwrap();
    assert!(log.iter().any(|m| m.contains("hi")));
}

#[test]
fn decimal_digits() {
    assert_eq!(decimal_string(0), "0");
    assert_eq!(decimal_string(10), "10");
    assert_eq!(decimal_string(u64::MAX), "18446744073709551615");
}

#[test]
fn restore_keeps_snapshot() {
    let s = AppState::restore(41, vec!["a".to_string(), "b".to_string()]);
    assert_eq!(s.counter(), 41);
    assert_eq!(s.get_messages(String::new()), "[\"a\",\"b\"]");
}

#[test]
fn default_state_is_empty() {
    let s = AppState::default();
    assert_eq!(s.counter(), 0);
    assert_eq!(s.messages().len(), 0);
}
