use klyra_relay::greet;
use klyra_relay::start_confirmation;
use klyra_relay::events::{WireEvent, ClientEvent};
use klyra_relay::json_in::{decode_event, parse_inbound, InboundDoc};
use klyra_relay::json_out::{encode_frame, escape_json};
use klyra_relay::text::u64_to_dec;

#[test]
fn greet_builds_the_exact_greeting() {
    assert_eq!(greet("World"), "Hello, World! You've been greeted from Rust!");
    assert_eq!(greet(""), "Hello, ! You've been greeted from Rust!");
}

#[test]
fn start_confirmation_names_the_port() {
    assert_eq!(start_confirmation(8080), "Chat server started on port 8080");
    assert_eq!(start_confirmation(0), "Chat server started on port 0");
    assert_eq!(start_confirmation(65535), "Chat server started on port 65535");
}

#[test]
fn decimal_rendering_is_exact() {
    assert_eq!(u64_to_dec(0), "0");
    assert_eq!(u64_to_dec(7), "7");
    assert_eq!(u64_to_dec(1234567890), "1234567890");
    assert_eq!(u64_to_dec(u64::MAX), "18446744073709551615");
}

#[test]
fn escaping_matches_json_rules() {
    assert_eq!(escape_json("plain"), "plain");
    assert_eq!(escape_json("a\"b"), "a\\\"b");
    assert_eq!(escape_json("a\\b"), "a\\\\b");
    assert_eq!(escape_json("a\nb\rc\td"), "a\\nb\\rc\\td");
    assert_eq!(escape_json("\u{8}\u{c}"), "\\b\\f");
    assert_eq!(escape_json("\u{1}"), "\\u0001");
    assert_eq!(escape_json("\u{1f}"), "\\u001f");
    assert_eq!(escape_json("héllo⚡"), "héllo⚡");
    assert_eq!(escape_json(""), "");
}

#[test]
fn system_frame_layout() {
    let e = WireEvent::System { text: "Welcome to X!".to_string() };
    assert_eq!(
        encode_frame(&e, 42),
        "{\"type\":\"system\",\"text\":\"Welcome to X!\",\"timestamp\":42}"
    );
}

#[test]
fn message_frame_layout() {
    let e = WireEvent::Message {
        text: "hi \"you\"".to_string(),
        sender: "A".to_string(),
        encrypted: false,
    };
    assert_eq!(
        encode_frame(&e, 7),
        "{\"type\":\"message\",\"text\":\"hi \\\"you\\\"\",\"sender\":\"A\",\"timestamp\":7,\"encrypted\":false}"
    );
}

#[test]
fn file_frame_layout() {
    let e = WireEvent::File { file_data: "AAECAw==".to_string(), sender: "B".to_string() };
    assert_eq!(
        encode_frame(&e, 9),
        "{\"type\":\"file\",\"fileData\":\"AAECAw==\",\"sender\":\"B\",\"timestamp\":9}"
    );
}

#[test]
fn edited_frame_layout() {
    let e = WireEvent::Edited {
        message_id: "m1".to_string(),
        new_text: "new".to_string(),
        sender: "A".to_string(),
        encrypted: true,
    };
    assert_eq!(
        encode_frame(&e, 11),
        "{\"type\":\"message_edited\",\"messageId\":\"m1\",\"newText\":\"new\",\"sender\":\"A\",\"timestamp\":11,\"encrypted\":true}"
    );
}

#[test]
fn deleted_frame_layout() {
    let e = WireEvent::Deleted { message_id: "m1".to_string(), sender: "A".to_string() };
    assert_eq!(
        encode_frame(&e, 13),
        "{\"type\":\"message_deleted\",\"messageId\":\"m1\",\"sender\":\"A\",\"timestamp\":13}"
    );
}

#[test]
fn frames_parse_back_as_json() {
    let e = WireEvent::Message {
        text: "line\nbreak \\ \"q\" \u{1}".to_string(),
        sender: "A".to_string(),
        encrypted: false,
    };
    let frame = encode_frame(&e, 5);
    let v: serde_json::Value = serde_json::from_str(&frame).expect("frame must be valid JSON");
    assert_eq!(v["type"], "message");
    assert_eq!(v["text"], "line\nbreak \\ \"q\" \u{1}");
    assert_eq!(v["sender"], "A");
    assert_eq!(v["timestamp"], 5);
    assert_eq!(v["encrypted"], false);
}

#[test]
fn parse_gathers_fields() {
    let doc = parse_inbound(
        "{\"type\":\"message\",\"text\":\"hi\",\"sender\":\"A\",\"encrypted\":true}",
    )
    .expect("well-formed JSON must parse");
    assert_eq!(doc.typ.as_deref(), Some("message"));
    assert_eq!(doc.text.as_deref(), Some("hi"));
    assert_eq!(doc.sender.as_deref(), Some("A"));
    assert_eq!(doc.encrypted, Some(true));
    assert!(doc.user_id.is_none());
    assert!(doc.user_name.is_none());
}

#[test]
fn parse_rejects_bad_json() {
    assert!(parse_inbound("{not json").is_none());
    assert!(parse_inbound("").is_none());
}

#[test]
fn parse_tolerates_wrongly_shaped_fields() {
    let doc = parse_inbound("{\"type\":7,\"text\":[1,2],\"encrypted\":\"yes\"}")
        .expect("well-formed JSON must parse");
    assert!(doc.typ.is_none());
    assert!(doc.text.is_none());
    assert!(doc.encrypted.is_none());
}

#[test]
fn parse_gathers_the_user_fields() {
    let doc = parse_inbound(
        "{\"type\":\"user_join\",\"user\":{\"id\":\"u1\",\"name\":\"N\",\"nickname\":\"n\",\"status\":\"on\"}}",
    )
    .unwrap();
    assert_eq!(doc.user_id.as_deref(), Some("u1"));
    assert_eq!(doc.user_name.as_deref(), Some("N"));
    assert_eq!(doc.user_nickname.as_deref(), Some("n"));
    assert_eq!(doc.user_status.as_deref(), Some("on"));

    let doc = parse_inbound(
        "{\"type\":\"user_join\",\"user\":{\"id\":\"u1\",\"name\":\"N\"}}",
    )
    .unwrap();
    assert_eq!(doc.user_id.as_deref(), Some("u1"));
    assert!(doc.user_nickname.is_none());
    assert!(doc.user_status.is_none());
    // An incomplete user fails decoding, not gathering.
    assert!(decode_event(doc).is_none());
}

fn doc(typ: Option<&str>) -> InboundDoc {
    InboundDoc {
        typ: typ.map(|s| s.to_string()),
        text: None,
        sender: None,
        file_data: None,
        message_id: None,
        new_text: None,
        encrypted: None,
        user_id: None,
        user_name: None,
        user_nickname: None,
        user_status: None,
    }
}

#[test]
fn decode_drops_missing_or_unknown_kind() {
    assert!(decode_event(doc(None)).is_none());
    assert!(decode_event(doc(Some("nonsense"))).is_none());
    assert!(decode_event(doc(Some("message"))).is_none());
    assert!(decode_event(doc(Some("file"))).is_none());
    assert!(decode_event(doc(Some("edit_message"))).is_none());
    assert!(decode_event(doc(Some("delete_message"))).is_none());
    assert!(decode_event(doc(Some("user_join"))).is_none());
}

#[test]
fn decode_requires_all_fields_of_the_kind() {
    let mut d = doc(Some("message"));
    d.text = Some("hi".to_string());
    assert!(decode_event(d).is_none());

    let mut d = doc(Some("message"));
    d.text = Some("hi".to_string());
    d.sender = Some("A".to_string());
    match decode_event(d) {
        Some(ClientEvent::Message { text, sender, encrypted }) => {
            assert_eq!(text, "hi");
            assert_eq!(sender, "A");
            assert!(!encrypted);
        },
        _ => panic!("expected a message event"),
    }
}

#[test]
fn decode_defaults_the_encrypted_flag() {
    let mut d = doc(Some("message"));
    d.text = Some("hi".to_string());
    d.sender = Some("A".to_string());
    d.encrypted = Some(true);
    match decode_event(d) {
        Some(ClientEvent::Message { encrypted, .. }) => assert!(encrypted),
        _ => panic!("expected a message event"),
    }
}

#[test]
fn decode_join_assembles_the_user() {
    let mut d = doc(Some("user_join"));
    d.user_id = Some("u1".to_string());
    d.user_name = Some("N".to_string());
    d.user_nickname = Some("n".to_string());
    d.user_status = Some("on".to_string());
    match decode_event(d) {
        Some(ClientEvent::Join { user }) => {
            assert_eq!(user.id, "u1");
            assert_eq!(user.name, "N");
            assert_eq!(user.nickname, "n");
            assert_eq!(user.status, "on");
        },
        _ => panic!("expected a join event"),
    }

    // Any missing user field fails the join.
    let mut d = doc(Some("user_join"));
    d.user_id = Some("u1".to_string());
    d.user_name = Some("N".to_string());
    d.user_nickname = Some("n".to_string());
    assert!(decode_event(d).is_none());
}
