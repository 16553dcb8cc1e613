use klyra_relay::relay::Relay;

fn two_sessions(relay: &mut Relay) -> (u64, u64) {
    let a = relay.open_session(100).expect("id space not exhausted");
    let b = relay.open_session(101).expect("id space not exhausted");
    // Drain the welcome frames so later assertions see only new traffic.
    relay.take_outbound(a);
    relay.take_outbound(b);
    (a, b)
}

#[test]
fn welcome_goes_to_the_new_session_only() {
    let mut relay = Relay::new("TestServer".to_string());
    let a = relay.open_session(100).unwrap();
    let b = relay.open_session(101).unwrap();
    assert_ne!(a, b);
    let wa = relay.take_outbound(a);
    let wb = relay.take_outbound(b);
    assert_eq!(
        wa,
        vec!["{\"type\":\"system\",\"text\":\"Welcome to TestServer!\",\"timestamp\":100}"
            .to_string()]
    );
    assert_eq!(
        wb,
        vec!["{\"type\":\"system\",\"text\":\"Welcome to TestServer!\",\"timestamp\":101}"
            .to_string()]
    );
    // Neither queue holds the other's welcome: both are empty now.
    assert!(relay.take_outbound(a).is_empty());
    assert!(relay.take_outbound(b).is_empty());
}

#[test]
fn message_reaches_both_sessions_with_one_timestamp() {
    let mut relay = Relay::new("S".to_string());
    let (a, b) = two_sessions(&mut relay);
    relay.handle_frame("{\"type\":\"message\",\"text\":\"hi\",\"sender\":\"A\"}", 200);
    let fa = relay.take_outbound(a);
    let fb = relay.take_outbound(b);
    let expected =
        "{\"type\":\"message\",\"text\":\"hi\",\"sender\":\"A\",\"timestamp\":200,\"encrypted\":false}";
    assert_eq!(fa, vec![expected.to_string()]);
    assert_eq!(fb, vec![expected.to_string()]);
    assert_eq!(fa[0], fb[0]);
}

#[test]
fn clean_close_narrates_to_remaining_sessions_only() {
    let mut relay = Relay::new("S".to_string());
    let (a, b) = two_sessions(&mut relay);
    relay.close_session(b, true, 300);
    let fa = relay.take_outbound(a);
    assert_eq!(
        fa,
        vec!["{\"type\":\"system\",\"text\":\"A user left the chat\",\"timestamp\":300}"
            .to_string()]
    );
    // The closed session is gone and receives nothing.
    assert!(!relay.has_open_session(b));
    assert!(relay.take_outbound(b).is_empty());
    // A session connecting afterwards does not see the old narration.
    let c = relay.open_session(400).unwrap();
    let fc = relay.take_outbound(c);
    assert_eq!(
        fc,
        vec!["{\"type\":\"system\",\"text\":\"Welcome to S!\",\"timestamp\":400}".to_string()]
    );
}

#[test]
fn errored_close_narrates_nothing() {
    let mut relay = Relay::new("S".to_string());
    let (a, b) = two_sessions(&mut relay);
    relay.close_session(b, false, 300);
    assert!(relay.take_outbound(a).is_empty());
    assert!(!relay.has_open_session(b));
}

#[test]
fn per_session_order_matches_broadcast_order() {
    let mut relay = Relay::new("S".to_string());
    let (a, b) = two_sessions(&mut relay);
    relay.handle_frame("{\"type\":\"message\",\"text\":\"one\",\"sender\":\"A\"}", 1);
    relay.handle_frame("{\"type\":\"file\",\"fileData\":\"Zg==\",\"sender\":\"B\"}", 2);
    relay.handle_frame("{\"type\":\"message\",\"text\":\"three\",\"sender\":\"A\"}", 3);
    let expected = vec![
        "{\"type\":\"message\",\"text\":\"one\",\"sender\":\"A\",\"timestamp\":1,\"encrypted\":false}"
            .to_string(),
        "{\"type\":\"file\",\"fileData\":\"Zg==\",\"sender\":\"B\",\"timestamp\":2}".to_string(),
        "{\"type\":\"message\",\"text\":\"three\",\"sender\":\"A\",\"timestamp\":3,\"encrypted\":false}"
            .to_string(),
    ];
    assert_eq!(relay.take_outbound(a), expected);
    assert_eq!(relay.take_outbound(b), expected);
}

#[test]
fn removed_session_receives_no_later_broadcasts() {
    let mut relay = Relay::new("S".to_string());
    let (a, b) = two_sessions(&mut relay);
    relay.remove_session(a);
    assert!(!relay.has_open_session(a));
    relay.handle_frame("{\"type\":\"message\",\"text\":\"hi\",\"sender\":\"B\"}", 5);
    assert!(relay.take_outbound(a).is_empty());
    assert_eq!(relay.take_outbound(b).len(), 1);
    // Removal is idempotent: removing again changes nothing.
    relay.remove_session(a);
    assert!(!relay.has_open_session(a));
    assert_eq!(relay.session_count(), 1);
}

#[test]
fn malformed_frames_produce_nothing_and_keep_the_session() {
    let mut relay = Relay::new("S".to_string());
    let (a, b) = two_sessions(&mut relay);
    // Not JSON at all.
    relay.handle_frame("{oops", 1);
    // Missing kind.
    relay.handle_frame("{\"text\":\"hi\",\"sender\":\"A\"}", 2);
    // Unknown kind.
    relay.handle_frame("{\"type\":\"shout\",\"text\":\"hi\",\"sender\":\"A\"}", 3);
    // Known kinds, each missing a required field.
    relay.handle_frame("{\"type\":\"message\",\"text\":\"hi\"}", 4);
    relay.handle_frame("{\"type\":\"message\",\"sender\":\"A\"}", 5);
    relay.handle_frame("{\"type\":\"file\",\"sender\":\"A\"}", 6);
    relay.handle_frame("{\"type\":\"edit_message\",\"messageId\":\"m\",\"sender\":\"A\"}", 7);
    relay.handle_frame("{\"type\":\"delete_message\",\"messageId\":\"m\"}", 8);
    relay.handle_frame("{\"type\":\"user_join\",\"user\":{\"id\":\"u\",\"name\":\"N\"}}", 9);
    // A kind of the wrong shape.
    relay.handle_frame("{\"type\":17}", 10);
    assert!(relay.take_outbound(a).is_empty());
    assert!(relay.take_outbound(b).is_empty());
    assert!(relay.has_open_session(a));
    assert!(relay.has_open_session(b));
    assert_eq!(relay.user_count(), 0);
}

#[test]
fn join_updates_presence_and_narrates() {
    let mut relay = Relay::new("S".to_string());
    let (a, _b) = two_sessions(&mut relay);
    relay.handle_frame(
        "{\"type\":\"user_join\",\"user\":{\"id\":\"u1\",\"name\":\"Ada\",\"nickname\":\"a\",\"status\":\"on\"}}",
        50,
    );
    let fa = relay.take_outbound(a);
    assert_eq!(
        fa,
        vec!["{\"type\":\"system\",\"text\":\"Ada joined the chat\",\"timestamp\":50}".to_string()]
    );
    let u = relay.get_user(&"u1".to_string()).expect("join must record the user");
    assert_eq!(u.name, "Ada");
    assert_eq!(u.nickname, "a");
    assert_eq!(u.status, "on");
}

#[test]
fn repeated_join_with_one_id_keeps_one_record_with_latest_fields() {
    let mut relay = Relay::new("S".to_string());
    let (_a, _b) = two_sessions(&mut relay);
    relay.handle_frame(
        "{\"type\":\"user_join\",\"user\":{\"id\":\"u1\",\"name\":\"Ada\",\"nickname\":\"a\",\"status\":\"on\"}}",
        1,
    );
    relay.handle_frame(
        "{\"type\":\"user_join\",\"user\":{\"id\":\"u2\",\"name\":\"Bob\",\"nickname\":\"b\",\"status\":\"on\"}}",
        2,
    );
    relay.handle_frame(
        "{\"type\":\"user_join\",\"user\":{\"id\":\"u1\",\"name\":\"Ada2\",\"nickname\":\"a2\",\"status\":\"away\"}}",
        3,
    );
    assert_eq!(relay.user_count(), 2);
    let u = relay.get_user(&"u1".to_string()).unwrap();
    assert_eq!(u.name, "Ada2");
    assert_eq!(u.status, "away");
    let u2 = relay.get_user(&"u2".to_string()).unwrap();
    assert_eq!(u2.name, "Bob");
    assert!(relay.get_user(&"u3".to_string()).is_none());
}

#[test]
fn presence_outlives_the_session() {
    // A disconnect narrates departure but never retracts presence.
    let mut relay = Relay::new("S".to_string());
    let (a, _b) = two_sessions(&mut relay);
    relay.handle_frame(
        "{\"type\":\"user_join\",\"user\":{\"id\":\"u1\",\"name\":\"Ada\",\"nickname\":\"a\",\"status\":\"on\"}}",
        1,
    );
    relay.close_session(a, true, 2);
    assert!(relay.get_user(&"u1".to_string()).is_some());
    assert_eq!(relay.user_count(), 1);
}

#[test]
fn delete_of_an_unknown_message_still_broadcasts() {
    // Passthrough by design: no validation against prior existence.
    let mut relay = Relay::new("S".to_string());
    let (a, b) = two_sessions(&mut relay);
    relay.handle_frame(
        "{\"type\":\"delete_message\",\"messageId\":\"m1\",\"sender\":\"A\"}",
        5,
    );
    let expected =
        "{\"type\":\"message_deleted\",\"messageId\":\"m1\",\"sender\":\"A\",\"timestamp\":5}";
    assert_eq!(relay.take_outbound(a), vec![expected.to_string()]);
    assert_eq!(relay.take_outbound(b), vec![expected.to_string()]);
}

#[test]
fn edit_is_narrated_not_applied() {
    let mut relay = Relay::new("S".to_string());
    let (a, _b) = two_sessions(&mut relay);
    relay.handle_frame(
        "{\"type\":\"edit_message\",\"messageId\":\"m1\",\"newText\":\"fixed\",\"sender\":\"A\",\"encrypted\":true}",
        6,
    );
    assert_eq!(
        relay.take_outbound(a),
        vec![
            "{\"type\":\"message_edited\",\"messageId\":\"m1\",\"newText\":\"fixed\",\"sender\":\"A\",\"timestamp\":6,\"encrypted\":true}"
                .to_string()
        ]
    );
}

#[test]
fn encrypted_flag_passes_through() {
    let mut relay = Relay::new("S".to_string());
    let (a, _b) = two_sessions(&mut relay);
    relay.handle_frame(
        "{\"type\":\"message\",\"text\":\"secret\",\"sender\":\"A\",\"encrypted\":true}",
        7,
    );
    assert_eq!(
        relay.take_outbound(a),
        vec![
            "{\"type\":\"message\",\"text\":\"secret\",\"sender\":\"A\",\"timestamp\":7,\"encrypted\":true}"
                .to_string()
        ]
    );
}

#[test]
fn register_while_absent_then_broadcast() {
    let mut relay = Relay::new("S".to_string());
    let a = relay.open_session(1).unwrap();
    relay.take_outbound(a);
    relay.handle_frame("{\"type\":\"message\",\"text\":\"x\",\"sender\":\"A\"}", 2);
    let b = relay.open_session(3).unwrap();
    // The later session missed the earlier broadcast.
    let fb = relay.take_outbound(b);
    assert_eq!(fb.len(), 1);
    assert!(fb[0].starts_with("{\"type\":\"system\""));
    assert_eq!(relay.take_outbound(a).len(), 1);
}

#[test]
fn session_ids_are_fresh_and_tracked() {
    let mut relay = Relay::new("S".to_string());
    let a = relay.open_session(1).unwrap();
    let b = relay.open_session(2).unwrap();
    relay.close_session(a, false, 3);
    let c = relay.open_session(4).unwrap();
    assert_ne!(c, a);
    assert_ne!(c, b);
    let ids = relay.session_ids();
    assert_eq!(ids.len(), 2);
    assert!(ids.contains(&b));
    assert!(ids.contains(&c));
}
