use kino_relay::agents::Agents;
use kino_relay::bridge::{pump_step, PumpAction, PumpEvent};
use kino_relay::control::{
    control_step, keeps_listening, ControlAction, ControlEvent, ControlMessage, CONTROL_BUFFER,
    PING_SECS,
};
use kino_relay::ids::{new_connection_token, new_session_id, session_id};
use kino_relay::sessions::{
    GiveUpReason, ManagerAction, ManagerEvent, ManagerSession, PendingSessions, DIAL_BACK_SECS,
};

fn message(session_id: &str) -> ControlMessage {
    ControlMessage::NewConnection { session_id: session_id.to_string() }
}

#[test]
fn connection_request_as_json() {
    assert_eq!(
        message("0123-ab").to_json(),
        r#"{"type":"new_connection","session_id":"0123-ab"}"#
    );
}

#[test]
fn json_text_is_escaped() {
    assert_eq!(
        message("a\"b\\c\n\t\r\u{8}\u{c}\u{1}\u{1f}/\u{7f}é").to_json(),
        "{\"type\":\"new_connection\",\"session_id\":\"a\\\"b\\\\c\\n\\t\\r\\b\\f\\u0001\\u001f/\u{7f}é\"}"
    );
}

#[test]
fn json_text_reads_back() {
    let text = "a\"b\\c\n\u{0}\u{1f}é漢😀";
    let value: serde_json::Value = serde_json::from_str(&message(text).to_json()).unwrap();
    assert_eq!(value["session_id"].as_str(), Some(text));
    assert_eq!(value["type"].as_str(), Some("new_connection"));
}

#[test]
fn connection_tokens_are_random_uuids() {
    let a = new_connection_token();
    let b = new_connection_token();
    assert_ne!(a, b);
    assert_eq!((a >> 76) & 0xf, 4);
    assert_eq!((a >> 62) & 3, 2);
}

#[test]
fn session_ids_are_hyphenated() {
    assert_eq!(
        session_id(0x0123456789abcdeffedcba9876543210),
        "01234567-89ab-cdef-fedc-ba9876543210"
    );
    assert_eq!(session_id(0), "00000000-0000-0000-0000-000000000000");
    assert_eq!(session_id(u128::MAX), "ffffffff-ffff-ffff-ffff-ffffffffffff");
}

#[test]
fn fresh_session_ids_differ() {
    let a = new_session_id();
    assert_ne!(a, new_session_id());
    assert_eq!(a.len(), 36);
    assert_eq!(&a[14..15], "4");
    assert!(matches!(&a[19..20], "8" | "9" | "a" | "b"));
}

#[test]
fn registered_agent_is_reached() {
    let mut agents: Agents<&str> = Agents::new();
    assert_eq!(agents.channel("h1"), None);
    agents.register("h1".to_string(), 1, "first");
    agents.register("h2".to_string(), 2, "other");
    assert_eq!(agents.channel("h1"), Some(&"first"));
    assert_eq!(agents.channel("h2"), Some(&"other"));
    assert!(agents.disconnect("h1", 1));
    assert_eq!(agents.channel("h1"), None);
    assert_eq!(agents.channel("h2"), Some(&"other"));
}

#[test]
fn stale_connection_does_not_evict_a_newer_one() {
    let mut agents: Agents<&str> = Agents::new();
    agents.register("h1".to_string(), 1, "older");
    agents.register("h1".to_string(), 2, "newer");
    assert!(!agents.disconnect("h1", 1));
    assert_eq!(agents.channel("h1"), Some(&"newer"));
    assert!(!agents.disconnect("h3", 2));
    assert!(agents.disconnect("h1", 2));
    assert_eq!(agents.channel("h1"), None);
    assert!(!agents.disconnect("h1", 2));
}

#[test]
fn session_is_claimed_once() {
    let mut pending: PendingSessions<u32> = PendingSessions::new();
    pending.insert("a".to_string(), 1);
    pending.insert("b".to_string(), 2);
    pending.insert("c".to_string(), 3);
    assert_eq!(pending.claim("a"), Some(1));
    assert_eq!(pending.claim("a"), None);
    assert_eq!(pending.claim("c"), Some(3));
    assert_eq!(pending.claim("b"), Some(2));
    assert_eq!(pending.claim("x"), None);
}

#[test]
fn reopened_session_takes_the_new_slot() {
    let mut pending: PendingSessions<u32> = PendingSessions::new();
    pending.insert("a".to_string(), 1);
    pending.insert("a".to_string(), 2);
    assert_eq!(pending.claim("a"), Some(2));
    assert_eq!(pending.claim("a"), None);
}

#[test]
fn session_from_request_to_bridge() {
    let mut pending: PendingSessions<u32> = PendingSessions::new();
    let mut session = ManagerSession::open("s".to_string(), 7, &mut pending);
    assert_eq!(session.session_id(), "s");
    match session.step(ManagerEvent::LookedUp { online: true }, &mut pending) {
        ManagerAction::Notify(ControlMessage::NewConnection { session_id }) => {
            assert_eq!(session_id, "s")
        }
        _ => panic!("the agent is told"),
    }
    match session.step(ManagerEvent::Notified { delivered: true }, &mut pending) {
        ManagerAction::AwaitData { seconds } => assert_eq!(seconds, 10),
        _ => panic!("the agent is awaited"),
    }
    assert_eq!(pending.claim("s"), Some(7));
    assert!(matches!(
        session.step(ManagerEvent::DialedBack { arrived: true }, &mut pending),
        ManagerAction::Bridge
    ));
    assert!(matches!(
        session.step(ManagerEvent::DialedBack { arrived: true }, &mut pending),
        ManagerAction::Nothing
    ));
}

fn gives_up(events: &[ManagerEvent], reason: GiveUpReason) {
    let mut pending: PendingSessions<u32> = PendingSessions::new();
    pending.insert("other".to_string(), 1);
    let mut session = ManagerSession::open("s".to_string(), 7, &mut pending);
    let mut last = ManagerAction::Nothing;
    for event in events {
        last = session.step(*event, &mut pending);
    }
    match last {
        ManagerAction::GiveUp(why) => assert_eq!(why, reason),
        _ => panic!("the session comes to nothing"),
    }
    assert_eq!(pending.claim("s"), None);
    assert_eq!(pending.claim("other"), Some(1));
}

#[test]
fn session_with_an_offline_agent_is_given_up() {
    gives_up(&[ManagerEvent::LookedUp { online: false }], GiveUpReason::AgentOffline);
}

#[test]
fn session_with_an_unreachable_agent_is_given_up() {
    gives_up(
        &[ManagerEvent::LookedUp { online: true }, ManagerEvent::Notified { delivered: false }],
        GiveUpReason::AgentUnreachable,
    );
}

#[test]
fn session_without_a_data_socket_is_given_up() {
    gives_up(
        &[
            ManagerEvent::LookedUp { online: true },
            ManagerEvent::Notified { delivered: true },
            ManagerEvent::DialedBack { arrived: false },
        ],
        GiveUpReason::NoDataSocket,
    );
}

#[test]
fn event_out_of_turn_changes_nothing() {
    let mut pending: PendingSessions<u32> = PendingSessions::new();
    let mut session = ManagerSession::open("s".to_string(), 7, &mut pending);
    assert!(matches!(
        session.step(ManagerEvent::DialedBack { arrived: false }, &mut pending),
        ManagerAction::Nothing
    ));
    assert_eq!(pending.claim("s"), Some(7));
}

#[test]
fn control_channel_reacts() {
    match control_step(ControlEvent::Message(message("s"))) {
        ControlAction::SendText(text) => {
            assert_eq!(text, r#"{"type":"new_connection","session_id":"s"}"#)
        }
        _ => panic!("a message is sent"),
    }
    assert!(matches!(control_step(ControlEvent::PingDue), ControlAction::SendPing));
    assert!(matches!(control_step(ControlEvent::Written(true)), ControlAction::Wait));
    assert!(matches!(control_step(ControlEvent::Written(false)), ControlAction::Stop));
    assert!(matches!(control_step(ControlEvent::NoMoreMessages), ControlAction::Stop));
}

#[test]
fn control_channel_listens_until_the_end() {
    assert!(keeps_listening::<u8, ()>(&Some(Ok(1))));
    assert!(!keeps_listening::<u8, ()>(&Some(Err(()))));
    assert!(!keeps_listening::<u8, ()>(&None));
}

#[test]
fn limits_are_those_documented() {
    assert_eq!(PING_SECS, 30);
    assert_eq!(CONTROL_BUFFER, 32);
    assert_eq!(DIAL_BACK_SECS, 10);
}

#[test]
fn pump_writes_what_it_reads() {
    let mut written = Vec::new();
    for event in [
        PumpEvent::Frame("a"),
        PumpEvent::Written(true),
        PumpEvent::Frame("b"),
        PumpEvent::Written(true),
        PumpEvent::Frame("a"),
        PumpEvent::Written(false),
        PumpEvent::Frame("lost"),
    ] {
        match pump_step(event) {
            PumpAction::Write(frame) => written.push(frame),
            PumpAction::Read => {}
            PumpAction::Stop => break,
        }
    }
    assert_eq!(written, vec!["a", "b", "a"]);
}

#[test]
fn pump_stops_when_a_socket_does() {
    assert!(matches!(pump_step::<u8>(PumpEvent::Ended), PumpAction::Stop));
    assert!(matches!(pump_step::<u8>(PumpEvent::ReadFailed), PumpAction::Stop));
    assert!(matches!(pump_step::<u8>(PumpEvent::Written(false)), PumpAction::Stop));
}

#[test]
fn control_channel_sends_messages_in_order() {
    let mut sent = Vec::new();
    for event in [
        ControlEvent::PingDue,
        ControlEvent::Written(true),
        ControlEvent::Message(message("a")),
        ControlEvent::Written(true),
        ControlEvent::PingDue,
        ControlEvent::Written(true),
        ControlEvent::Message(message("b")),
        ControlEvent::Written(false),
        ControlEvent::Message(message("lost")),
    ] {
        match control_step(event) {
            ControlAction::SendText(text) => sent.push(text),
            ControlAction::SendPing | ControlAction::Wait => {}
            ControlAction::Stop => break,
        }
    }
    assert_eq!(sent, vec![message("a").to_json(), message("b").to_json()]);
}

#[test]
fn dial_back_reaches_its_own_manager() {
    let mut pending: PendingSessions<&str> = PendingSessions::new();
    let first = ManagerSession::open(new_session_id(), "first", &mut pending);
    let second = ManagerSession::open(new_session_id(), "second", &mut pending);
    assert_eq!(pending.claim(second.session_id()), Some("second"));
    assert_eq!(pending.claim(first.session_id()), Some("first"));
}
