//! The session state machine: frame handling, command acknowledgments,
//! heartbeats and the close paths.

use chat_relay::hub::{ChatServer, Connect};
use chat_relay::session::{
    Action, Frame, HeartbeatAction, SessionState, WsChatSession, CLIENT_TIMEOUT,
    HEARTBEAT_INTERVAL,
};

fn active_session(id: usize, now: u64) -> WsChatSession {
    let mut s = WsChatSession::new("user_one".to_string(), now);
    assert!(matches!(s.state, SessionState::Connecting));
    s.activate(id);
    assert!(matches!(s.state, SessionState::Active));
    s
}

#[test]
fn new_session_defaults() {
    let s = WsChatSession::new("user_one".to_string(), 3);
    assert_eq!(s.id, 0);
    assert_eq!(s.hb, 3);
    assert_eq!(s.conversation_id, 0);
    assert_eq!(s.username, "user_one");
    assert!(matches!(s.state, SessionState::Connecting));
}

#[test]
fn ping_refreshes_heartbeat_and_pongs_payload() {
    let mut s = active_session(5, 0);
    let out = s.handle_frame(Frame::Ping(vec![1, 2, 3]), 4);
    assert_eq!(s.hb, 4);
    assert_eq!(out.len(), 1);
    assert!(matches!(&out[0], Action::Pong(p) if p == &vec![1, 2, 3]));
}

#[test]
fn pong_refreshes_heartbeat_silently() {
    let mut s = active_session(5, 0);
    let out = s.handle_frame(Frame::Pong(Vec::new()), 7);
    assert_eq!(s.hb, 7);
    assert!(out.is_empty());
}

#[test]
fn chat_text_is_relayed_to_current_conversation() {
    let mut s = active_session(5, 0);
    let out = s.handle_frame(Frame::Text("hi there".to_string()), 1);
    assert_eq!(out.len(), 1);
    match &out[0] {
        Action::HubRelay(m) => {
            assert_eq!(m.id, 5);
            assert_eq!(m.msg, "hi there");
            assert_eq!(m.conversation, 0);
        }
        other => panic!("expected a relay, got {}", kind(other)),
    }
    assert_eq!(s.conversation_id, 0);
}

#[test]
fn join_command_moves_session_and_acknowledges() {
    let mut s = active_session(5, 0);
    let out = s.handle_frame(Frame::Text("/join 42".to_string()), 1);
    assert_eq!(s.conversation_id, 42);
    assert_eq!(out.len(), 2);
    match &out[0] {
        Action::HubJoin(j) => {
            assert_eq!(j.id, 5);
            assert_eq!(j.conversation_id, 42);
        }
        other => panic!("expected a hub join, got {}", kind(other)),
    }
    match &out[1] {
        Action::Send(t) => assert_eq!(t, "{\"JoinStatus\":{\"success\":true}}"),
        other => panic!("expected an acknowledgment, got {}", kind(other)),
    }
}

#[test]
fn malformed_join_argument_is_invalid_request() {
    let mut s = active_session(5, 0);
    let out = s.handle_frame(Frame::Text("/join notanumber".to_string()), 1);
    assert_eq!(s.conversation_id, 0);
    assert!(matches!(s.state, SessionState::Active));
    assert_eq!(out.len(), 1);
    assert!(matches!(&out[0], Action::Send(t) if t == "\"InvalidRequest\""));
}

#[test]
fn unknown_command_is_invalid_request() {
    let mut s = active_session(5, 0);
    s.handle_frame(Frame::Text("/join 42".to_string()), 1);
    let out = s.handle_frame(Frame::Text("/leave 42".to_string()), 2);
    // The session stays where it was, the connection stays up.
    assert_eq!(s.conversation_id, 42);
    assert!(matches!(s.state, SessionState::Active));
    assert_eq!(out.len(), 1);
    assert!(matches!(&out[0], Action::Send(t) if t == "\"InvalidRequest\""));
}

#[test]
fn close_frame_is_echoed_and_stops() {
    let mut s = active_session(5, 0);
    let out = s.handle_frame(Frame::Close, 1);
    assert!(matches!(s.state, SessionState::Closing));
    assert_eq!(out.len(), 2);
    assert!(matches!(out[0], Action::EchoClose));
    assert!(matches!(out[1], Action::Stop));
}

#[test]
fn continuation_frame_stops_unechoed() {
    let mut s = active_session(5, 0);
    let out = s.handle_frame(Frame::Continuation, 1);
    assert!(matches!(s.state, SessionState::Closing));
    assert_eq!(out.len(), 1);
    assert!(matches!(out[0], Action::Stop));
}

#[test]
fn other_frames_are_ignored() {
    let mut s = active_session(5, 0);
    let out = s.handle_frame(Frame::Other, 9);
    assert!(out.is_empty());
    assert_eq!(s.hb, 0);
    assert!(matches!(s.state, SessionState::Active));
}

#[test]
fn stopping_yields_disconnect_for_own_id() {
    let mut s = active_session(5, 0);
    let d = s.stopping();
    assert_eq!(d.id, 5);
    assert!(matches!(s.state, SessionState::Closed));
}

#[test]
fn live_session_gets_pinged() {
    let mut s = active_session(5, 0);
    let a = s.heartbeat_tick(CLIENT_TIMEOUT);
    assert!(matches!(a, HeartbeatAction::Ping));
    assert!(matches!(s.state, SessionState::Active));
}

#[test]
fn silent_session_is_evicted_after_timeout() {
    let mut hub = ChatServer::new();
    let probe = hub.connect(Connect { addr: 9 });
    let id = hub.connect(Connect { addr: 1 });
    let mut s = active_session(id, 0);

    // Silent for 11 time-units: past the 10-unit timeout.
    let a = s.heartbeat_tick(CLIENT_TIMEOUT + 1);
    let d = match a {
        HeartbeatAction::Evict(d) => d,
        HeartbeatAction::Ping => panic!("expected eviction, got a ping"),
    };
    assert!(matches!(s.state, SessionState::Closing));
    assert_eq!(d.id, id);

    // After the hub processes the disconnect, relays no longer reach it.
    hub.disconnect(d);
    let out = hub.send_message(0, "late", probe);
    assert!(out.iter().all(|del| del.id != id));
    assert!(out.is_empty());
}

#[test]
fn activity_keeps_session_alive_past_first_window() {
    let mut s = active_session(5, 0);
    let out = s.handle_frame(Frame::Pong(Vec::new()), HEARTBEAT_INTERVAL);
    assert!(out.is_empty());
    // 11 units after start, but only 6 after the pong: still alive.
    let a = s.heartbeat_tick(CLIENT_TIMEOUT + 1);
    assert!(matches!(a, HeartbeatAction::Ping));
    assert!(matches!(s.state, SessionState::Active));
}

fn kind(a: &Action) -> &'static str {
    match a {
        Action::Pong(_) => "a pong",
        Action::Send(_) => "a send",
        Action::HubJoin(_) => "a hub join",
        Action::HubRelay(_) => "a hub relay",
        Action::EchoClose => "a close echo",
        Action::Stop => "a stop",
    }
}
