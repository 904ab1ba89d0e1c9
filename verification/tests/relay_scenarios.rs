//! End-to-end scenarios: two sessions wired to one hub through the actions
//! the library hands back, with per-client inboxes standing in for the
//! transport.

use chat_relay::hub::{ChatServer, Connect, Delivery, HandleToken};
use chat_relay::session::{Action, Frame, HeartbeatAction, SessionState, WsChatSession};

struct Harness {
    hub: ChatServer,
    /// One inbox per handle token: the text frames pushed to that client.
    inboxes: Vec<Vec<String>>,
}

impl Harness {
    fn new() -> Harness {
        Harness { hub: ChatServer::new(), inboxes: Vec::new() }
    }

    fn connect(&mut self, username: &str, now: u64) -> WsChatSession {
        let addr: HandleToken = self.inboxes.len() as HandleToken;
        self.inboxes.push(Vec::new());
        let mut session = WsChatSession::new(username.to_string(), now);
        let id = self.hub.connect(Connect { addr });
        session.activate(id);
        session
    }

    fn deliver(&mut self, deliveries: Vec<Delivery>) {
        for d in deliveries {
            self.inboxes[d.addr as usize].push(d.msg.0);
        }
    }

    /// Feed a frame to a session and carry out every returned action.
    fn feed(&mut self, session: &mut WsChatSession, frame: Frame, now: u64) {
        let actions = session.handle_frame(frame, now);
        for action in actions {
            match action {
                Action::HubRelay(m) => {
                    let out = self.hub.send_message(m.conversation, &m.msg, m.id);
                    self.deliver(out);
                }
                Action::HubJoin(j) => self.hub.join(j),
                Action::Send(text) => {
                    // An acknowledgment goes to the session's own client.
                    let addr = self.addr_of(session);
                    self.inboxes[addr].push(text);
                }
                Action::Pong(_) | Action::EchoClose => {}
                Action::Stop => {
                    let d = session.stopping();
                    self.hub.disconnect(d);
                }
            }
        }
    }

    fn tick(&mut self, session: &mut WsChatSession, now: u64) {
        match session.heartbeat_tick(now) {
            HeartbeatAction::Ping => {}
            HeartbeatAction::Evict(d) => {
                self.hub.disconnect(d);
            }
        }
    }

    fn addr_of(&self, session: &WsChatSession) -> usize {
        // Handle tokens were handed out in connection order, as were ids.
        session.id
    }

    fn inbox(&self, session: &WsChatSession) -> &Vec<String> {
        &self.inboxes[self.addr_of(session)]
    }
}

#[test]
fn two_sessions_full_conversation_lifecycle() {
    let mut h = Harness::new();
    let mut s1 = h.connect("user_one", 0);
    let mut s2 = h.connect("user_two", 0);

    // S1 sends plain text: S2 receives it, S1 gets nothing back.
    h.feed(&mut s1, Frame::Text("hi".to_string()), 1);
    assert_eq!(h.inbox(&s2), &vec!["hi".to_string()]);
    assert!(h.inbox(&s1).is_empty());

    // S1 joins conversation 42 and is acknowledged.
    h.feed(&mut s1, Frame::Text("/join 42".to_string()), 2);
    assert_eq!(s1.conversation_id, 42);
    assert_eq!(
        h.inbox(&s1),
        &vec!["{\"JoinStatus\":{\"success\":true}}".to_string()]
    );

    // S2, still in the default conversation, speaks into the void: S1 has
    // left roster 0, and nobody else is there.
    h.feed(&mut s2, Frame::Text("hello".to_string()), 3);
    assert_eq!(h.inbox(&s1).len(), 1);
    assert_eq!(h.inbox(&s2).len(), 1);

    // S1 sends a malformed join: an invalid-request indicator comes back
    // and its membership stands unchanged.
    h.feed(&mut s1, Frame::Text("/join notanumber".to_string()), 4);
    assert_eq!(s1.conversation_id, 42);
    assert_eq!(h.inbox(&s1).len(), 2);
    assert_eq!(h.inbox(&s1)[1], "\"InvalidRequest\"");
    h.feed(&mut s2, Frame::Text("/join 42".to_string()), 5);
    h.feed(&mut s2, Frame::Text("did you join?".to_string()), 6);
    assert_eq!(h.inbox(&s1).len(), 3);
    assert_eq!(h.inbox(&s1)[2], "did you join?");

    // S1 goes silent for 11 time-units: the next tick evicts it, and later
    // relays into conversation 42 no longer reach it.
    let last_heard = s1.hb;
    h.tick(&mut s1, last_heard + 11);
    assert!(matches!(s1.state, SessionState::Closing));
    h.feed(&mut s2, Frame::Text("anyone left?".to_string()), 20);
    assert_eq!(h.inbox(&s1).len(), 3);
}

#[test]
fn close_frame_disconnects_from_hub() {
    let mut h = Harness::new();
    let mut s1 = h.connect("user_one", 0);
    let mut s2 = h.connect("user_two", 0);

    h.feed(&mut s1, Frame::Close, 1);
    assert!(matches!(s1.state, SessionState::Closed));

    // With S1 gone, S2's messages reach nobody.
    h.feed(&mut s2, Frame::Text("gone already?".to_string()), 2);
    assert!(h.inbox(&s1).is_empty());
}
