//! The per-connection session state machine.
//!
//! One session bridges one live connection to the hub. The transport layer
//! owns the socket and the timers; it feeds every inbound frame and every
//! heartbeat tick into these methods and performs the actions they return —
//! pushing frames to the client, forwarding requests to the hub, stopping
//! the connection. All decisions are made here; no caller inspects a frame
//! itself.

use vstd::prelude::*;

verus! {

use crate::DEFAULT_CONVERSATION;
use crate::hub::{ClientMessage, Disconnect, Join};
use crate::parser::{
    Command, int_literal_value, is_first_space, parse_command, parses_to_i64,
};

/// How often a heartbeat tick fires for an active session, in time-units.
pub const HEARTBEAT_INTERVAL: u64 = 5;

/// How long a client may stay silent before it is presumed dead: twice the
/// ping period, in time-units.
pub const CLIENT_TIMEOUT: u64 = 10;

/// Lifecycle of a session. It starts `Connecting`, is `Active` once the hub
/// has assigned it an id, turns `Closing` on a close frame, a protocol
/// violation, a transport error or a heartbeat timeout, and is `Closed`
/// after its `Disconnect` has been issued.
#[derive(Clone, Copy, Debug, PartialEq, Eq, Structural)]
pub enum SessionState {
    Connecting,
    Active,
    Closing,
    Closed,
}

/// An inbound frame, as the transport hands it over.
pub enum Frame {
    /// Client ping with its payload; answered with a pong carrying the same.
    Ping(Vec<u8>),
    /// Client pong; refreshes the heartbeat and nothing more.
    Pong(Vec<u8>),
    /// A text frame: a command or a chat message.
    Text(String),
    /// The client closes the connection.
    Close,
    /// A continuation frame: unsupported, a protocol violation.
    Continuation,
    /// Any other frame kind; ignored.
    Other,
}

/// Structured acknowledgment sent back to this session's own client.
pub enum WebsocketResponse {
    /// Outcome of a join command.
    JoinStatus { success: bool },
    /// The frame was not a well-formed command.
    InvalidRequest,
}

/// The acknowledgment as the text frame that goes over the wire.
pub open spec fn response_text_spec(r: WebsocketResponse) -> Seq<char> {
    match r {
        WebsocketResponse::JoinStatus { success } => if success {
            "{\"JoinStatus\":{\"success\":true}}"@
        } else {
            "{\"JoinStatus\":{\"success\":false}}"@
        },
        WebsocketResponse::InvalidRequest => "\"InvalidRequest\""@,
    }
}

/// Render an acknowledgment as its wire text.
pub fn response_text(r: &WebsocketResponse) -> (t: String)
    ensures
        t@ == response_text_spec(*r),
{
    match r {
        WebsocketResponse::JoinStatus { success } => if *success {
            "{\"JoinStatus\":{\"success\":true}}".to_owned()
        } else {
            "{\"JoinStatus\":{\"success\":false}}".to_owned()
        },
        WebsocketResponse::InvalidRequest => "\"InvalidRequest\"".to_owned(),
    }
}

/// What the transport layer must do after a session handled an event.
pub enum Action {
    /// Push a pong frame with this payload to the client.
    Pong(Vec<u8>),
    /// Push a text frame to the client.
    Send(String),
    /// Forward a join request to the hub.
    HubJoin(Join),
    /// Forward a chat message to the hub for fan-out.
    HubRelay(ClientMessage),
    /// Echo the close frame back to the client.
    EchoClose,
    /// Stop the connection; the transport then reports `stopping`, which
    /// yields the `Disconnect` for the hub.
    Stop,
}

/// One live connection's session.
pub struct WsChatSession {
    /// Id the hub assigned at registration; meaningless while `Connecting`.
    pub id: usize,
    /// Time of the last observed heartbeat (ping or pong), in time-units.
    pub hb: u64,
    /// The conversation this session currently relays into.
    pub conversation_id: i64,
    /// The authenticated identity, as the collaborator auth layer supplied it.
    pub username: String,
    /// Where in its lifecycle this session stands.
    pub state: SessionState,
}

/// `post` is `pre` with the heartbeat refreshed to `now`.
pub open spec fn refreshed(pre: WsChatSession, post: WsChatSession, now: u64) -> bool {
    &&& post.id == pre.id
    &&& post.hb == now
    &&& post.conversation_id == pre.conversation_id
    &&& post.username == pre.username
    &&& post.state == pre.state
}

/// `post` is `pre` moved into conversation `c`.
pub open spec fn moved_to(pre: WsChatSession, post: WsChatSession, c: i64) -> bool {
    &&& post.id == pre.id
    &&& post.hb == pre.hb
    &&& post.conversation_id == c
    &&& post.username == pre.username
    &&& post.state == pre.state
}

/// `post` is `pre` on its way out.
pub open spec fn turned_closing(pre: WsChatSession, post: WsChatSession) -> bool {
    &&& post.id == pre.id
    &&& post.hb == pre.hb
    &&& post.conversation_id == pre.conversation_id
    &&& post.username == pre.username
    &&& post.state == SessionState::Closing
}

/// The one action answering an ill-formed command: an invalid-request
/// acknowledgment to the client, the connection kept.
pub open spec fn is_invalid_reply(out: Seq<Action>) -> bool {
    &&& out.len() == 1
    &&& out[0] matches Action::Send(t) && t@ == response_text_spec(
        WebsocketResponse::InvalidRequest,
    )
}

/// What a slash-prefixed text frame with its first space at `i` must have
/// done: a well-formed `/join` moved the session into the named
/// conversation, told the hub, and acknowledged success in that order;
/// anything else left the session alone and drew an invalid-request reply.
pub open spec fn slash_command_outcome(
    pre: WsChatSession,
    post: WsChatSession,
    out: Seq<Action>,
    s: Seq<char>,
    i: int,
) -> bool {
    let tail = s.subrange(i + 1, s.len() as int);
    if s.subrange(0, i) == "/join"@ && parses_to_i64(tail) {
        &&& moved_to(pre, post, int_literal_value(tail) as i64)
        &&& out.len() == 2
        &&& out[0] matches Action::HubJoin(j) && j.id == pre.id && j.conversation_id as int
            == int_literal_value(tail)
        &&& out[1] matches Action::Send(a) && a@ == response_text_spec(
            WebsocketResponse::JoinStatus { success: true },
        )
    } else {
        &&& post == pre
        &&& is_invalid_reply(out)
    }
}

/// What handling a text frame `s` must have done.
///
/// Without the slash prefix the frame is chat: one relay request to the hub,
/// naming this session as sender and its current conversation, carrying the
/// text unchanged, and the session itself untouched. With the prefix but no
/// space there is no argument, so the reply is invalid-request; with a first
/// space at `i`, `slash_command_outcome` tells the two cases apart.
pub open spec fn text_frame_outcome(
    pre: WsChatSession,
    post: WsChatSession,
    out: Seq<Action>,
    s: Seq<char>,
) -> bool {
    &&& (!(s.len() > 0 && s[0] == '/') ==> {
        &&& post == pre
        &&& out.len() == 1
        &&& out[0] matches Action::HubRelay(m) && m.id == pre.id && m.msg@ == s
            && m.conversation == pre.conversation_id
    })
    &&& ((s.len() > 0 && s[0] == '/' && (forall|j: int| 0 <= j < s.len() ==> s[j] != ' '))
        ==> {
        &&& post == pre
        &&& is_invalid_reply(out)
    })
    &&& (forall|i: int|
        s.len() > 0 && s[0] == '/' && is_first_space(s, i) ==> slash_command_outcome(
            pre,
            post,
            out,
            s,
            i,
        ))
}

/// The session has outlived its timeout: no heartbeat within the last
/// `CLIENT_TIMEOUT` time-units.
pub open spec fn heartbeat_expired(hb: u64, now: u64) -> bool {
    now - hb > CLIENT_TIMEOUT
}

/// What a heartbeat tick decides.
pub enum HeartbeatAction {
    /// The client is current: probe it with a ping.
    Ping,
    /// The client is presumed dead: stop, and hand this to the hub.
    Evict(Disconnect),
}

/// Heartbeat eviction: a session that falls silent is caught within one
/// timeout window plus one tick period of its last observed heartbeat.
///
/// `ts` are the times of consecutive heartbeat ticks, at most
/// `HEARTBEAT_INTERVAL` apart, beginning while the session was still within
/// its timeout and running past the deadline. Some tick then finds the
/// heartbeat expired — `heartbeat_tick` at that moment returns the
/// `Disconnect` — and that tick comes no later than
/// `hb + CLIENT_TIMEOUT + HEARTBEAT_INTERVAL`. Once the hub has processed
/// the `Disconnect`, `lemma_no_delivery_after_disconnect` rules the session
/// out of every later relay.
pub proof fn lemma_heartbeat_eviction(hb: u64, ts: Seq<u64>)
    requires
        ts.len() > 0,
        forall|k: int| 0 <= k < ts.len() - 1 ==> #[trigger] ts[k] <= ts[k + 1] <= ts[k] + HEARTBEAT_INTERVAL,
        ts[0] <= hb + CLIENT_TIMEOUT,
        ts.last() > hb + CLIENT_TIMEOUT,
    ensures
        exists|k: int|
            0 <= k < ts.len() && heartbeat_expired(hb, ts[k]) && ts[k] <= hb + CLIENT_TIMEOUT
                + HEARTBEAT_INTERVAL,
    decreases ts.len(),
{
    if ts.len() == 1 {
        assert(false);
    } else if ts[1] > hb + CLIENT_TIMEOUT {
        assert(hb <= ts[1]);
        assert(heartbeat_expired(hb, ts[1]) && ts[1] <= hb + CLIENT_TIMEOUT
            + HEARTBEAT_INTERVAL);
    } else {
        let rest = ts.drop_first();
        assert forall|k: int| 0 <= k < rest.len() - 1 implies #[trigger] rest[k] <= rest[k + 1]
            <= rest[k] + HEARTBEAT_INTERVAL by {
            assert(ts[k + 1] <= ts[k + 2] <= ts[k + 1] + HEARTBEAT_INTERVAL);
        }
        assert(rest.last() == ts.last());
        lemma_heartbeat_eviction(hb, rest);
        let k = choose|k: int|
            0 <= k < rest.len() && heartbeat_expired(hb, rest[k]) && rest[k] <= hb
                + CLIENT_TIMEOUT + HEARTBEAT_INTERVAL;
        assert(ts[k + 1] == rest[k]);
    }
}

impl WsChatSession {
    /// A session for a freshly accepted connection: not yet registered,
    /// heartbeat current as of `now`, aimed at the default conversation.
    pub fn new(username: String, now: u64) -> (s: WsChatSession)
        ensures
            s.id == 0,
            s.hb == now,
            s.conversation_id == DEFAULT_CONVERSATION,
            s.username == username,
            s.state == SessionState::Connecting,
    {
        WsChatSession {
            id: 0,
            hb: now,
            conversation_id: DEFAULT_CONVERSATION,
            username,
            state: SessionState::Connecting,
        }
    }

    /// Registration came back: adopt the id the hub assigned and go active.
    pub fn activate(&mut self, id: usize)
        requires
            old(self).state == SessionState::Connecting,
        ensures
            final(self).id == id,
            final(self).hb == old(self).hb,
            final(self).conversation_id == old(self).conversation_id,
            final(self).username == old(self).username,
            final(self).state == SessionState::Active,
    {
        self.id = id;
        self.state = SessionState::Active;
    }

    /// The transport failed; no more frames will be processed.
    pub fn on_transport_error(&mut self)
        ensures
            turned_closing(*old(self), *final(self)),
    {
        self.state = SessionState::Closing;
    }

    /// The connection is coming down, for whatever reason: unregister with
    /// the hub. The returned `Disconnect` names this session.
    pub fn stopping(&mut self) -> (d: Disconnect)
        ensures
            d.id == old(self).id,
            final(self).id == old(self).id,
            final(self).hb == old(self).hb,
            final(self).conversation_id == old(self).conversation_id,
            final(self).username == old(self).username,
            final(self).state == SessionState::Closed,
    {
        self.state = SessionState::Closed;
        Disconnect { id: self.id }
    }

    /// Handle one inbound frame at time `now`.
    ///
    /// Pings and pongs refresh the heartbeat, a ping is answered with a pong
    /// carrying its payload. A text frame is parsed: a chat message is
    /// forwarded to the hub for fan-out into this session's current
    /// conversation; a well-formed join moves the session — locally and at
    /// the hub — and acknowledges success; any other slash-prefixed frame
    /// draws an invalid-request acknowledgment and nothing else changes. A
    /// close frame is echoed and brings the session down; a continuation
    /// frame is a protocol violation and brings it down unechoed; other
    /// frame kinds are ignored.
    pub fn handle_frame(&mut self, frame: Frame, now: u64) -> (out: Vec<Action>)
        requires
            old(self).state == SessionState::Active,
        ensures
            frame matches Frame::Ping(p) ==> {
                &&& refreshed(*old(self), *final(self), now)
                &&& out@.len() == 1
                &&& out@[0] matches Action::Pong(q) && q@ == p@
            },
            frame matches Frame::Pong(_) ==> {
                &&& refreshed(*old(self), *final(self), now)
                &&& out@.len() == 0
            },
            frame matches Frame::Text(t) ==> text_frame_outcome(
                *old(self),
                *final(self),
                out@,
                t@,
            ),
            frame matches Frame::Close ==> {
                &&& turned_closing(*old(self), *final(self))
                &&& out@.len() == 2
                &&& out@[0] is EchoClose
                &&& out@[1] is Stop
            },
            frame is Continuation ==> {
                &&& turned_closing(*old(self), *final(self))
                &&& out@.len() == 1
                &&& out@[0] is Stop
            },
            frame is Other ==> *final(self) == *old(self) && out@.len() == 0,
    {
        let mut out: Vec<Action> = Vec::new();
        match frame {
            Frame::Ping(p) => {
                self.hb = now;
                out.push(Action::Pong(p));
            },
            Frame::Pong(_) => {
                self.hb = now;
            },
            Frame::Text(t) => {
                match parse_command(t.as_str()) {
                    Command::Chat => {
                        let m = ClientMessage {
                            id: self.id,
                            msg: t,
                            conversation: self.conversation_id,
                        };
                        out.push(Action::HubRelay(m));
                    },
                    Command::Join(conversation_id) => {
                        self.conversation_id = conversation_id;
                        out.push(
                            Action::HubJoin(Join { id: self.id, conversation_id }),
                        );
                        out.push(
                            Action::Send(
                                response_text(
                                    &WebsocketResponse::JoinStatus { success: true },
                                ),
                            ),
                        );
                    },
                    Command::Invalid => {
                        out.push(
                            Action::Send(response_text(&WebsocketResponse::InvalidRequest)),
                        );
                    },
                }
            },
            Frame::Close => {
                self.state = SessionState::Closing;
                out.push(Action::EchoClose);
                out.push(Action::Stop);
            },
            Frame::Continuation => {
                self.state = SessionState::Closing;
                out.push(Action::Stop);
            },
            Frame::Other => {},
        }
        out
    }

    /// A heartbeat tick at time `now`: if the client has been silent past
    /// the timeout, the session goes down and the hub is told to evict it —
    /// no ping is sent any more. Otherwise a ping probes the client.
    pub fn heartbeat_tick(&mut self, now: u64) -> (a: HeartbeatAction)
        requires
            old(self).state == SessionState::Active,
            old(self).hb <= now,
        ensures
            heartbeat_expired(old(self).hb, now) ==> {
                &&& a matches HeartbeatAction::Evict(d) && d.id == old(self).id
                &&& turned_closing(*old(self), *final(self))
            },
            !heartbeat_expired(old(self).hb, now) ==> {
                &&& a == HeartbeatAction::Ping
                &&& *final(self) == *old(self)
            },
    {
        if now - self.hb > CLIENT_TIMEOUT {
            self.state = SessionState::Closing;
            HeartbeatAction::Evict(Disconnect { id: self.id })
        } else {
            HeartbeatAction::Ping
        }
    }
}

} // verus!
