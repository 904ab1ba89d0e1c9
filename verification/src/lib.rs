//! Real-time message relay core for a chat service.
//!
//! The library verifies the routing hub (connection registry and
//! per-conversation rosters), the per-connection session state machine with
//! its heartbeat rules, the inbound command parser, and the account
//! validation rules. Network transport, persistence and HTTP routing are
//! collaborators outside this crate; they drive these components through
//! plain values.

pub mod conversation;
pub mod hub;
pub mod parser;
pub mod session;
pub mod user;

use vstd::prelude::*;

verus! {

/// The conversation every fresh connection is placed in.
pub const DEFAULT_CONVERSATION: i64 = 0;

} // verus!
