//! The routing hub: the single owner of the connection registry and of the
//! conversation rosters.
//!
//! All mutation goes through `ChatServer`'s handler methods, one request at a
//! time; the caller provides the serialization (a mailbox loop or a lock).
//! The hub stores one record per live connection — its id, the token of its
//! outbound handle, and the conversation it currently sits in — so a
//! connection belongs to at most one roster by construction.

use vstd::prelude::*;

verus! {

use crate::DEFAULT_CONVERSATION;

/// Token for a connection's outbound handle. The hub never sends itself: it
/// hands tokens back to the transport layer, which owns the real sinks and
/// resolves tokens to them.
pub type HandleToken = u64;

/// Outbound text frame for one connection, as produced by a relay request.
pub struct Message(pub String);

/// Request: a new connection registers its handle and is assigned an id.
pub struct Connect {
    pub addr: HandleToken,
}

/// Request: the connection `id` is gone; forget it everywhere.
pub struct Disconnect {
    pub id: usize,
}

/// Request: fan a text message out to the sender's conversation.
pub struct ClientMessage {
    /// Id of the sending connection; it must not receive its own message.
    pub id: usize,
    /// The message text.
    pub msg: String,
    /// The conversation to deliver into.
    pub conversation: i64,
}

/// Request: move the connection `id` into another conversation.
pub struct Join {
    pub id: usize,
    pub conversation_id: i64,
}

/// What the hub knows about one registered connection.
pub ghost struct PeerInfo {
    pub addr: HandleToken,
    pub conversation_id: i64,
}

/// Abstract state of the hub: the registry as a map from connection id to
/// peer record, plus the id counter that keeps fresh ids unique.
pub ghost struct HubView {
    pub table: Map<usize, PeerInfo>,
    pub next: nat,
}

impl HubView {
    /// Ids may only be handed out once: everything registered lies below the
    /// counter, and the table is finite (it mirrors a finite registry).
    pub open spec fn wf(self) -> bool {
        &&& self.table.dom().finite()
        &&& forall|id: usize| self.table.dom().contains(id) ==> (id as nat) < self.next
    }

    /// The roster of conversation `c`: every registered connection currently
    /// sitting in `c`.
    pub open spec fn roster(self, c: i64) -> Set<usize> {
        self.table.dom().filter(|id: usize| self.table[id].conversation_id == c)
    }

    /// The set of registered connection ids (the domain of `connections`).
    pub open spec fn connected(self) -> Set<usize> {
        self.table.dom()
    }
}

/// The state and the ids after a whole run of `Connect` requests, one per
/// handle in `addrs`, in order, with nothing else in between.
pub open spec fn spec_connect_all(v: HubView, addrs: Seq<HandleToken>) -> (HubView, Seq<usize>)
    decreases addrs.len(),
{
    if addrs.len() == 0 {
        (v, Seq::empty())
    } else {
        let (v1, ids) = spec_connect_all(v, addrs.drop_last());
        let (v2, id) = spec_connect(v1, addrs.last());
        (v2, ids.push(id))
    }
}

/// A single `Connect` keeps the hub well-formed and hands out an id that no
/// registered connection holds.
pub proof fn lemma_connect_fresh(v: HubView, addr: HandleToken)
    requires
        v.wf(),
        v.next < usize::MAX,
    ensures
        spec_connect(v, addr).0.wf(),
        !v.table.dom().contains(spec_connect(v, addr).1),
        spec_connect(v, addr).0.next == v.next + 1,
{
}

/// Uniqueness: a run of `Connect` requests with no `Disconnect` in between
/// returns pairwise distinct ids — each one is the counter's value at its
/// turn, and the counter only climbs.
pub proof fn lemma_connect_ids_distinct(v: HubView, addrs: Seq<HandleToken>)
    requires
        v.wf(),
        v.next + addrs.len() <= usize::MAX,
    ensures
        spec_connect_all(v, addrs).0.wf(),
        spec_connect_all(v, addrs).0.next == v.next + addrs.len(),
        spec_connect_all(v, addrs).1.len() == addrs.len(),
        forall|k: int|
            0 <= k < addrs.len() ==> spec_connect_all(v, addrs).1[k] == ((v.next + k) as usize),
        forall|k: int, l: int|
            0 <= k < l < addrs.len() ==> spec_connect_all(v, addrs).1[k] != spec_connect_all(
                v,
                addrs,
            ).1[l],
    decreases addrs.len(),
{
    if addrs.len() > 0 {
        lemma_connect_ids_distinct(v, addrs.drop_last());
        let (v1, ids) = spec_connect_all(v, addrs.drop_last());
        lemma_connect_fresh(v1, addrs.last());
    }
}

/// Single-roster invariant: a registered connection sits in exactly the
/// roster of its current conversation; an unregistered id sits in none.
pub proof fn lemma_single_roster(v: HubView, id: usize)
    ensures
        v.connected().contains(id) ==> forall|c: i64|
            v.roster(c).contains(id) <==> c == v.table[id].conversation_id,
        !v.connected().contains(id) ==> forall|c: i64| !v.roster(c).contains(id),
{
}

/// The state after a whole run of `Join` requests, in order.
pub open spec fn spec_join_all(v: HubView, joins: Seq<(usize, i64)>) -> HubView
    decreases joins.len(),
{
    if joins.len() == 0 {
        v
    } else {
        spec_join(spec_join_all(v, joins.drop_last()), joins.last().0, joins.last().1)
    }
}

/// Single-roster invariant under any run of joins: a registered connection
/// stays registered through every `Join` request, and afterwards sits in
/// exactly one roster — that of its current conversation.
pub proof fn lemma_joins_single_roster(v: HubView, joins: Seq<(usize, i64)>, id: usize)
    requires
        v.connected().contains(id),
    ensures
        spec_join_all(v, joins).connected().contains(id),
        forall|c: i64|
            spec_join_all(v, joins).roster(c).contains(id) <==> c == spec_join_all(
                v,
                joins,
            ).table[id].conversation_id,
    decreases joins.len(),
{
    if joins.len() > 0 {
        lemma_joins_single_roster(v, joins.drop_last(), id);
        lemma_join_keeps_registry(
            spec_join_all(v, joins.drop_last()),
            joins.last().0,
            joins.last().1,
        );
    }
    lemma_single_roster(spec_join_all(v, joins), id);
}

/// `Join` neither registers nor unregisters anybody: the set of connected
/// ids is untouched, whatever ids the request names.
pub proof fn lemma_join_keeps_registry(v: HubView, id: usize, c: i64)
    ensures
        spec_join(v, id, c).connected() == v.connected(),
        spec_join(v, id, c).next == v.next,
{
    assert(spec_join(v, id, c).connected() =~= v.connected());
}

/// Disconnect completeness: afterwards the id is absent from the registry
/// and from every roster, and disconnecting it again changes nothing.
pub proof fn lemma_disconnect_complete(v: HubView, id: usize)
    ensures
        !spec_disconnect(v, id).connected().contains(id),
        forall|c: i64| !spec_disconnect(v, id).roster(c).contains(id),
        spec_disconnect(spec_disconnect(v, id), id) == spec_disconnect(v, id),
{
    assert(spec_disconnect(v, id).table.remove(id) =~= spec_disconnect(v, id).table);
}

/// Once a connection is disconnected, no relay into any conversation reaches
/// it any more: it is in no recipient set, whoever sends.
pub proof fn lemma_no_delivery_after_disconnect(
    v: HubView,
    id: usize,
    conversation_id: i64,
    skip_id: usize,
)
    ensures
        !spec_recipients(spec_disconnect(v, id), conversation_id, skip_id).contains(id),
{
}

/// Relay exclusion, at the level of the recipient set: the sender is never
/// among the recipients, and everybody else in the roster is.
pub proof fn lemma_relay_exclusion(v: HubView, conversation_id: i64, skip_id: usize)
    ensures
        !spec_recipients(v, conversation_id, skip_id).contains(skip_id),
        forall|id: usize|
            v.roster(conversation_id).contains(id) && id != skip_id ==> spec_recipients(
                v,
                conversation_id,
                skip_id,
            ).contains(id),
{
}

/// Join round-trip: joining `a` and then `b` leaves a registered connection
/// in `b`'s roster and out of `a`'s, for distinct conversations.
pub proof fn lemma_join_round_trip(v: HubView, id: usize, a: i64, b: i64)
    requires
        v.connected().contains(id),
        a != b,
    ensures
        spec_join(spec_join(v, id, a), id, b).roster(b).contains(id),
        !spec_join(spec_join(v, id, a), id, b).roster(a).contains(id),
{
}

/// One registered connection, as stored by the hub.
struct Entry {
    id: usize,
    addr: HandleToken,
    conversation_id: i64,
}

impl Entry {
    spec fn peer(self) -> PeerInfo {
        PeerInfo { addr: self.addr, conversation_id: self.conversation_id }
    }
}

/// The table a sequence of entries stands for: later entries win, though the
/// hub keeps ids distinct so no overwrite ever happens.
spec fn entries_table(s: Seq<Entry>) -> Map<usize, PeerInfo>
    decreases s.len(),
{
    if s.len() == 0 {
        Map::empty()
    } else {
        entries_table(s.drop_last()).insert(s.last().id, s.last().peer())
    }
}

spec fn entries_distinct(s: Seq<Entry>) -> bool {
    forall|i: int, j: int| 0 <= i < j < s.len() ==> s[i].id != s[j].id
}

/// The table's domain is exactly the set of ids in the sequence, and finite.
proof fn lemma_table_dom(s: Seq<Entry>)
    ensures
        entries_table(s).dom().finite(),
        forall|id: usize|
            entries_table(s).dom().contains(id) <==> exists|i: int|
                0 <= i < s.len() && s[i].id == id,
    decreases s.len(),
{
    if s.len() == 0 {
    } else {
        lemma_table_dom(s.drop_last());
        assert forall|id: usize| entries_table(s).dom().contains(id) implies exists|i: int|
            0 <= i < s.len() && s[i].id == id by {
            if id == s.last().id {
                assert(s[s.len() - 1].id == id);
            } else {
                let i = choose|i: int| 0 <= i < s.drop_last().len() && s.drop_last()[i].id == id;
                assert(s[i].id == id);
            }
        }
        assert forall|id: usize|
            (exists|i: int| 0 <= i < s.len() && s[i].id == id) implies entries_table(
            s,
        ).dom().contains(id) by {
            let i = choose|i: int| 0 <= i < s.len() && s[i].id == id;
            if i < s.len() - 1 {
                assert(s.drop_last()[i].id == id);
            }
        }
    }
}

/// With distinct ids, each entry is found in the table unchanged.
proof fn lemma_table_at(s: Seq<Entry>, i: int)
    requires
        entries_distinct(s),
        0 <= i < s.len(),
    ensures
        entries_table(s).dom().contains(s[i].id),
        entries_table(s)[s[i].id] == s[i].peer(),
    decreases s.len(),
{
    if i == s.len() - 1 {
    } else {
        assert(s.drop_last()[i] == s[i]);
        lemma_table_at(s.drop_last(), i);
        assert(s[i].id != s.last().id);
    }
}

/// Appending a fresh entry inserts it into the table.
proof fn lemma_table_push(s: Seq<Entry>, e: Entry)
    ensures
        entries_table(s.push(e)) == entries_table(s).insert(e.id, e.peer()),
{
    assert(s.push(e).drop_last() =~= s);
    assert(s.push(e).last() == e);
}

/// Removing the entry at `i` removes its id from the table.
proof fn lemma_table_remove(s: Seq<Entry>, i: int)
    requires
        entries_distinct(s),
        0 <= i < s.len(),
    ensures
        entries_table(s.remove(i)) == entries_table(s).remove(s[i].id),
    decreases s.len(),
{
    let id = s[i].id;
    if i == s.len() - 1 {
        assert(s.remove(i) =~= s.drop_last());
        lemma_table_dom(s.drop_last());
        assert(!entries_table(s.drop_last()).dom().contains(id));
        assert(entries_table(s.drop_last()) =~= entries_table(s.drop_last()).insert(
            id,
            s[i].peer(),
        ).remove(id));
    } else {
        let t = s.drop_last();
        assert(s.remove(i).drop_last() =~= t.remove(i));
        assert(s.remove(i).last() == s.last());
        lemma_table_remove(t, i);
        assert(t[i] == s[i]);
        assert(s.last().id != id);
        assert(entries_table(t.remove(i)).insert(s.last().id, s.last().peer()) =~= entries_table(
            t,
        ).insert(s.last().id, s.last().peer()).remove(id));
    }
}

/// Overwriting the entry at `i` with one of the same id updates the table at
/// that id.
proof fn lemma_table_update(s: Seq<Entry>, i: int, e: Entry)
    requires
        entries_distinct(s),
        0 <= i < s.len(),
        e.id == s[i].id,
    ensures
        entries_table(s.update(i, e)) == entries_table(s).insert(e.id, e.peer()),
    decreases s.len(),
{
    if i == s.len() - 1 {
        assert(s.update(i, e).drop_last() =~= s.drop_last());
        assert(s.update(i, e).last() == e);
        assert(entries_table(s.drop_last()).insert(e.id, e.peer()) =~= entries_table(
            s.drop_last(),
        ).insert(s[i].id, s[i].peer()).insert(e.id, e.peer()));
    } else {
        let t = s.drop_last();
        assert(s.update(i, e).drop_last() =~= t.update(i, e));
        assert(s.update(i, e).last() == s.last());
        lemma_table_update(t, i, e);
        assert(t[i] == s[i]);
        assert(s.last().id != e.id);
        assert(entries_table(t).insert(e.id, e.peer()).insert(s.last().id, s.last().peer())
            =~= entries_table(t).insert(s.last().id, s.last().peer()).insert(e.id, e.peer()));
    }
}

/// The hub. It owns the routing tables; peers never touch them directly.
pub struct ChatServer {
    entries: Vec<Entry>,
    next_id: usize,
}

impl View for ChatServer {
    type V = HubView;

    closed spec fn view(&self) -> HubView {
        HubView { table: entries_table(self.entries@), next: self.next_id as nat }
    }
}

/// One outbound push produced by a relay request: which connection receives,
/// through which handle, and the frame itself.
pub struct Delivery {
    pub id: usize,
    pub addr: HandleToken,
    pub msg: Message,
}

/// Who a relay into `conversation_id` reaches: every registered member of
/// that conversation's roster except the sender.
pub open spec fn spec_recipients(v: HubView, conversation_id: i64, skip_id: usize) -> Set<usize> {
    v.roster(conversation_id).remove(skip_id)
}

/// What `Connect` does to the hub state, and the id it hands back: the
/// counter's value becomes the fresh id, the connection lands in the default
/// conversation, and the counter moves past it.
pub open spec fn spec_connect(v: HubView, addr: HandleToken) -> (HubView, usize) {
    let id = v.next as usize;
    (
        HubView {
            table: v.table.insert(
                id,
                PeerInfo { addr, conversation_id: DEFAULT_CONVERSATION },
            ),
            next: v.next + 1,
        },
        id,
    )
}

/// What `Disconnect` does: the id is dropped from the registry — and with it
/// from its roster, the only one holding it. Dropping an absent id changes
/// nothing.
pub open spec fn spec_disconnect(v: HubView, id: usize) -> HubView {
    HubView { table: v.table.remove(id), next: v.next }
}

/// What `Join` does: a registered connection moves to conversation `c`,
/// leaving the roster it was in; an unregistered id is ignored, so no roster
/// ever holds an id without a registry entry.
pub open spec fn spec_join(v: HubView, id: usize, c: i64) -> HubView {
    if v.table.dom().contains(id) {
        HubView {
            table: v.table.insert(
                id,
                PeerInfo { addr: v.table[id].addr, conversation_id: c },
            ),
            next: v.next,
        }
    } else {
        v
    }
}

impl ChatServer {
    /// No entry's id repeats, and every id lies below the counter.
    pub closed spec fn wf(self) -> bool {
        &&& entries_distinct(self.entries@)
        &&& forall|i: int|
            0 <= i < self.entries@.len() ==> self.entries@[i].id < self.next_id
    }

    /// The representation invariant carries over to the abstract state.
    pub proof fn lemma_wf_view(self)
        requires
            self.wf(),
        ensures
            self@.wf(),
    {
        lemma_table_dom(self.entries@);
    }

    /// A fresh hub: nobody registered, every roster empty.
    pub fn new() -> (s: ChatServer)
        ensures
            s.wf(),
            s@.wf(),
            s@.table == Map::<usize, PeerInfo>::empty(),
            s@.next == 0,
    {
        let s = ChatServer { entries: Vec::new(), next_id: 0 };
        proof {
            assert(s@.table =~= Map::<usize, PeerInfo>::empty());
        }
        s
    }

    /// Whether another connection can still be registered: the id counter
    /// has not run out. Callers outside the proof test this before
    /// `connect`.
    pub fn can_accept(&self) -> (b: bool)
        ensures
            b <==> self@.next < usize::MAX,
    {
        self.next_id < usize::MAX
    }

    /// Index of the entry registered under `id`, if any.
    fn find_index(&self, id: usize) -> (r: Option<usize>)
        ensures
            match r {
                Some(i) => i < self.entries@.len() && self.entries@[i as int].id == id,
                None => forall|i: int|
                    0 <= i < self.entries@.len() ==> self.entries@[i].id != id,
            },
    {
        let mut i: usize = 0;
        while i < self.entries.len()
            invariant
                i <= self.entries@.len(),
                forall|j: int| 0 <= j < i ==> self.entries@[j].id != id,
            decreases self.entries@.len() - i,
        {
            if self.entries[i].id == id {
                return Some(i);
            }
            i = i + 1;
        }
        None
    }

    /// Register a new connection: hand out a fresh id — fresh among every id
    /// ever handed out, so among the registered ones too — store its handle,
    /// and put it into the default conversation.
    pub fn connect(&mut self, msg: Connect) -> (id: usize)
        requires
            old(self).wf(),
            old(self)@.next < usize::MAX,
        ensures
            final(self).wf(),
            final(self)@ == spec_connect(old(self)@, msg.addr).0,
            id == spec_connect(old(self)@, msg.addr).1,
            !old(self)@.table.dom().contains(id),
    {
        proof {
            self.lemma_wf_view();
        }
        let id = self.next_id;
        let ghost prior = self.entries@;
        self.entries.push(Entry { id, addr: msg.addr, conversation_id: DEFAULT_CONVERSATION });
        self.next_id = self.next_id + 1;
        proof {
            lemma_table_push(
                prior,
                Entry { id, addr: msg.addr, conversation_id: DEFAULT_CONVERSATION },
            );
        }
        id
    }

    /// Unregister a connection: its registry entry goes, and with it its
    /// roster membership. Disconnecting an id that is not registered — or
    /// disconnecting twice — is a no-op, not an error.
    pub fn disconnect(&mut self, msg: Disconnect)
        requires
            old(self).wf(),
        ensures
            final(self).wf(),
            final(self)@ == spec_disconnect(old(self)@, msg.id),
    {
        match self.find_index(msg.id) {
            Some(i) => {
                let ghost prior = self.entries@;
                self.entries.remove(i);
                proof {
                    lemma_table_remove(prior, i as int);
                    assert(self.entries@ =~= prior.remove(i as int));
                }
            },
            None => {
                proof {
                    lemma_table_dom(self.entries@);
                    assert(entries_table(self.entries@).remove(msg.id) =~= entries_table(
                        self.entries@,
                    ));
                }
            },
        }
    }

    /// Move a registered connection into conversation `conversation_id`: it
    /// leaves whatever roster held it and enters the target's, which exists
    /// from then on. A join for an unregistered id is ignored. The hub
    /// checks no membership legitimacy: whether the identity behind the
    /// connection may join this conversation is the caller's policy
    /// decision, made against the storage layer before the request is
    /// submitted.
    pub fn join(&mut self, msg: Join)
        requires
            old(self).wf(),
        ensures
            final(self).wf(),
            final(self)@ == spec_join(old(self)@, msg.id, msg.conversation_id),
    {
        proof {
            lemma_table_dom(self.entries@);
        }
        match self.find_index(msg.id) {
            Some(i) => {
                let ghost prior = self.entries@;
                let e = Entry {
                    id: msg.id,
                    addr: self.entries[i].addr,
                    conversation_id: msg.conversation_id,
                };
                self.entries[i] = e;
                proof {
                    lemma_table_update(prior, i as int, e);
                    assert(self.entries@ =~= prior.update(i as int, e));
                    lemma_table_at(prior, i as int);
                }
            },
            None => {},
        }
    }

    /// Fan a text frame out to the conversation: one delivery for every
    /// registered member of the roster except `skip_id`, through that
    /// member's registered handle, each member once, each carrying `message`
    /// unchanged. The sender never appears among the deliveries. Pushing the
    /// frames — and swallowing pushes to peers that died meanwhile — is the
    /// transport layer's part.
    pub fn send_message(&self, conversation_id: i64, message: &str, skip_id: usize) -> (out: Vec<
        Delivery,
    >)
        requires
            self.wf(),
        ensures
            forall|k: int|
                0 <= k < out@.len() ==> {
                    &&& spec_recipients(self@, conversation_id, skip_id).contains(out@[k].id)
                    &&& out@[k].addr == self@.table[out@[k].id].addr
                    &&& out@[k].msg.0@ == message@
                },
            forall|k: int, l: int| 0 <= k < l < out@.len() ==> out@[k].id != out@[l].id,
            forall|id: usize|
                spec_recipients(self@, conversation_id, skip_id).contains(id) ==> exists|k: int|
                    0 <= k < out@.len() && out@[k].id == id,
    {
        let mut out: Vec<Delivery> = Vec::new();
        let mut i: usize = 0;
        while i < self.entries.len()
            invariant
                self.wf(),
                i <= self.entries@.len(),
                forall|k: int|
                    0 <= k < out@.len() ==> {
                        &&& spec_recipients(self@, conversation_id, skip_id).contains(out@[k].id)
                        &&& out@[k].addr == self@.table[out@[k].id].addr
                        &&& out@[k].msg.0@ == message@
                    },
                forall|k: int, j: int|
                    0 <= k < out@.len() && i <= j < self.entries@.len() ==> out@[k].id
                        != self.entries@[j].id,
                forall|k: int, l: int| 0 <= k < l < out@.len() ==> out@[k].id != out@[l].id,
                forall|j: int|
                    0 <= j < i && self.entries@[j].conversation_id == conversation_id
                        && self.entries@[j].id != skip_id ==> exists|k: int|
                        0 <= k < out@.len() && out@[k].id == self.entries@[j].id,
            decreases self.entries@.len() - i,
        {
            let ghost prev = out@;
            let e = &self.entries[i];
            if e.conversation_id == conversation_id && e.id != skip_id {
                proof {
                    lemma_table_at(self.entries@, i as int);
                }
                out.push(Delivery { id: e.id, addr: e.addr, msg: Message(message.to_owned()) });
            }
            proof {
                assert forall|j: int|
                    0 <= j < i + 1 && self.entries@[j].conversation_id == conversation_id
                        && self.entries@[j].id != skip_id implies exists|k: int|
                    0 <= k < out@.len() && out@[k].id == self.entries@[j].id by {
                    if j < i {
                        let k = choose|k: int|
                            0 <= k < prev.len() && prev[k].id == self.entries@[j].id;
                        assert(out@[k].id == self.entries@[j].id);
                    } else {
                        assert(out@[out@.len() - 1].id == self.entries@[j].id);
                    }
                }
            }
            i = i + 1;
        }
        proof {
            lemma_table_dom(self.entries@);
            assert forall|id: usize|
                spec_recipients(self@, conversation_id, skip_id).contains(id) implies exists|
                k: int,
            | 0 <= k < out@.len() && out@[k].id == id by {
                let j = choose|j: int|
                    0 <= j < self.entries@.len() && self.entries@[j].id == id;
                lemma_table_at(self.entries@, j);
            }
        }
        out
    }
}

} // verus!
