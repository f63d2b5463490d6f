//! The connection registry and the relay router.
//!
//! The registry maps an authenticated identity to the sender of its promoted
//! transport. The router pairs each relayed request with the tunnel of its
//! identity and hands every caller's reply channel back exactly once.
//!
//! Nothing here awaits. The caller promotes connections and forwards
//! requests, and reports what came of it.

use dashmap::DashMap;
use std::collections::HashMap;
use vstd::prelude::*;

verus! {

broadcast use vstd::std_specs::hash::group_hash_axioms;

/// `dashmap::DashMap`, the sharded concurrent map. Opaque: what it holds is
/// spoken of through `dashmap_entries`.
#[verifier::external_type_specification]
#[verifier::external_body]
#[verifier::reject_recursive_types(K)]
#[verifier::reject_recursive_types(V)]
#[verifier::reject_recursive_types(S)]
pub struct ExDashMap<K, V, S>(DashMap<K, V, S>);

/// The entries of a `DashMap` from identity to slot number, keyed by the
/// identity's text.
pub uninterp spec fn dashmap_entries(table: DashMap<String, u64>) -> Map<Seq<char>, u64>;

/// `DashMap::new`: a map without entries.
#[verifier::external_body]
fn dashmap_new() -> (table: DashMap<String, u64>)
    ensures
        forall|key: Seq<char>| !(#[trigger] dashmap_entries(table).contains_key(key)),
{
    DashMap::new()
}

/// `DashMap::insert`: sets the value under `key`, and returns the value that
/// stood there before, if there was one. Taken through an exclusive borrow,
/// so that no other reference into the map is held during the call.
#[verifier::external_body]
fn dashmap_insert(table: &mut DashMap<String, u64>, key: String, value: u64) -> (previous: Option<
    u64,
>)
    ensures
        dashmap_entries(*final(table)) == dashmap_entries(*old(table)).insert(key@, value),
        previous == (if dashmap_entries(*old(table)).contains_key(key@) {
            Some(dashmap_entries(*old(table))[key@])
        } else {
            None
        }),
{
    table.insert(key, value)
}

/// `DashMap::get`: the value under `key`, copied out of the guard that the
/// map hands back, or `None` where the key has no entry.
#[verifier::external_body]
fn dashmap_get(table: &DashMap<String, u64>, key: &str) -> (value: Option<u64>)
    ensures
        value == (if dashmap_entries(*table).contains_key(key@) {
            Some(dashmap_entries(*table)[key@])
        } else {
            None
        }),
{
    match table.get(key) {
        Some(entry) => Some(*entry.value()),
        None => None,
    }
}

/// `DashMap::remove`: takes the entry under `key` out, and returns its value,
/// if there was one. Taken through an exclusive borrow, as `dashmap_insert`.
#[verifier::external_body]
fn dashmap_remove(table: &mut DashMap<String, u64>, key: &str) -> (removed: Option<u64>)
    ensures
        dashmap_entries(*final(table)) == dashmap_entries(*old(table)).remove(key@),
        removed == (if dashmap_entries(*old(table)).contains_key(key@) {
            Some(dashmap_entries(*old(table))[key@])
        } else {
            None
        }),
{
    match table.remove(key) {
        Some((_, value)) => Some(value),
        None => None,
    }
}

/// The live tunnels: for each connected identity the sender of its transport.
///
/// Each registration gets a slot number of its own, never used again, so that
/// a connection that closes late cannot evict the one that replaced it.
pub struct Registry<S> {
    connection_map: DashMap<String, u64>,
    senders: HashMap<u64, S>,
    next_slot: u64,
}

impl<S> Registry<S> {
    /// The slot number of each connected identity.
    pub closed spec fn slots(&self) -> Map<Seq<char>, u64> {
        dashmap_entries(self.connection_map)
    }

    /// How many slot numbers have been given out.
    pub closed spec fn slots_issued(&self) -> nat {
        self.next_slot as nat
    }

    /// The sender held under each slot number.
    pub closed spec fn slot_senders(&self) -> Map<u64, S> {
        self.senders@
    }

    /// Every connected identity has a slot of its own, given out earlier, and a
    /// sender under it; and no sender is kept that no identity leads to.
    pub open spec fn wf(&self) -> bool {
        &&& self.slots_issued() <= u64::MAX
        &&& forall|id: Seq<char>| #[trigger]
            self.slots().contains_key(id) ==> {
                &&& self.slots()[id] < self.slots_issued()
                &&& self.slot_senders().contains_key(self.slots()[id])
            }
        &&& forall|a: Seq<char>, b: Seq<char>|
            #![trigger self.slots()[a], self.slots()[b]]
            self.slots().contains_key(a) && self.slots().contains_key(b) && self.slots()[a]
                == self.slots()[b] ==> a == b
        &&& forall|slot: u64| #[trigger]
            self.slot_senders().contains_key(slot) ==> exists|id: Seq<char>|
                self.slots().contains_key(id) && #[trigger] self.slots()[id] == slot
    }

    /// An empty registry.
    pub fn new() -> (registry: Self)
        ensures
            registry.wf(),
            registry@ == Map::<Seq<char>, S>::empty(),
            registry.slots() == Map::<Seq<char>, u64>::empty(),
            registry.slots_issued() == 0,
    {
        let registry = Registry {
            connection_map: dashmap_new(),
            senders: HashMap::new(),
            next_slot: 0,
        };
        assert(registry.slots() =~= Map::<Seq<char>, u64>::empty());
        assert(registry@ =~= Map::<Seq<char>, S>::empty());
        registry
    }

    /// Inserts the entry for `identity`, or replaces it: the last writer wins,
    /// and the sender that stood there is dropped. Returns the slot number of
    /// the new entry. `None`, with nothing changed, once all slot numbers
    /// have been given out.
    pub fn register(&mut self, identity: String, sender: S) -> (slot: Option<u64>)
        requires
            old(self).wf(),
        ensures
            final(self).wf(),
            match slot {
                Some(slot) => {
                    &&& slot == old(self).slots_issued()
                    &&& final(self).slots_issued() == old(self).slots_issued() + 1
                    &&& final(self).slots() == old(self).slots().insert(identity@, slot)
                    &&& final(self)@ == old(self)@.insert(identity@, sender)
                },
                None => {
                    &&& old(self).slots_issued() == u64::MAX
                    &&& final(self).slots_issued() == old(self).slots_issued()
                    &&& final(self).slots() == old(self).slots()
                    &&& final(self)@ == old(self)@
                },
            },
    {
        if self.next_slot == u64::MAX {
            return None;
        }
        let slot = self.next_slot;
        let ghost key = identity@;
        let previous = dashmap_insert(&mut self.connection_map, identity, slot);
        self.senders.insert(slot, sender);
        if let Some(stale) = previous {
            self.senders.remove(&stale);
        }
        self.next_slot = slot + 1;
        proof {
            assert(self.slots() == old(self).slots().insert(key, slot));
            assert forall|other: u64| #[trigger]
                self.slot_senders().contains_key(other) implies exists|id: Seq<char>|
                self.slots().contains_key(id) && #[trigger] self.slots()[id] == other by {
                if other == slot {
                    assert(self.slots().contains_key(key) && self.slots()[key] == other);
                } else {
                    assert(old(self).slot_senders().contains_key(other));
                    let id = choose|id: Seq<char>|
                        old(self).slots().contains_key(id) && #[trigger] old(self).slots()[id]
                            == other;
                    assert(id != key);
                    assert(self.slots().contains_key(id) && self.slots()[id] == other);
                }
            }
            assert(self@ =~= old(self)@.insert(key, sender));
        }
        Some(slot)
    }

    /// The sender of the tunnel of `identity`, if it is connected.
    pub fn lookup(&self, identity: &str) -> (sender: Option<&S>)
        requires
            self.wf(),
        ensures
            sender == (if self@.contains_key(identity@) {
                Some(&self@[identity@])
            } else {
                None
            }),
    {
        match dashmap_get(&self.connection_map, identity) {
            Some(slot) => self.senders.get(&slot),
            None => None,
        }
    }

    /// The slot number of the entry of `identity`, if it is connected.
    pub fn slot_of(&self, identity: &str) -> (slot: Option<u64>)
        ensures
            slot == (if self.slots().contains_key(identity@) {
                Some(self.slots()[identity@])
            } else {
                None
            }),
    {
        dashmap_get(&self.connection_map, identity)
    }

    /// The sender held under `slot`, if that registration is still in place.
    pub fn sender(&self, slot: u64) -> (sender: Option<&S>)
        ensures
            sender == (if self.slot_senders().contains_key(slot) {
                Some(&self.slot_senders()[slot])
            } else {
                None
            }),
    {
        self.senders.get(&slot)
    }

    /// Removes the entry of `identity` if it is still the registration that
    /// got `slot`, and says whether it did. An entry that has been replaced
    /// since is left alone.
    pub fn evict(&mut self, identity: &str, slot: u64) -> (evicted: bool)
        requires
            old(self).wf(),
        ensures
            final(self).wf(),
            evicted == (old(self).slots().contains_key(identity@) && old(self).slots()[identity@]
                == slot),
            final(self).slots_issued() == old(self).slots_issued(),
            evicted ==> final(self).slots() == old(self).slots().remove(identity@),
            evicted ==> final(self)@ == old(self)@.remove(identity@),
            !evicted ==> final(self).slots() == old(self).slots(),
            !evicted ==> final(self)@ == old(self)@,
    {
        match dashmap_get(&self.connection_map, identity) {
            Some(current) => {
                if current == slot {
                    dashmap_remove(&mut self.connection_map, identity);
                    self.senders.remove(&slot);
                    proof {
                        assert forall|other: u64| #[trigger]
                            self.slot_senders().contains_key(other) implies exists|
                            id: Seq<char>,
                        |
                            self.slots().contains_key(id) && #[trigger] self.slots()[id]
                                == other by {
                            let id = choose|id: Seq<char>|
                                old(self).slots().contains_key(id) && #[trigger] old(
                                    self,
                                ).slots()[id] == other;
                            assert(id != identity@);
                            assert(self.slots().contains_key(id) && self.slots()[id] == other);
                        }
                        assert(self@ =~= old(self)@.remove(identity@));
                    }
                    true
                } else {
                    false
                }
            },
            None => false,
        }
    }
}

impl<S> View for Registry<S> {
    type V = Map<Seq<char>, S>;

    /// The sender that each connected identity leads to.
    open spec fn view(&self) -> Map<Seq<char>, S> {
        Map::new(
            |id: Seq<char>| self.slots().contains_key(id),
            |id: Seq<char>| self.slot_senders()[self.slots()[id]],
        )
    }
}

/// What became of a relayed request.
#[derive(Debug, PartialEq, Eq)]
pub enum Outcome<R> {
    /// The agent answered.
    Forwarded(R),
    /// The identity has no tunnel.
    NotConnected,
    /// The identity has a tunnel, but the request did not get through it.
    TransportError,
}

/// What became of an authenticated connection that was to be promoted.
#[derive(Debug, Clone, Copy, PartialEq, Eq, Structural)]
pub enum Promotion {
    /// The transport was negotiated and stands in the registry under `slot`.
    Registered { slot: u64 },
    /// The transport could not be negotiated: the connection was never registered.
    NegotiationFailed,
    /// The transport was negotiated, but no slot number is left for it.
    RegistryFull,
}

/// What the router decided for a request.
#[derive(Debug, PartialEq, Eq)]
pub enum Relay<C, R> {
    /// Send the request through the sender under `slot`, and report what came
    /// back under `ticket`. The reply channel is kept until then.
    Forward { ticket: u64, slot: u64 },
    /// Hand `outcome` to `reply` now.
    Deliver { reply: C, outcome: Outcome<R> },
}

/// The outcome of a request that was forwarded: the response, or a transport
/// error where none came back.
pub open spec fn settle_spec<R>(response: Option<R>) -> Outcome<R> {
    match response {
        Some(response) => Outcome::Forwarded(response),
        None => Outcome::TransportError,
    }
}

/// The outcome of a request that was forwarded: the response, or a transport
/// error where none came back.
pub fn settle<R>(response: Option<R>) -> (outcome: Outcome<R>)
    ensures
        outcome == settle_spec(response),
{
    match response {
        Some(response) => Outcome::Forwarded(response),
        None => Outcome::TransportError,
    }
}

/// The router's book, as far as delivery goes: the tickets whose reply
/// channel is still held, and how many tickets have been given out.
pub struct Ledger {
    pub pending: Set<u64>,
    pub issued: nat,
}

/// What can happen to the book.
pub enum LedgerOp {
    /// A request was forwarded, under the next ticket.
    Forward,
    /// The forwarding under `ticket` was reported as done.
    Complete { ticket: u64 },
}

impl Ledger {
    /// Every ticket that is held was given out.
    pub open spec fn wf(self) -> bool {
        forall|ticket: u64| self.pending.contains(ticket) ==> ticket < self.issued
    }

    /// The book after `op`.
    pub open spec fn step(self, op: LedgerOp) -> Ledger {
        match op {
            LedgerOp::Forward => if self.issued < u64::MAX {
                Ledger { pending: self.pending.insert(self.issued as u64), issued: self.issued + 1 }
            } else {
                self
            },
            LedgerOp::Complete { ticket } => Ledger {
                pending: self.pending.remove(ticket),
                issued: self.issued,
            },
        }
    }

    /// Whether `op` hands the reply channel of `ticket` back to the caller.
    pub open spec fn delivers(self, op: LedgerOp, ticket: u64) -> bool {
        op == (LedgerOp::Complete { ticket }) && self.pending.contains(ticket)
    }

    /// How often the reply channel of `ticket` is handed back in the course of `ops`.
    pub open spec fn deliveries(self, ops: Seq<LedgerOp>, ticket: u64) -> nat
        decreases ops.len(),
    {
        if ops.len() == 0 {
            0
        } else {
            (if self.delivers(ops[0], ticket) {
                1nat
            } else {
                0nat
            }) + self.step(ops[0]).deliveries(ops.drop_first(), ticket)
        }
    }
}

/// The registry together with the requests in flight.
pub struct TunnelManager<S, C> {
    registry: Registry<S>,
    pending: HashMap<u64, C>,
    next_ticket: u64,
}

impl<S, C> TunnelManager<S, C> {
    /// The connection registry.
    pub closed spec fn registry(&self) -> Registry<S> {
        self.registry
    }

    /// The reply channel held under each ticket.
    pub closed spec fn pending(&self) -> Map<u64, C> {
        self.pending@
    }

    /// How many tickets have been given out.
    pub closed spec fn tickets_issued(&self) -> nat {
        self.next_ticket as nat
    }

    /// The book of deliveries.
    pub open spec fn ledger(&self) -> Ledger {
        Ledger { pending: self.pending().dom(), issued: self.tickets_issued() }
    }

    /// The registry is well-formed, and every ticket that is held was given out.
    pub open spec fn wf(&self) -> bool {
        &&& self.registry().wf()
        &&& self.tickets_issued() <= u64::MAX
        &&& self.ledger().wf()
    }

    /// A manager without tunnels and without requests in flight.
    pub fn new() -> (manager: Self)
        ensures
            manager.wf(),
            manager.registry()@ == Map::<Seq<char>, S>::empty(),
            manager.registry().slots() == Map::<Seq<char>, u64>::empty(),
            manager.registry().slots_issued() == 0,
            manager.pending() == Map::<u64, C>::empty(),
            manager.tickets_issued() == 0,
    {
        TunnelManager { registry: Registry::new(), pending: HashMap::new(), next_ticket: 0 }
    }

    /// Registers the promoted transport of `identity`; see `Registry::register`.
    /// Requests in flight are not touched.
    pub fn register(&mut self, identity: String, sender: S) -> (slot: Option<u64>)
        requires
            old(self).wf(),
        ensures
            final(self).wf(),
            final(self).pending() == old(self).pending(),
            final(self).tickets_issued() == old(self).tickets_issued(),
            final(self).registry().slots_issued() == old(self).registry().slots_issued() + (if slot
                is Some {
                1nat
            } else {
                0nat
            }),
            match slot {
                Some(slot) => {
                    &&& slot == old(self).registry().slots_issued()
                    &&& final(self).registry().slots() == old(self).registry().slots().insert(
                        identity@,
                        slot,
                    )
                    &&& final(self).registry()@ == old(self).registry()@.insert(identity@, sender)
                },
                None => {
                    &&& old(self).registry().slots_issued() == u64::MAX
                    &&& final(self).registry().slots() == old(self).registry().slots()
                    &&& final(self).registry()@ == old(self).registry()@
                },
            },
    {
        self.registry.register(identity, sender)
    }

    /// Takes note of how the promotion of the connection of `identity` went.
    /// A transport that was negotiated is registered, as `register` does; a
    /// connection on which the negotiation failed never reaches the registry.
    /// Requests in flight are not touched.
    pub fn promote(&mut self, identity: String, negotiated: Option<S>) -> (promotion: Promotion)
        requires
            old(self).wf(),
        ensures
            final(self).wf(),
            final(self).pending() == old(self).pending(),
            final(self).tickets_issued() == old(self).tickets_issued(),
            match promotion {
                Promotion::Registered { slot } => {
                    &&& negotiated is Some
                    &&& slot == old(self).registry().slots_issued()
                    &&& final(self).registry().slots_issued() == old(self).registry().slots_issued()
                        + 1
                    &&& final(self).registry().slots() == old(self).registry().slots().insert(
                        identity@,
                        slot,
                    )
                    &&& final(self).registry()@ == old(self).registry()@.insert(
                        identity@,
                        negotiated->0,
                    )
                },
                Promotion::NegotiationFailed => {
                    &&& negotiated is None
                    &&& final(self).registry() == old(self).registry()
                },
                Promotion::RegistryFull => {
                    &&& negotiated is Some
                    &&& old(self).registry().slots_issued() == u64::MAX
                    &&& final(self).registry().slots_issued() == old(self).registry().slots_issued()
                    &&& final(self).registry().slots() == old(self).registry().slots()
                    &&& final(self).registry()@ == old(self).registry()@
                },
            },
    {
        match negotiated {
            Some(sender) => match self.register(identity, sender) {
                Some(slot) => Promotion::Registered { slot },
                None => Promotion::RegistryFull,
            },
            None => Promotion::NegotiationFailed,
        }
    }

    /// The sender of the tunnel of `identity`, if it is connected.
    pub fn lookup(&self, identity: &str) -> (sender: Option<&S>)
        requires
            self.wf(),
        ensures
            sender == (if self.registry()@.contains_key(identity@) {
                Some(&self.registry()@[identity@])
            } else {
                None
            }),
    {
        self.registry.lookup(identity)
    }

    /// The sender held under `slot`, if that registration is still in place.
    pub fn sender(&self, slot: u64) -> (sender: Option<&S>)
        ensures
            sender == (if self.registry().slot_senders().contains_key(slot) {
                Some(&self.registry().slot_senders()[slot])
            } else {
                None
            }),
    {
        self.registry.sender(slot)
    }

    /// Removes the tunnel of `identity` if it is still the registration that
    /// got `slot`; see `Registry::evict`. Requests in flight are not touched:
    /// each is still reported, and its caller answered.
    pub fn evict(&mut self, identity: &str, slot: u64) -> (evicted: bool)
        requires
            old(self).wf(),
        ensures
            final(self).wf(),
            final(self).pending() == old(self).pending(),
            final(self).tickets_issued() == old(self).tickets_issued(),
            evicted == (old(self).registry().slots().contains_key(identity@) && old(
                self,
            ).registry().slots()[identity@] == slot),
            final(self).registry().slots_issued() == old(self).registry().slots_issued(),
            evicted ==> final(self).registry().slots() == old(self).registry().slots().remove(
                identity@,
            ),
            evicted ==> final(self).registry()@ == old(self).registry()@.remove(identity@),
            !evicted ==> final(self).registry().slots() == old(self).registry().slots(),
            !evicted ==> final(self).registry()@ == old(self).registry()@,
    {
        self.registry.evict(identity, slot)
    }

    /// Routes a request for `identity`, whose caller waits on `reply`.
    ///
    /// Without a tunnel for `identity` the caller is owed `NotConnected` at
    /// once. With one, the request is to be forwarded, and `reply` is kept
    /// under a ticket that no request had before. Once all ticket numbers
    /// have been given out, the caller is owed `TransportError` at once. The
    /// registry is only read.
    pub fn relay<R>(&mut self, identity: &str, reply: C) -> (decision: Relay<C, R>)
        requires
            old(self).wf(),
        ensures
            final(self).wf(),
            final(self).registry() == old(self).registry(),
            match decision {
                Relay::Forward { ticket, slot } => {
                    &&& old(self).registry().slots().contains_key(identity@)
                    &&& slot == old(self).registry().slots()[identity@]
                    &&& old(self).tickets_issued() < u64::MAX
                    &&& ticket == old(self).tickets_issued()
                    &&& !old(self).pending().contains_key(ticket)
                    &&& final(self).tickets_issued() == old(self).tickets_issued() + 1
                    &&& final(self).pending() == old(self).pending().insert(ticket, reply)
                    &&& final(self).ledger() == old(self).ledger().step(LedgerOp::Forward)
                },
                Relay::Deliver { reply: handed_back, outcome } => {
                    &&& handed_back == reply
                    &&& final(self).tickets_issued() == old(self).tickets_issued()
                    &&& final(self).pending() == old(self).pending()
                    &&& outcome == (if old(self).registry().slots().contains_key(identity@) {
                        Outcome::<R>::TransportError
                    } else {
                        Outcome::<R>::NotConnected
                    })
                    &&& old(self).registry().slots().contains_key(identity@)
                        ==> old(self).tickets_issued() == u64::MAX
                },
            },
    {
        match self.registry.slot_of(identity) {
            None => Relay::Deliver { reply, outcome: Outcome::NotConnected },
            Some(slot) => {
                if self.next_ticket == u64::MAX {
                    Relay::Deliver { reply, outcome: Outcome::TransportError }
                } else {
                    let ticket = self.next_ticket;
                    self.pending.insert(ticket, reply);
                    self.next_ticket = ticket + 1;
                    proof {
                        assert(self.ledger().pending =~= old(self).ledger().step(
                            LedgerOp::Forward,
                        ).pending);
                    }
                    Relay::Forward { ticket, slot }
                }
            },
        }
    }

    /// Reports what came of the forwarding under `ticket`: the response, or
    /// `None` where the transport failed.
    ///
    /// For a ticket that is held, the reply channel is handed back together
    /// with the outcome that its caller is owed, and the ticket is forgotten.
    /// For any other ticket, one never given out or one reported before,
    /// nothing is handed back and nothing changes.
    pub fn complete<R>(&mut self, ticket: u64, response: Option<R>) -> (delivery: Option<
        (C, Outcome<R>),
    >)
        requires
            old(self).wf(),
        ensures
            final(self).wf(),
            final(self).registry() == old(self).registry(),
            final(self).tickets_issued() == old(self).tickets_issued(),
            final(self).ledger() == old(self).ledger().step(LedgerOp::Complete { ticket }),
            delivery is Some == old(self).ledger().delivers(LedgerOp::Complete { ticket }, ticket),
            match delivery {
                Some((reply, outcome)) => {
                    &&& old(self).pending().contains_key(ticket)
                    &&& reply == old(self).pending()[ticket]
                    &&& outcome == settle_spec(response)
                    &&& final(self).pending() == old(self).pending().remove(ticket)
                },
                None => {
                    &&& !old(self).pending().contains_key(ticket)
                    &&& final(self).pending() == old(self).pending()
                },
            },
    {
        match self.pending.remove(&ticket) {
            Some(reply) => {
                proof {
                    assert(self.ledger().pending =~= old(self).ledger().step(
                        LedgerOp::Complete { ticket },
                    ).pending);
                }
                Some((reply, settle(response)))
            },
            None => {
                proof {
                    assert(self.pending() =~= old(self).pending());
                    assert(self.ledger().pending =~= old(self).ledger().step(
                        LedgerOp::Complete { ticket },
                    ).pending);
                }
                None
            },
        }
    }
}

/// A step keeps the book well-formed.
pub proof fn lemma_ledger_step_wf(ledger: Ledger, op: LedgerOp)
    requires
        ledger.wf(),
    ensures
        ledger.step(op).wf(),
{
}

/// Exactly-once delivery. Whatever happens to the book, no reply channel is
/// handed back twice. The channel of a ticket that is held is handed back
/// once if the forwarding under that ticket is ever reported, and not before;
/// the channel of a ticket that was given out and is held no longer has been
/// handed back, and never is again.
pub proof fn lemma_delivered_exactly_once(ledger: Ledger, ops: Seq<LedgerOp>, ticket: u64)
    requires
        ledger.wf(),
    ensures
        ledger.deliveries(ops, ticket) <= 1,
        ledger.pending.contains(ticket) ==> ledger.deliveries(ops, ticket) == (if ops.contains(
            LedgerOp::Complete { ticket },
        ) {
            1nat
        } else {
            0nat
        }),
        ticket < ledger.issued && !ledger.pending.contains(ticket) ==> ledger.deliveries(
            ops,
            ticket,
        ) == 0,
    decreases ops.len(),
{
    let done = LedgerOp::Complete { ticket };
    if ops.len() > 0 {
        let rest = ops.drop_first();
        lemma_ledger_step_wf(ledger, ops[0]);
        lemma_delivered_exactly_once(ledger.step(ops[0]), rest, ticket);
        if ops[0] == done {
            assert(ops.contains(done));
        } else {
            if rest.contains(done) {
                let i = choose|i: int| 0 <= i < rest.len() && rest[i] == done;
                assert(ops[i + 1] == done);
            }
            if ops.contains(done) {
                let i = choose|i: int| 0 <= i < ops.len() && ops[i] == done;
                assert(rest[i - 1] == done);
            }
        }
    } else {
        assert(!ops.contains(done));
    }
}

/// A request that is forwarded is answered exactly once: its reply channel is
/// held from then on, and handed back at the first report of its ticket.
pub proof fn lemma_forwarded_answered_once(ledger: Ledger, ops: Seq<LedgerOp>)
    requires
        ledger.wf(),
        ledger.issued < u64::MAX,
    ensures
        ({
            let ticket = ledger.issued as u64;
            let after = ledger.step(LedgerOp::Forward);
            &&& after.pending.contains(ticket)
            &&& ledger.deliveries(seq![LedgerOp::Forward] + ops, ticket) == (if ops.contains(
                LedgerOp::Complete { ticket },
            ) {
                1nat
            } else {
                0nat
            })
        }),
{
    let ticket = ledger.issued as u64;
    let all = seq![LedgerOp::Forward] + ops;
    assert(all.drop_first() =~= ops);
    lemma_ledger_step_wf(ledger, LedgerOp::Forward);
    lemma_delivered_exactly_once(ledger.step(LedgerOp::Forward), ops, ticket);
}

/// Registrations of distinct identities do not disturb each other. Reading
/// one identity is not changed by registering another, and two registrations
/// of distinct identities lead to the same registry in either order.
pub proof fn lemma_registrations_isolated<S>(
    tunnels: Map<Seq<char>, S>,
    first: Seq<char>,
    first_sender: S,
    second: Seq<char>,
    second_sender: S,
)
    requires
        first != second,
    ensures
        tunnels.insert(first, first_sender).contains_key(second) == tunnels.contains_key(second),
        tunnels.contains_key(second) ==> tunnels.insert(first, first_sender)[second]
            == tunnels[second],
        tunnels.insert(first, first_sender).insert(second, second_sender) == tunnels.insert(
            second,
            second_sender,
        ).insert(first, first_sender),
        tunnels.insert(first, first_sender).insert(second, second_sender)[first] == first_sender,
        tunnels.insert(first, first_sender).insert(second, second_sender)[second] == second_sender,
{
    assert(tunnels.insert(first, first_sender).insert(second, second_sender) =~= tunnels.insert(
        second,
        second_sender,
    ).insert(first, first_sender));
}

} // verus!
