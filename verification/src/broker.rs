//! The broker: sole owner of the peer registry, single consumer of the
//! event queue, and the router that fans messages out to per-peer
//! delivery queues.
//!
//! The executable broker is a pure state machine: [`Broker::step`] takes
//! one event and returns the effects the surrounding process must
//! perform (lines to enqueue for peers, a writer task to start, the
//! shutdown signal to fire). Its whole behaviour is pinned to the
//! specification-level [`spec_step`].

use vstd::prelude::*;

use crate::event::{Event, EventView};
use crate::message::render_spec;
use crate::text::str_views;

verus! {

/// Mathematical image of one registry entry: the peer's name, the
/// identifier of its outbound write handle, and the lines enqueued for
/// it so far, oldest first.
#[verifier::ext_equal]
pub struct PeerView {
    pub name: Seq<char>,
    pub outbound: u64,
    pub queue: Seq<Seq<char>>,
}

/// One registry entry: a peer's name, the identifier of the outbound
/// write handle its private writer drains to, and its delivery queue.
pub struct Peer {
    pub name: String,
    pub outbound: u64,
    pub queue: Vec<String>,
}

impl View for Peer {
    type V = PeerView;

    open spec fn view(&self) -> PeerView {
        PeerView { name: self.name@, outbound: self.outbound, queue: str_views(self.queue@) }
    }
}

/// Mathematical image of one delivery: which outbound handle receives
/// which line.
#[verifier::ext_equal]
pub struct DeliveryView {
    pub outbound: u64,
    pub line: Seq<char>,
}

/// One line to hand to a peer's private writer.
pub struct Delivery {
    pub outbound: u64,
    pub line: String,
}

impl View for Delivery {
    type V = DeliveryView;

    open spec fn view(&self) -> DeliveryView {
        DeliveryView { outbound: self.outbound, line: self.line@ }
    }
}

pub open spec fn peer_views(ps: Seq<Peer>) -> Seq<PeerView> {
    ps.map_values(|p: Peer| p@)
}

pub open spec fn delivery_views(ds: Seq<Delivery>) -> Seq<DeliveryView> {
    ds.map_values(|d: Delivery| d@)
}

pub open spec fn event_views(es: Seq<Event>) -> Seq<EventView> {
    es.map_values(|e: Event| e@)
}

/// Mathematical image of the broker: the registry in registration order
/// and whether a shutdown has been requested.
#[verifier::ext_equal]
pub struct BrokerView {
    pub peers: Seq<PeerView>,
    pub shutdown_requested: bool,
}

impl BrokerView {
    /// Registry well-formedness: no two entries share a name, so the
    /// first registration for a name is the only one.
    pub open spec fn wf(self) -> bool {
        forall|i: int, j: int|
            0 <= i < j < self.peers.len() ==> self.peers[i].name != self.peers[j].name
    }
}

/// The index of the (first) registry entry named `name`, if any.
pub open spec fn find_peer(peers: Seq<PeerView>, name: Seq<char>) -> Option<int>
    decreases peers.len(),
{
    if peers.len() == 0 {
        None
    } else if peers[0].name == name {
        Some(0int)
    } else {
        match find_peer(peers.drop_first(), name) {
            None => None,
            Some(i) => Some(i + 1),
        }
    }
}

/// `find_peer` returns the first entry with the given name; `None` means
/// no entry carries it.
pub proof fn lemma_find_peer(peers: Seq<PeerView>, name: Seq<char>)
    ensures
        match find_peer(peers, name) {
            None => forall|j: int| 0 <= j < peers.len() ==> peers[j].name != name,
            Some(i) => 0 <= i < peers.len() && peers[i].name == name && (forall|j: int|
                0 <= j < i ==> peers[j].name != name),
        },
    decreases peers.len(),
{
    if peers.len() == 0 {
    } else if peers[0].name == name {
    } else {
        lemma_find_peer(peers.drop_first(), name);
        match find_peer(peers.drop_first(), name) {
            None => {
                assert forall|j: int| 0 <= j < peers.len() implies peers[j].name != name by {
                    if j > 0 {
                        assert(peers.drop_first()[j - 1] == peers[j]);
                    }
                }
            },
            Some(i) => {
                assert(peers.drop_first()[i] == peers[i + 1]);
                assert forall|j: int| 0 <= j < i + 1 implies peers[j].name != name by {
                    if j > 0 {
                        assert(peers.drop_first()[j - 1] == peers[j]);
                    }
                }
            },
        }
    }
}

/// The entry with one more line at the end of its queue.
pub open spec fn push_line(p: PeerView, line: Seq<char>) -> PeerView {
    PeerView { name: p.name, outbound: p.outbound, queue: p.queue.push(line) }
}

/// Deliver `line` to the peer named `name`: enqueued onto its queue if
/// it is registered, silently skipped if not.
pub open spec fn spec_deliver_one(peers: Seq<PeerView>, line: Seq<char>, name: Seq<char>) -> (
    Seq<PeerView>,
    Seq<DeliveryView>,
) {
    match find_peer(peers, name) {
        None => (peers, Seq::<DeliveryView>::empty()),
        Some(i) => (
            peers.update(i, push_line(peers[i], line)),
            seq![DeliveryView { outbound: peers[i].outbound, line }],
        ),
    }
}

/// Deliver `line` to each name in `to`, in order; duplicates deliver
/// twice, unknown names deliver nowhere.
pub open spec fn spec_deliver_list(
    peers: Seq<PeerView>,
    line: Seq<char>,
    to: Seq<Seq<char>>,
) -> (Seq<PeerView>, Seq<DeliveryView>)
    decreases to.len(),
{
    if to.len() == 0 {
        (peers, Seq::<DeliveryView>::empty())
    } else {
        let first = spec_deliver_one(peers, line, to[0]);
        let rest = spec_deliver_list(first.0, line, to.drop_first());
        (rest.0, first.1 + rest.1)
    }
}

/// Deliver `line` to every registered peer, the sender included.
pub open spec fn spec_broadcast(peers: Seq<PeerView>, line: Seq<char>) -> (
    Seq<PeerView>,
    Seq<DeliveryView>,
) {
    (
        peers.map_values(|p: PeerView| push_line(p, line)),
        peers.map_values(|p: PeerView| DeliveryView { outbound: p.outbound, line }),
    )
}

/// The registry without the entries draining to `outbound`, in order.
pub open spec fn spec_depart(ps: Seq<PeerView>, outbound: u64) -> Seq<PeerView>
    decreases ps.len(),
{
    if ps.len() == 0 {
        Seq::<PeerView>::empty()
    } else if ps[0].outbound == outbound {
        spec_depart(ps.drop_first(), outbound)
    } else {
        seq![ps[0]] + spec_depart(ps.drop_first(), outbound)
    }
}

/// The broker's whole reaction to one event: the next registry state and
/// the deliveries performed, in order.
///
/// A `NewPeer` for a fresh name appends a registry entry with an empty
/// queue; for an already-taken name it changes nothing, so the second
/// outbound handle is discarded. A direct message reaches exactly the
/// registered recipients, a broadcast reaches every registered peer, and
/// a shutdown request only raises the `shutdown_requested` flag — the
/// broker keeps consuming events.
pub open spec fn spec_step(b: BrokerView, e: EventView) -> (BrokerView, Seq<DeliveryView>) {
    match e {
        EventView::NewPeer { name, outbound } => {
            if find_peer(b.peers, name) is Some {
                (b, Seq::<DeliveryView>::empty())
            } else {
                (
                    BrokerView {
                        peers: b.peers.push(
                            PeerView { name, outbound, queue: Seq::<Seq<char>>::empty() },
                        ),
                        shutdown_requested: b.shutdown_requested,
                    },
                    Seq::<DeliveryView>::empty(),
                )
            }
        },
        EventView::DirectMessage { from, text, to } => {
            let r = spec_deliver_list(b.peers, render_spec(from, text), to);
            (BrokerView { peers: r.0, shutdown_requested: b.shutdown_requested }, r.1)
        },
        EventView::BroadcastMessage { from, text } => {
            let r = spec_broadcast(b.peers, render_spec(from, text));
            (BrokerView { peers: r.0, shutdown_requested: b.shutdown_requested }, r.1)
        },
        EventView::Shutdown => (
            BrokerView { peers: b.peers, shutdown_requested: true },
            Seq::<DeliveryView>::empty(),
        ),
    }
}

/// The broker's reaction to a whole sequence of events, dequeued in
/// order: the final registry state and all deliveries, in order.
pub open spec fn spec_run(b: BrokerView, es: Seq<EventView>) -> (BrokerView, Seq<DeliveryView>)
    decreases es.len(),
{
    if es.len() == 0 {
        (b, Seq::<DeliveryView>::empty())
    } else {
        let first = spec_step(b, es[0]);
        let rest = spec_run(first.0, es.drop_first());
        (rest.0, first.1 + rest.1)
    }
}

/// Which writer task one event asks the surrounding process to start: a
/// `NewPeer` for a fresh name hands over its outbound handle, anything
/// else starts none.
pub open spec fn spawn_effect_spec(b: BrokerView, e: EventView) -> Option<u64> {
    match e {
        EventView::NewPeer { name, outbound } => {
            if find_peer(b.peers, name) is None {
                Some(outbound)
            } else {
                None
            }
        },
        _ => None,
    }
}

/// What the surrounding process must do after one broker step.
pub struct StepEffect {
    /// Lines to enqueue, in order, onto the named outbound handles.
    pub deliveries: Vec<Delivery>,
    /// An outbound handle a fresh writer task must start draining.
    pub spawn_writer: Option<u64>,
    /// Whether the fire-once shutdown signal must be fired.
    pub signal_shutdown: bool,
}

/// The single owner of the peer registry.
pub struct Broker {
    pub peers: Vec<Peer>,
    pub shutdown_requested: bool,
}

impl View for Broker {
    type V = BrokerView;

    open spec fn view(&self) -> BrokerView {
        BrokerView { peers: peer_views(self.peers@), shutdown_requested: self.shutdown_requested }
    }
}

fn find_index(peers: &Vec<Peer>, name: &String) -> (r: Option<usize>)
    ensures
        match r {
            None => find_peer(peer_views(peers@), name@) is None,
            Some(i) => i < peers@.len() && find_peer(peer_views(peers@), name@) == Some(i as int),
        },
{
    let n = peers.len();
    let mut i: usize = 0;
    while i < n
        invariant
            n == peers@.len(),
            0 <= i <= n,
            forall|j: int| 0 <= j < i ==> peer_views(peers@)[j].name != name@,
        decreases n - i,
    {
        if peers[i].name == *name {
            proof {
                let ps = peer_views(peers@);
                lemma_find_peer(ps, name@);
                assert(ps[i as int].name == name@);
                if find_peer(ps, name@) is Some {
                    let m = find_peer(ps, name@)->0;
                    if m < i {
                        assert(ps[m].name != name@);
                    } else if m > i {
                        assert(ps[i as int].name != name@);
                    }
                }
            }
            return Some(i);
        }
        i = i + 1;
    }
    proof {
        lemma_find_peer(peer_views(peers@), name@);
    }
    None
}

impl Broker {
    /// A broker with an empty registry and no shutdown requested.
    pub fn new() -> (b: Broker)
        ensures
            b@.peers == Seq::<PeerView>::empty(),
            !b@.shutdown_requested,
    {
        let b = Broker { peers: Vec::new(), shutdown_requested: false };
        proof {
            assert(peer_views(b.peers@) =~= Seq::<PeerView>::empty());
        }
        b
    }

    /// Process one event: route it per [`spec_step`] and report the
    /// effects the surrounding process must perform.
    pub fn step(&mut self, event: Event) -> (eff: StepEffect)
        ensures
            final(self)@ == spec_step(old(self)@, event@).0,
            delivery_views(eff.deliveries@) == spec_step(old(self)@, event@).1,
            eff.spawn_writer == spawn_effect_spec(old(self)@, event@),
            eff.signal_shutdown == (event@ is Shutdown),
    {
        match event {
            Event::NewPeer { name, outbound } => {
                match find_index(&self.peers, &name) {
                    Some(_) => {
                        let eff = StepEffect {
                            deliveries: Vec::new(),
                            spawn_writer: None,
                            signal_shutdown: false,
                        };
                        proof {
                            assert(delivery_views(eff.deliveries@) =~= Seq::<
                                DeliveryView,
                            >::empty());
                        }
                        eff
                    },
                    None => {
                        self.peers.push(Peer { name, outbound, queue: Vec::new() });
                        let eff = StepEffect {
                            deliveries: Vec::new(),
                            spawn_writer: Some(outbound),
                            signal_shutdown: false,
                        };
                        proof {
                            assert(delivery_views(eff.deliveries@) =~= Seq::<
                                DeliveryView,
                            >::empty());
                            assert(peer_views(self.peers@) =~~= spec_step(
                                old(self)@,
                                event@,
                            ).0.peers);
                        }
                        eff
                    },
                }
            },
            Event::DirectMessage { message, to } => {
                let line = message.render_line();
                let deliveries = self.deliver_list(line, &to);
                StepEffect { deliveries, spawn_writer: None, signal_shutdown: false }
            },
            Event::BroadcastMessage(message) => {
                let line = message.render_line();
                let deliveries = self.broadcast(line);
                StepEffect { deliveries, spawn_writer: None, signal_shutdown: false }
            },
            Event::Shutdown => {
                self.shutdown_requested = true;
                let eff = StepEffect {
                    deliveries: Vec::new(),
                    spawn_writer: None,
                    signal_shutdown: true,
                };
                proof {
                    assert(delivery_views(eff.deliveries@) =~= Seq::<DeliveryView>::empty());
                }
                eff
            },
        }
    }

    /// Enqueue `line` for each name in `to`, in order, skipping names
    /// that are not registered.
    fn deliver_list(&mut self, line: String, to: &Vec<String>) -> (ds: Vec<Delivery>)
        ensures
            peer_views(final(self).peers@) == spec_deliver_list(
                peer_views(old(self).peers@),
                line@,
                str_views(to@),
            ).0,
            delivery_views(ds@) == spec_deliver_list(
                peer_views(old(self).peers@),
                line@,
                str_views(to@),
            ).1,
            final(self).shutdown_requested == old(self).shutdown_requested,
    {
        let ghost orig = peer_views(self.peers@);
        let ghost to_s = str_views(to@);
        let ghost line_s = line@;
        let mut ds: Vec<Delivery> = Vec::new();
        let mut k: usize = 0;
        proof {
            assert(to_s.skip(0) =~= to_s);
            assert(delivery_views(ds@) =~= Seq::<DeliveryView>::empty());
            assert(Seq::<DeliveryView>::empty() + spec_deliver_list(orig, line_s, to_s).1
                =~= spec_deliver_list(orig, line_s, to_s).1);
        }
        while k < to.len()
            invariant
                to@.len() == to_s.len(),
                to_s == str_views(to@),
                line_s == line@,
                0 <= k <= to_s.len(),
                self.shutdown_requested == old(self).shutdown_requested,
                spec_deliver_list(orig, line_s, to_s).0 == spec_deliver_list(
                    peer_views(self.peers@),
                    line_s,
                    to_s.skip(k as int),
                ).0,
                spec_deliver_list(orig, line_s, to_s).1 == delivery_views(ds@)
                    + spec_deliver_list(peer_views(self.peers@), line_s, to_s.skip(k as int)).1,
            decreases to_s.len() - k,
        {
            let ghost cur = peer_views(self.peers@);
            let ghost ds_old = delivery_views(ds@);
            proof {
                assert(to_s.skip(k as int)[0] == to_s[k as int]);
                assert(to_s.skip(k as int).drop_first() =~= to_s.skip(k as int + 1));
            }
            match find_index(&self.peers, &to[k]) {
                Some(i) => {
                    let out = self.peers[i].outbound;
                    self.peers[i].queue.push(line.clone());
                    ds.push(Delivery { outbound: out, line: line.clone() });
                    proof {
                        let p_new = self.peers@[i as int];
                        assert(str_views(p_new.queue@) =~= cur[i as int].queue.push(line_s));
                        assert(p_new@ == push_line(cur[i as int], line_s));
                        assert(peer_views(self.peers@) =~= cur.update(
                            i as int,
                            push_line(cur[i as int], line_s),
                        ));
                        assert(delivery_views(ds@) =~= ds_old.push(
                            DeliveryView { outbound: out, line: line_s },
                        ));
                        assert(delivery_views(ds@) =~= ds_old + spec_deliver_one(
                            cur,
                            line_s,
                            to_s[k as int],
                        ).1);
                        assert(ds_old + (spec_deliver_one(cur, line_s, to_s[k as int]).1
                            + spec_deliver_list(
                            peer_views(self.peers@),
                            line_s,
                            to_s.skip(k as int + 1),
                        ).1) =~= delivery_views(ds@) + spec_deliver_list(
                            peer_views(self.peers@),
                            line_s,
                            to_s.skip(k as int + 1),
                        ).1);
                    }
                },
                None => {
                    proof {
                        assert(spec_deliver_one(cur, line_s, to_s[k as int]).0 == cur);
                        assert(spec_deliver_one(cur, line_s, to_s[k as int]).1 =~= Seq::<
                            DeliveryView,
                        >::empty());
                        assert(Seq::<DeliveryView>::empty() + spec_deliver_list(
                            cur,
                            line_s,
                            to_s.skip(k as int + 1),
                        ).1 =~= spec_deliver_list(cur, line_s, to_s.skip(k as int + 1)).1);
                    }
                },
            }
            k = k + 1;
        }
        proof {
            assert(to_s.skip(to_s.len() as int) =~= Seq::<Seq<char>>::empty());
            assert(delivery_views(ds@) + Seq::<DeliveryView>::empty() =~= delivery_views(ds@));
        }
        ds
    }

    /// Enqueue `line` for every registered peer, the sender included.
    fn broadcast(&mut self, line: String) -> (ds: Vec<Delivery>)
        ensures
            peer_views(final(self).peers@) == spec_broadcast(
                peer_views(old(self).peers@),
                line@,
            ).0,
            delivery_views(ds@) == spec_broadcast(peer_views(old(self).peers@), line@).1,
            final(self).shutdown_requested == old(self).shutdown_requested,
    {
        let ghost orig = peer_views(self.peers@);
        let ghost line_s = line@;
        let mut ds: Vec<Delivery> = Vec::new();
        let n = self.peers.len();
        let mut k: usize = 0;
        while k < n
            invariant
                n == self.peers@.len(),
                orig.len() == n,
                line_s == line@,
                0 <= k <= n,
                self.shutdown_requested == old(self).shutdown_requested,
                ds@.len() == k,
                forall|j: int| k <= j < n ==> peer_views(self.peers@)[j] == orig[j],
                forall|j: int|
                    0 <= j < k ==> peer_views(self.peers@)[j] == push_line(orig[j], line_s),
                forall|j: int|
                    0 <= j < k ==> delivery_views(ds@)[j] == (DeliveryView {
                        outbound: orig[j].outbound,
                        line: line_s,
                    }),
            decreases n - k,
        {
            let ghost ps0 = self.peers@;
            let ghost cur = peer_views(ps0);
            let ghost ds0 = delivery_views(ds@);
            let out = self.peers[k].outbound;
            self.peers[k].queue.push(line.clone());
            ds.push(Delivery { outbound: out, line: line.clone() });
            proof {
                let p_new = self.peers@[k as int];
                assert(str_views(p_new.queue@) =~= cur[k as int].queue.push(line_s));
                assert(p_new@ =~~= push_line(cur[k as int], line_s));
                assert(cur[k as int] == orig[k as int]);
                assert forall|j: int| 0 <= j < k + 1 implies peer_views(self.peers@)[j]
                    == push_line(orig[j], line_s) by {
                    if j < k {
                        assert(self.peers@[j] == ps0[j]);
                        assert(peer_views(ps0)[j] == push_line(orig[j], line_s));
                    }
                }
                assert forall|j: int|
                    0 <= j < k + 1 implies delivery_views(ds@)[j] == (DeliveryView {
                        outbound: orig[j].outbound,
                        line: line_s,
                    }) by {
                    if j < k {
                        assert(delivery_views(ds@)[j] == ds0[j]);
                    }
                }
            }
            k = k + 1;
        }
        proof {
            assert(peer_views(self.peers@) =~= orig.map_values(
                |p: PeerView| push_line(p, line_s),
            ));
            assert(delivery_views(ds@) =~= orig.map_values(
                |p: PeerView| DeliveryView { outbound: p.outbound, line: line_s },
            ));
        }
        ds
    }

    /// Remove the registry entries whose queues drain to `outbound`.
    ///
    /// Called when a peer's writer task ends, so that later messages to
    /// the departed name are dropped cleanly instead of being enqueued
    /// for a writer that no longer exists.
    pub fn peer_departed(&mut self, outbound: u64)
        ensures
            final(self)@.peers == spec_depart(old(self)@.peers, outbound),
            final(self)@.shutdown_requested == old(self)@.shutdown_requested,
    {
        let ghost orig = peer_views(self.peers@);
        let mut kept: Vec<Peer> = Vec::new();
        proof {
            assert(peer_views(kept@) =~= Seq::<PeerView>::empty());
            assert(Seq::<PeerView>::empty() + spec_depart(orig, outbound) =~= spec_depart(
                orig,
                outbound,
            ));
        }
        while self.peers.len() > 0
            invariant
                self.shutdown_requested == old(self).shutdown_requested,
                spec_depart(orig, outbound) == peer_views(kept@) + spec_depart(
                    peer_views(self.peers@),
                    outbound,
                ),
            decreases self.peers@.len(),
        {
            let ghost rem = peer_views(self.peers@);
            let ghost kept0 = peer_views(kept@);
            let p = self.peers.remove(0);
            proof {
                assert(rem[0] == p@);
                assert(peer_views(self.peers@) =~= rem.drop_first());
            }
            if p.outbound != outbound {
                kept.push(p);
                proof {
                    assert(peer_views(kept@) =~= kept0.push(p@));
                    assert(kept0 + (seq![p@] + spec_depart(peer_views(self.peers@), outbound))
                        =~= peer_views(kept@) + spec_depart(peer_views(self.peers@), outbound));
                }
            }
        }
        proof {
            assert(peer_views(self.peers@) =~= Seq::<PeerView>::empty());
            assert(peer_views(kept@) + Seq::<PeerView>::empty() =~= peer_views(kept@));
        }
        self.peers = kept;
    }

    /// Process a whole sequence of events in order, as the broker's loop
    /// does while its inbound queue lasts, and report every delivery in
    /// the order it was performed.
    pub fn run(&mut self, events: Vec<Event>) -> (deliveries: Vec<Delivery>)
        ensures
            final(self)@ == spec_run(old(self)@, event_views(events@)).0,
            delivery_views(deliveries@) == spec_run(old(self)@, event_views(events@)).1,
    {
        let ghost orig = self@;
        let ghost es = event_views(events@);
        let mut events = events;
        let mut ds: Vec<Delivery> = Vec::new();
        proof {
            assert(delivery_views(ds@) =~= Seq::<DeliveryView>::empty());
            assert(Seq::<DeliveryView>::empty() + spec_run(orig, es).1 =~= spec_run(orig, es).1);
        }
        while events.len() > 0
            invariant
                spec_run(orig, es).0 == spec_run(self@, event_views(events@)).0,
                spec_run(orig, es).1 == delivery_views(ds@) + spec_run(
                    self@,
                    event_views(events@),
                ).1,
            decreases events@.len(),
        {
            let ghost cur = self@;
            let ghost rem = event_views(events@);
            let ghost ds_old = delivery_views(ds@);
            let e = events.remove(0);
            proof {
                assert(rem[0] == e@);
                assert(event_views(events@) =~= rem.drop_first());
            }
            let mut eff = self.step(e);
            ds.append(&mut eff.deliveries);
            proof {
                assert(delivery_views(ds@) =~= ds_old + spec_step(cur, rem[0]).1);
                assert(ds_old + (spec_step(cur, rem[0]).1 + spec_run(
                    self@,
                    rem.drop_first(),
                ).1) =~= delivery_views(ds@) + spec_run(self@, rem.drop_first()).1);
            }
        }
        proof {
            assert(event_views(events@) =~= Seq::<EventView>::empty());
            assert(delivery_views(ds@) + Seq::<DeliveryView>::empty() =~= delivery_views(ds@));
        }
        ds
    }
}

} // verus!
