//! The routing laws: what the broker's state machine guarantees across
//! whole event sequences.

use vstd::prelude::*;

use crate::broker::{
    find_peer, lemma_find_peer, push_line, spec_broadcast, spec_deliver_list, spec_deliver_one,
    spec_depart, spec_run, spec_step, BrokerView, DeliveryView, PeerView,
};
use crate::event::EventView;
use crate::message::render_spec;

verus! {

/// Whether some registry entry carries `n`.
pub open spec fn has_peer(ps: Seq<PeerView>, n: Seq<char>) -> bool {
    exists|j: int| 0 <= j < ps.len() && ps[j].name == n
}

/// A name is found exactly when some entry carries it.
pub proof fn lemma_find_peer_has(ps: Seq<PeerView>, n: Seq<char>)
    ensures
        (find_peer(ps, n) is Some) == has_peer(ps, n),
{
    lemma_find_peer(ps, n);
    if find_peer(ps, n) is Some {
        let i = find_peer(ps, n)->0;
        assert(0 <= i < ps.len() && ps[i].name == n);
    }
}

/// `find_peer` looks only at names: two registries whose entries carry
/// the same names agree on every lookup.
pub proof fn lemma_find_peer_same_names(ps1: Seq<PeerView>, ps2: Seq<PeerView>, n: Seq<char>)
    requires
        ps1.len() == ps2.len(),
        forall|j: int| 0 <= j < ps1.len() ==> ps1[j].name == ps2[j].name,
    ensures
        find_peer(ps1, n) == find_peer(ps2, n),
    decreases ps1.len(),
{
    if ps1.len() > 0 {
        assert forall|j: int| 0 <= j < ps1.drop_first().len() implies ps1.drop_first()[j].name
            == ps2.drop_first()[j].name by {
            assert(ps1.drop_first()[j] == ps1[j + 1]);
            assert(ps2.drop_first()[j] == ps2[j + 1]);
        }
        lemma_find_peer_same_names(ps1.drop_first(), ps2.drop_first(), n);
    }
}

/// Delivering changes only queues: entry count, names and outbound
/// handles all survive a delivery list.
pub proof fn lemma_deliver_list_shape(peers: Seq<PeerView>, line: Seq<char>, to: Seq<Seq<char>>)
    ensures
        spec_deliver_list(peers, line, to).0.len() == peers.len(),
        forall|j: int|
            0 <= j < peers.len() ==> spec_deliver_list(peers, line, to).0[j].name == peers[j].name
                && spec_deliver_list(peers, line, to).0[j].outbound == peers[j].outbound,
    decreases to.len(),
{
    if to.len() > 0 {
        let first = spec_deliver_one(peers, line, to[0]);
        lemma_find_peer(peers, to[0]);
        assert(first.0.len() == peers.len());
        assert forall|j: int| 0 <= j < peers.len() implies first.0[j].name == peers[j].name
            && first.0[j].outbound == peers[j].outbound by {}
        lemma_deliver_list_shape(first.0, line, to.drop_first());
        assert(spec_deliver_list(peers, line, to).0 == spec_deliver_list(
            first.0,
            line,
            to.drop_first(),
        ).0);
    }
}

/// Every broker step preserves the registry invariant: no two entries
/// ever share a name, so every name has exactly one queue.
pub proof fn lemma_step_preserves_wf(b: BrokerView, e: EventView)
    requires
        b.wf(),
    ensures
        spec_step(b, e).0.wf(),
{
    match e {
        EventView::NewPeer { name, outbound } => {
            if find_peer(b.peers, name) is None {
                lemma_find_peer(b.peers, name);
                let ps = spec_step(b, e).0.peers;
                assert forall|i: int, j: int| 0 <= i < j < ps.len() implies ps[i].name
                    != ps[j].name by {
                    if j < ps.len() - 1 {
                        assert(b.peers[i].name != b.peers[j].name);
                    } else {
                        assert(b.peers[i].name != name);
                    }
                }
            }
        },
        EventView::DirectMessage { from, text, to } => {
            lemma_deliver_list_shape(b.peers, render_spec(from, text), to);
            let ps = spec_step(b, e).0.peers;
            assert forall|i: int, j: int| 0 <= i < j < ps.len() implies ps[i].name
                != ps[j].name by {
                assert(ps[i].name == b.peers[i].name);
                assert(ps[j].name == b.peers[j].name);
            }
        },
        EventView::BroadcastMessage { from, text } => {
            let line = render_spec(from, text);
            let ps = spec_broadcast(b.peers, line).0;
            assert forall|i: int, j: int| 0 <= i < j < ps.len() implies ps[i].name
                != ps[j].name by {
                assert(ps[i] == push_line(b.peers[i], line));
                assert(ps[j] == push_line(b.peers[j], line));
            }
        },
        EventView::Shutdown => {},
    }
}

/// A step registers a name only when the event is a `NewPeer` carrying
/// it; every other name is registered afterwards exactly when it was
/// before.
proof fn lemma_step_new_peer_names(b: BrokerView, name: Seq<char>, outbound: u64, n: Seq<char>)
    ensures
        has_peer(spec_step(b, (EventView::NewPeer { name, outbound })).0.peers, n) == (has_peer(
            b.peers,
            n,
        ) || n == name),
{
    let e = EventView::NewPeer { name, outbound };
    let ps = spec_step(b, e).0.peers;
    lemma_find_peer_has(b.peers, name);
    if find_peer(b.peers, name) is Some {
        if n == name {
            assert(has_peer(b.peers, n));
        }
    } else {
        if has_peer(b.peers, n) {
            let j = choose|j: int| 0 <= j < b.peers.len() && b.peers[j].name == n;
            assert(ps[j].name == n);
        }
        if n == name {
            assert(ps[ps.len() - 1].name == n);
        }
        if has_peer(ps, n) {
            let j = choose|j: int| 0 <= j < ps.len() && ps[j].name == n;
            if j < ps.len() - 1 {
                assert(b.peers[j].name == n);
            }
        }
    }
}

/// For any sequence of `NewPeer` events the registry ends up with
/// exactly one entry per distinct name: at most one because the
/// invariant survives every step, and at least one because a name is
/// registered afterwards exactly when it was registered before or some
/// event announced it. Lookup does not depend on arrival order.
pub proof fn lemma_one_entry_per_name(b: BrokerView, es: Seq<EventView>)
    requires
        b.wf(),
        forall|k: int| 0 <= k < es.len() ==> es[k] is NewPeer,
    ensures
        spec_run(b, es).0.wf(),
        forall|n: Seq<char>|
            has_peer(spec_run(b, es).0.peers, n) == (has_peer(b.peers, n) || exists|k: int|
                0 <= k < es.len() && es[k]->name == n),
    decreases es.len(),
{
    if es.len() == 0 {
    } else {
        let e = es[0];
        let b1 = spec_step(b, e).0;
        lemma_step_preserves_wf(b, e);
        assert(e == (EventView::NewPeer { name: e->name, outbound: e->outbound }));
        assert forall|k: int| 0 <= k < es.drop_first().len() implies es.drop_first()[k]
            is NewPeer by {
            assert(es.drop_first()[k] == es[k + 1]);
        }
        lemma_one_entry_per_name(b1, es.drop_first());
        assert(spec_run(b, es).0 == spec_run(b1, es.drop_first()).0);
        assert forall|n: Seq<char>|
            has_peer(spec_run(b, es).0.peers, n) == (has_peer(b.peers, n) || exists|k: int|
                0 <= k < es.len() && es[k]->name == n) by {
            lemma_step_new_peer_names(b, e->name, e->outbound, n);
            assert(has_peer(b1.peers, n) == (has_peer(b.peers, n) || n == e->name));
            if has_peer(spec_run(b, es).0.peers, n) {
                if !has_peer(b.peers, n) {
                    if has_peer(b1.peers, n) {
                        assert(es[0]->name == n);
                    } else {
                        let k = choose|k: int|
                            0 <= k < es.drop_first().len() && es.drop_first()[k]->name == n;
                        assert(es[k + 1]->name == n);
                    }
                }
            }
            if exists|k: int| 0 <= k < es.len() && es[k]->name == n {
                let k = choose|k: int| 0 <= k < es.len() && es[k]->name == n;
                if k == 0 {
                    assert(has_peer(b1.peers, n));
                } else {
                    assert(es.drop_first()[k - 1]->name == n);
                    assert(exists|k2: int|
                        0 <= k2 < es.drop_first().len() && es.drop_first()[k2]->name == n);
                    assert(has_peer(spec_run(b1, es.drop_first()).0.peers, n) == (has_peer(
                        b1.peers,
                        n,
                    ) || exists|k2: int|
                        0 <= k2 < es.drop_first().len() && es.drop_first()[k2]->name == n));
                    assert(has_peer(spec_run(b1, es.drop_first()).0.peers, n));
                }
            }
            if has_peer(b.peers, n) {
                assert(has_peer(b1.peers, n));
            }
        }
    }
}

/// One direct message to a single registered recipient: the recipient's
/// queue gains the rendered line and the one delivery goes to the
/// outbound handle its registry entry holds.
pub proof fn lemma_direct_single(b: BrokerView, from: Seq<char>, text: Seq<char>, p: Seq<char>)
    requires
        find_peer(b.peers, p) is Some,
    ensures
        spec_step(b, (EventView::DirectMessage { from, text, to: seq![p] })).0.peers
            == b.peers.update(
            find_peer(b.peers, p)->0,
            push_line(b.peers[find_peer(b.peers, p)->0], render_spec(from, text)),
        ),
        spec_step(b, (EventView::DirectMessage { from, text, to: seq![p] })).0.shutdown_requested
            == b.shutdown_requested,
        spec_step(b, (EventView::DirectMessage { from, text, to: seq![p] })).1 == seq![
            (DeliveryView {
                outbound: b.peers[find_peer(b.peers, p)->0].outbound,
                line: render_spec(from, text),
            }),
        ],
{
    let line = render_spec(from, text);
    let to = seq![p];
    let i = find_peer(b.peers, p)->0;
    lemma_find_peer(b.peers, p);
    assert(to[0] == p);
    assert(to.drop_first() =~= Seq::<Seq<char>>::empty());
    let first = spec_deliver_one(b.peers, line, p);
    assert(spec_deliver_list(first.0, line, to.drop_first()) == (first.0, Seq::<
        DeliveryView,
    >::empty()));
    assert(first.1 + Seq::<DeliveryView>::empty() =~= first.1);
}

/// First registration wins: a second `NewPeer` for a taken name changes
/// nothing at all — the new outbound handle is discarded — and a message
/// to that name is still delivered to the handle the first registration
/// supplied.
pub proof fn lemma_first_registration_wins(
    b: BrokerView,
    name: Seq<char>,
    second: u64,
    from: Seq<char>,
    text: Seq<char>,
)
    requires
        find_peer(b.peers, name) is Some,
    ensures
        spec_step(b, (EventView::NewPeer { name, outbound: second })).0 == b,
        spec_step(b, (EventView::NewPeer { name, outbound: second })).1 == Seq::<
            DeliveryView,
        >::empty(),
        spec_step(
            spec_step(b, (EventView::NewPeer { name, outbound: second })).0,
            (EventView::DirectMessage { from, text, to: seq![name] }),
        ).1 == seq![
            (DeliveryView {
                outbound: b.peers[find_peer(b.peers, name)->0].outbound,
                line: render_spec(from, text),
            }),
        ],
{
    lemma_direct_single(b, from, text, name);
}

/// A broadcast delivers exactly one copy to every registered peer, the
/// sender included: each queue gains the rendered line once, and the
/// deliveries name every entry's outbound handle in registry order.
pub proof fn lemma_broadcast_reaches_every_peer(b: BrokerView, from: Seq<char>, text: Seq<char>)
    ensures
        spec_step(b, (EventView::BroadcastMessage { from, text })).0.peers.len()
            == b.peers.len(),
        forall|i: int|
            0 <= i < b.peers.len() ==> spec_step(
                b,
                (EventView::BroadcastMessage { from, text }),
            ).0.peers[i] == push_line(b.peers[i], render_spec(from, text)),
        spec_step(b, (EventView::BroadcastMessage { from, text })).1.len() == b.peers.len(),
        forall|i: int|
            0 <= i < b.peers.len() ==> spec_step(
                b,
                (EventView::BroadcastMessage { from, text }),
            ).1[i] == (DeliveryView { outbound: b.peers[i].outbound, line: render_spec(
                from,
                text,
            ) }),
{
}

/// A direct message to a registered recipient and an unknown one: only
/// the registered recipient's queue receives the line, every other entry
/// is untouched, and no error arises.
pub proof fn lemma_direct_skips_unknown(
    b: BrokerView,
    from: Seq<char>,
    text: Seq<char>,
    x: Seq<char>,
    y: Seq<char>,
)
    requires
        find_peer(b.peers, x) is Some,
        find_peer(b.peers, y) is None,
    ensures
        spec_step(b, (EventView::DirectMessage { from, text, to: seq![x, y] })).0.peers
            == b.peers.update(
            find_peer(b.peers, x)->0,
            push_line(b.peers[find_peer(b.peers, x)->0], render_spec(from, text)),
        ),
        spec_step(b, (EventView::DirectMessage { from, text, to: seq![x, y] })).1 == seq![
            (DeliveryView {
                outbound: b.peers[find_peer(b.peers, x)->0].outbound,
                line: render_spec(from, text),
            }),
        ],
{
    let line = render_spec(from, text);
    let to = seq![x, y];
    let i = find_peer(b.peers, x)->0;
    lemma_find_peer(b.peers, x);
    assert(to[0] == x);
    let first = spec_deliver_one(b.peers, line, x);
    let ps1 = first.0;
    assert forall|j: int| 0 <= j < b.peers.len() implies ps1[j].name == b.peers[j].name by {}
    lemma_find_peer_same_names(ps1, b.peers, y);
    assert(to.drop_first() =~= seq![y]);
    assert(to.drop_first()[0] == y);
    assert(to.drop_first().drop_first() =~= Seq::<Seq<char>>::empty());
    assert(spec_deliver_one(ps1, line, y) == (ps1, Seq::<DeliveryView>::empty()));
    assert(spec_deliver_list(ps1, line, Seq::<Seq<char>>::empty()) == (ps1, Seq::<
        DeliveryView,
    >::empty()));
    assert(to.drop_first().drop_first() == Seq::<Seq<char>>::empty());
    assert(spec_deliver_list(ps1, line, to.drop_first()).0 == ps1);
    assert(spec_deliver_list(ps1, line, to.drop_first()).1 =~= Seq::<DeliveryView>::empty());
    assert(spec_deliver_list(b.peers, line, to).0 == ps1);
    assert(first.1 + spec_deliver_list(ps1, line, to.drop_first()).1 =~= first.1);
}

/// The line an event carries on behalf of its sender, as the recipient
/// sees it.
pub open spec fn message_line(e: EventView) -> Seq<char>
    recommends
        e is DirectMessage || e is BroadcastMessage,
{
    match e {
        EventView::DirectMessage { from, text, .. } => render_spec(from, text),
        EventView::BroadcastMessage { from, text } => render_spec(from, text),
        _ => Seq::<char>::empty(),
    }
}

/// Whether an event is destined for the registered peer named `p`: a
/// direct message addressed exactly to it, or a broadcast.
pub open spec fn destined_for(e: EventView, p: Seq<char>) -> bool {
    match e {
        EventView::DirectMessage { to, .. } => to == seq![p],
        EventView::BroadcastMessage { .. } => true,
        _ => false,
    }
}

/// One step of an event destined for the registered peer `p` appends
/// exactly that event's rendered line to p's queue, and keeps every
/// entry's name and outbound handle.
pub proof fn lemma_step_appends_line(b: BrokerView, e: EventView, p: Seq<char>)
    requires
        find_peer(b.peers, p) is Some,
        destined_for(e, p),
    ensures
        spec_step(b, e).0.peers.len() == b.peers.len(),
        spec_step(b, e).0.peers[find_peer(b.peers, p)->0].queue == b.peers[find_peer(
            b.peers,
            p,
        )->0].queue.push(message_line(e)),
        forall|j: int|
            0 <= j < b.peers.len() ==> (#[trigger] spec_step(b, e).0.peers[j]).name
                == b.peers[j].name && spec_step(b, e).0.peers[j].outbound
                == b.peers[j].outbound,
{
    let i = find_peer(b.peers, p)->0;
    lemma_find_peer(b.peers, p);
    match e {
        EventView::DirectMessage { from, text, to } => {
            lemma_direct_single(b, from, text, p);
            let ps = spec_step(b, e).0.peers;
            assert(ps == b.peers.update(i, push_line(b.peers[i], render_spec(from, text))));
            assert forall|j: int|
                0 <= j < b.peers.len() implies (#[trigger] ps[j]).name == b.peers[j].name
                && ps[j].outbound == b.peers[j].outbound by {}
        },
        EventView::BroadcastMessage { from, text } => {
            let line = render_spec(from, text);
            let ps = spec_step(b, e).0.peers;
            assert(ps[i] == push_line(b.peers[i], line));
            assert forall|j: int|
                0 <= j < b.peers.len() implies (#[trigger] ps[j]).name == b.peers[j].name
                && ps[j].outbound == b.peers[j].outbound by {
                assert(ps[j] == push_line(b.peers[j], line));
            }
        },
        _ => {},
    }
}

/// Per-peer delivery order: three events destined for the same
/// registered peer — direct messages addressed to it or broadcasts, in
/// any mix — processed in that order, land on that peer's queue in
/// exactly that order.
pub proof fn lemma_per_peer_fifo(
    b: BrokerView,
    e1: EventView,
    e2: EventView,
    e3: EventView,
    p: Seq<char>,
)
    requires
        find_peer(b.peers, p) is Some,
        destined_for(e1, p),
        destined_for(e2, p),
        destined_for(e3, p),
    ensures
        spec_run(b, seq![e1, e2, e3]).0.peers[find_peer(b.peers, p)->0].queue == b.peers[
            find_peer(b.peers, p)->0
        ].queue + seq![message_line(e1), message_line(e2), message_line(e3)],
{
    let i = find_peer(b.peers, p)->0;
    let es = seq![e1, e2, e3];
    lemma_find_peer(b.peers, p);
    lemma_step_appends_line(b, e1, p);
    let b1 = spec_step(b, e1).0;
    lemma_find_peer_same_names(b1.peers, b.peers, p);
    lemma_step_appends_line(b1, e2, p);
    let b2 = spec_step(b1, e2).0;
    lemma_find_peer_same_names(b2.peers, b.peers, p);
    lemma_step_appends_line(b2, e3, p);
    let b3 = spec_step(b2, e3).0;
    assert(es[0] == e1);
    assert(es.drop_first() =~= seq![e2, e3]);
    assert(es.drop_first()[0] == e2);
    assert(es.drop_first().drop_first() =~= seq![e3]);
    assert(es.drop_first().drop_first()[0] == e3);
    assert(es.drop_first().drop_first().drop_first() =~= Seq::<EventView>::empty());
    assert(spec_run(b3, Seq::<EventView>::empty()).0 == b3);
    assert(spec_run(b2, es.drop_first().drop_first()).0 == b3);
    assert(spec_run(b1, es.drop_first()).0 == b3);
    assert(spec_run(b, es).0 == b3);
    assert(b3.peers[i].queue =~= b.peers[i].queue + seq![
        message_line(e1),
        message_line(e2),
        message_line(e3),
    ]);
}

/// Every entry that survives a departure stood in the registry before
/// it, and none of the survivors drains to the departed handle.
proof fn lemma_depart_element(ps: Seq<PeerView>, h: u64)
    ensures
        forall|j: int|
            0 <= j < spec_depart(ps, h).len() ==> ps.contains(#[trigger] spec_depart(ps, h)[j])
                && spec_depart(ps, h)[j].outbound != h,
    decreases ps.len(),
{
    if ps.len() > 0 {
        lemma_depart_element(ps.drop_first(), h);
        let r = spec_depart(ps, h);
        let rt = spec_depart(ps.drop_first(), h);
        assert forall|j: int| 0 <= j < r.len() implies ps.contains(r[j]) && r[j].outbound
            != h by {
            if ps[0].outbound == h {
                assert(r[j] == rt[j]);
                assert(ps.drop_first().contains(rt[j]));
                let i = choose|i: int|
                    0 <= i < ps.drop_first().len() && ps.drop_first()[i] == rt[j];
                assert(ps[i + 1] == r[j]);
            } else {
                if j == 0 {
                    assert(r[0] == ps[0]);
                } else {
                    assert(r[j] == rt[j - 1]);
                    assert(ps.drop_first().contains(rt[j - 1]));
                    let i = choose|i: int|
                        0 <= i < ps.drop_first().len() && ps.drop_first()[i] == rt[j - 1];
                    assert(ps[i + 1] == r[j]);
                }
            }
        }
    }
}

/// Cleanup on writer exit is sound: removing a departed writer's entries
/// keeps the registry invariant, and afterwards no entry drains to the
/// departed handle, so a message to the departed peer is dropped
/// cleanly rather than enqueued for a writer that no longer runs.
pub proof fn lemma_depart_preserves_wf(b: BrokerView, h: u64)
    requires
        b.wf(),
    ensures
        (BrokerView { peers: spec_depart(b.peers, h), shutdown_requested: b.shutdown_requested
        }).wf(),
        forall|j: int|
            0 <= j < spec_depart(b.peers, h).len() ==> (#[trigger] spec_depart(b.peers, h)[j])
                .outbound != h,
{
    lemma_depart_wf_rec(b.peers, h);
    lemma_depart_element(b.peers, h);
}

proof fn lemma_depart_wf_rec(ps: Seq<PeerView>, h: u64)
    requires
        forall|i: int, j: int| 0 <= i < j < ps.len() ==> ps[i].name != ps[j].name,
    ensures
        forall|i: int, j: int|
            0 <= i < j < spec_depart(ps, h).len() ==> spec_depart(ps, h)[i].name != spec_depart(
                ps,
                h,
            )[j].name,
    decreases ps.len(),
{
    if ps.len() > 0 {
        assert forall|i: int, j: int| 0 <= i < j < ps.drop_first().len() implies ps.drop_first()[
            i
        ].name != ps.drop_first()[j].name by {
            assert(ps.drop_first()[i] == ps[i + 1]);
            assert(ps.drop_first()[j] == ps[j + 1]);
        }
        lemma_depart_wf_rec(ps.drop_first(), h);
        lemma_depart_element(ps.drop_first(), h);
        let r = spec_depart(ps, h);
        let rt = spec_depart(ps.drop_first(), h);
        if ps[0].outbound != h {
            assert forall|i: int, j: int| 0 <= i < j < r.len() implies r[i].name != r[j].name by {
                if i == 0 {
                    assert(r[j] == rt[j - 1]);
                    assert(ps.drop_first().contains(rt[j - 1]));
                    let m = choose|m: int|
                        0 <= m < ps.drop_first().len() && ps.drop_first()[m] == rt[j - 1];
                    assert(ps.drop_first()[m] == ps[m + 1]);
                    assert(ps[0].name != ps[m + 1].name);
                } else {
                    assert(r[i] == rt[i - 1]);
                    assert(r[j] == rt[j - 1]);
                }
            }
        }
    }
}

/// A second shutdown request is invisible: the broker state after two
/// `Shutdown` events is exactly the state after one, and neither touches
/// the registry or delivers anything.
pub proof fn lemma_shutdown_request_idempotent(b: BrokerView)
    ensures
        spec_step(spec_step(b, EventView::Shutdown).0, EventView::Shutdown).0 == spec_step(
            b,
            EventView::Shutdown,
        ).0,
        spec_step(b, EventView::Shutdown).0.peers == b.peers,
        spec_step(b, EventView::Shutdown).1 == Seq::<DeliveryView>::empty(),
{
}

} // verus!
