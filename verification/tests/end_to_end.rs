//! The whole relay exercised the way the server wires it: handlers turn
//! lines into events, the broker routes, per-peer queues receive the
//! rendered lines.

use chat::broker::{Broker, Delivery};
use chat::handler::{Handler, RaceOutcome, ReadOutcome};

/// Feed one raw input line from an already-joined client through its
/// handler into the broker, returning the deliveries it caused.
fn send_line(h: &mut Handler, b: &mut Broker, line: &str) -> Vec<Delivery> {
    let event = h
        .on_race(RaceOutcome::Received(ReadOutcome::Line(line.to_string())))
        .unwrap()
        .unwrap();
    b.step(event).deliveries
}

#[test]
fn two_clients_broadcast_then_whisper() {
    let mut broker = Broker::new();

    // Client A connects and announces its name.
    let mut a = Handler::new();
    let join_a = a.on_name(ReadOutcome::Line("A".to_string()), 1).unwrap().unwrap();
    let eff = broker.step(join_a);
    assert_eq!(eff.spawn_writer, Some(1));

    // Client B connects and announces its name.
    let mut b = Handler::new();
    let join_b = b.on_name(ReadOutcome::Line("B".to_string()), 2).unwrap().unwrap();
    let eff = broker.step(join_b);
    assert_eq!(eff.spawn_writer, Some(2));

    // A broadcasts: both A and B receive the rendered line.
    let ds = send_line(&mut a, &mut broker, "hi everyone");
    assert_eq!(ds.len(), 2);
    assert_eq!(ds[0].outbound, 1);
    assert_eq!(ds[0].line, "A: hi everyone\n");
    assert_eq!(ds[1].outbound, 2);
    assert_eq!(ds[1].line, "A: hi everyone\n");

    // A whispers to B: only B receives it.
    let ds = send_line(&mut a, &mut broker, "B: secret");
    assert_eq!(ds.len(), 1);
    assert_eq!(ds[0].outbound, 2);
    assert_eq!(ds[0].line, "A: secret\n");

    // The queues the broker kept agree with the deliveries.
    assert_eq!(broker.peers[0].queue, vec!["A: hi everyone\n".to_string()]);
    assert_eq!(
        broker.peers[1].queue,
        vec!["A: hi everyone\n".to_string(), "A: secret\n".to_string()]
    );
}
