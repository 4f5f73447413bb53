use chat::broker::Broker;
use chat::event::Event;
use chat::message::Message;

fn new_peer(name: &str, outbound: u64) -> Event {
    Event::NewPeer { name: name.to_string(), outbound }
}

fn direct(from: &str, text: &str, to: &[&str]) -> Event {
    Event::DirectMessage {
        message: Message::new(from.to_string(), text.to_string()),
        to: to.iter().map(|s| s.to_string()).collect(),
    }
}

fn broadcast(from: &str, text: &str) -> Event {
    Event::BroadcastMessage(Message::new(from.to_string(), text.to_string()))
}

#[test]
fn distinct_names_register_once_each() {
    let mut b = Broker::new();
    for (i, name) in ["alice", "bob", "carol"].iter().enumerate() {
        let eff = b.step(new_peer(name, i as u64));
        assert_eq!(eff.spawn_writer, Some(i as u64));
        assert!(eff.deliveries.is_empty());
    }
    assert_eq!(b.peers.len(), 3);
    assert_eq!(b.peers[0].name, "alice");
    assert_eq!(b.peers[1].name, "bob");
    assert_eq!(b.peers[2].name, "carol");
}

#[test]
fn duplicate_name_keeps_first_outbound_handle() {
    let mut b = Broker::new();
    b.step(new_peer("alice", 7));
    let eff = b.step(new_peer("alice", 8));
    // The second registration is a no-op: no new writer, nothing delivered.
    assert_eq!(eff.spawn_writer, None);
    assert!(eff.deliveries.is_empty());
    assert_eq!(b.peers.len(), 1);
    assert_eq!(b.peers[0].outbound, 7);
    // A message to that name goes to the first handle's queue only.
    let eff = b.step(direct("bob", "hi", &["alice"]));
    assert_eq!(eff.deliveries.len(), 1);
    assert_eq!(eff.deliveries[0].outbound, 7);
    assert_eq!(eff.deliveries[0].line, "bob: hi\n");
}

#[test]
fn broadcast_reaches_every_peer_including_sender() {
    let mut b = Broker::new();
    b.step(new_peer("a", 1));
    b.step(new_peer("b", 2));
    b.step(new_peer("c", 3));
    let eff = b.step(broadcast("a", "m"));
    assert_eq!(eff.deliveries.len(), 3);
    let handles: Vec<u64> = eff.deliveries.iter().map(|d| d.outbound).collect();
    assert_eq!(handles, vec![1, 2, 3]);
    for d in &eff.deliveries {
        assert_eq!(d.line, "a: m\n");
    }
    for p in &b.peers {
        assert_eq!(p.queue, vec!["a: m\n".to_string()]);
    }
}

#[test]
fn direct_message_skips_unregistered_names_silently() {
    let mut b = Broker::new();
    b.step(new_peer("x", 1));
    let eff = b.step(direct("x", "m", &["x", "y"]));
    assert_eq!(eff.deliveries.len(), 1);
    assert_eq!(eff.deliveries[0].outbound, 1);
    assert_eq!(b.peers[0].queue, vec!["x: m\n".to_string()]);
}

#[test]
fn duplicate_recipients_deliver_twice() {
    let mut b = Broker::new();
    b.step(new_peer("x", 1));
    let eff = b.step(direct("s", "m", &["x", "x"]));
    assert_eq!(eff.deliveries.len(), 2);
    assert_eq!(b.peers[0].queue.len(), 2);
}

#[test]
fn per_peer_delivery_order_follows_event_order() {
    let mut b = Broker::new();
    b.step(new_peer("p", 1));
    b.step(new_peer("q", 2));
    let events = vec![
        direct("a", "one", &["p"]),
        broadcast("b", "two"),
        direct("c", "three", &["p"]),
    ];
    b.run(events);
    assert_eq!(
        b.peers[0].queue,
        vec![
            "a: one\n".to_string(),
            "b: two\n".to_string(),
            "c: three\n".to_string()
        ]
    );
    assert_eq!(b.peers[1].queue, vec!["b: two\n".to_string()]);
}

#[test]
fn shutdown_request_raises_flag_and_broker_continues() {
    let mut b = Broker::new();
    b.step(new_peer("a", 1));
    let eff = b.step(Event::Shutdown);
    assert!(eff.signal_shutdown);
    assert!(eff.deliveries.is_empty());
    assert!(b.shutdown_requested);
    // A second request changes nothing observable.
    let before = b.peers[0].queue.clone();
    let eff = b.step(Event::Shutdown);
    assert!(eff.signal_shutdown);
    assert!(b.shutdown_requested);
    assert_eq!(b.peers[0].queue, before);
    // The broker still routes after a shutdown request.
    let eff = b.step(broadcast("a", "still here"));
    assert_eq!(eff.deliveries.len(), 1);
}

#[test]
fn departed_peer_is_removed_and_messages_to_it_are_dropped() {
    let mut b = Broker::new();
    b.step(new_peer("alice", 1));
    b.step(new_peer("bob", 2));
    // Alice's writer task ends; her registry entry goes with it.
    b.peer_departed(1);
    assert_eq!(b.peers.len(), 1);
    assert_eq!(b.peers[0].name, "bob");
    // A message to the departed name is dropped without error.
    let eff = b.step(direct("bob", "anyone there?", &["alice"]));
    assert!(eff.deliveries.is_empty());
    // A broadcast now reaches only the remaining peer.
    let eff = b.step(broadcast("bob", "just me"));
    assert_eq!(eff.deliveries.len(), 1);
    assert_eq!(eff.deliveries[0].outbound, 2);
}

#[test]
fn message_to_nobody_delivers_nowhere() {
    let mut b = Broker::new();
    let eff = b.step(direct("ghost", "m", &["nobody"]));
    assert!(eff.deliveries.is_empty());
    assert!(b.peers.is_empty());
}
