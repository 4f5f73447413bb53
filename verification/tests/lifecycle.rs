use chat::error::ChatError;
use chat::event::Event;
use chat::handler::{Handler, HandlerPhase, RaceOutcome, ReadOutcome};
use chat::listener::{Listener, ListenerAction, ListenerWake};
use chat::shutdown::{Shutdown, ShutdownSignal};

#[test]
fn handler_first_line_becomes_new_peer_event() {
    let mut h = Handler::new();
    let r = h.on_name(ReadOutcome::Line("alice".to_string()), 42);
    match r {
        Ok(Some(Event::NewPeer { name, outbound })) => {
            assert_eq!(name, "alice");
            assert_eq!(outbound, 42);
        }
        _ => panic!("expected a new-peer event"),
    }
    assert!(matches!(h.phase, HandlerPhase::Active));
}

#[test]
fn immediate_disconnect_is_reported_distinctly() {
    let mut h = Handler::new();
    let r = h.on_name(ReadOutcome::Eof, 1);
    assert_eq!(r.unwrap_err(), ChatError::PeerDisconnectedError);
    assert!(matches!(h.phase, HandlerPhase::Terminated));
}

#[test]
fn failed_first_read_surfaces_io_error() {
    let mut h = Handler::new();
    let r = h.on_name(ReadOutcome::Failed, 1);
    assert_eq!(r.unwrap_err(), ChatError::IOError);
    assert!(matches!(h.phase, HandlerPhase::Terminated));
}

#[test]
fn active_handler_classifies_lines_and_stays_active() {
    let mut h = Handler::new();
    h.on_name(ReadOutcome::Line("alice".to_string()), 1).unwrap();
    let r = h.on_race(RaceOutcome::Received(ReadOutcome::Line("bob: hi".to_string())));
    match r {
        Ok(Some(Event::DirectMessage { message, to })) => {
            assert_eq!(message.from, "alice");
            assert_eq!(message.text, "hi");
            assert_eq!(to, vec!["bob".to_string()]);
        }
        _ => panic!("expected a direct message event"),
    }
    assert!(matches!(h.phase, HandlerPhase::Active));
    // The shutdown command is an event, not the end of this connection.
    let r = h.on_race(RaceOutcome::Received(ReadOutcome::Line("shutdown".to_string())));
    assert!(matches!(r, Ok(Some(Event::Shutdown))));
    assert!(matches!(h.phase, HandlerPhase::Active));
}

#[test]
fn shutdown_notice_terminates_without_event_or_error() {
    let mut h = Handler::new();
    h.on_name(ReadOutcome::Line("a".to_string()), 1).unwrap();
    let r = h.on_race(RaceOutcome::ShutdownNotice);
    assert!(matches!(r, Ok(None)));
    assert!(matches!(h.phase, HandlerPhase::Terminated));
}

#[test]
fn clean_disconnect_terminates_without_error() {
    let mut h = Handler::new();
    h.on_name(ReadOutcome::Line("a".to_string()), 1).unwrap();
    let r = h.on_race(RaceOutcome::Received(ReadOutcome::Eof));
    assert!(matches!(r, Ok(None)));
    assert!(matches!(h.phase, HandlerPhase::Terminated));
}

#[test]
fn signal_fires_once_and_observers_see_it_immediately() {
    let mut signal = ShutdownSignal::new();
    assert!(!signal.is_fired());
    signal.fire();
    assert!(signal.is_fired());
    // Firing again is indistinguishable from the first firing.
    signal.fire();
    assert!(signal.is_fired());

    let mut sub = Shutdown::new();
    assert!(!sub.is_shutdown());
    sub.recv(&signal);
    assert!(sub.is_shutdown());
    // Observing again returns at once and changes nothing.
    sub.recv(&signal);
    assert!(sub.is_shutdown());

    // A subscriber created after the second firing observes it too.
    let mut late = Shutdown::new();
    late.recv(&signal);
    assert!(late.is_shutdown());
}

#[test]
fn listener_accepts_until_interrupted_or_shut_down() {
    let mut l = Listener::new();
    assert!(matches!(l.on_wake(ListenerWake::Incoming), ListenerAction::SpawnHandler));
    assert!(matches!(l.on_wake(ListenerWake::Incoming), ListenerAction::SpawnHandler));
    assert!(matches!(l.on_wake(ListenerWake::ShutdownObserved), ListenerAction::Stop));
    assert!(matches!(l.on_wake(ListenerWake::Incoming), ListenerAction::Stop));

    let mut l = Listener::new();
    assert!(matches!(l.on_wake(ListenerWake::Interrupted), ListenerAction::Stop));
    assert!(!l.accepting);
}

#[test]
fn errors_describe_themselves() {
    assert_eq!(
        ChatError::PeerDisconnectedError.describe(),
        "Peer disconnected immediately"
    );
    assert_ne!(ChatError::IOError.describe(), ChatError::TelemetryError.describe());
}
