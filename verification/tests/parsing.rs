use chat::event::Event;
use chat::message::Message;

fn direct_parts(e: Event) -> (String, String, Vec<String>) {
    match e {
        Event::DirectMessage { message, to } => (message.from, message.text, to),
        _ => panic!("expected a direct message"),
    }
}

fn broadcast_parts(e: Event) -> (String, String) {
    match e {
        Event::BroadcastMessage(message) => (message.from, message.text),
        _ => panic!("expected a broadcast"),
    }
}

#[test]
fn direct_line_parses_recipients_and_text() {
    let e = Event::from_line("carol".to_string(), "alice,bob: hello there".to_string());
    let (from, text, to) = direct_parts(e);
    assert_eq!(from, "carol");
    assert_eq!(text, "hello there");
    assert_eq!(to, vec!["alice".to_string(), "bob".to_string()]);
}

#[test]
fn plain_line_parses_to_broadcast() {
    let e = Event::from_line("alice".to_string(), "hello".to_string());
    let (from, text) = broadcast_parts(e);
    assert_eq!(from, "alice");
    assert_eq!(text, "hello");
}

#[test]
fn shutdown_line_is_exact_lowercase_match() {
    assert!(matches!(
        Event::from_line("a".to_string(), "shutdown".to_string()),
        Event::Shutdown
    ));
    // Any other casing is an ordinary broadcast line.
    let (_, text) = broadcast_parts(Event::from_line("a".to_string(), "Shutdown".to_string()));
    assert_eq!(text, "Shutdown");
    let (_, text) = broadcast_parts(Event::from_line("a".to_string(), "SHUTDOWN".to_string()));
    assert_eq!(text, "SHUTDOWN");
}

#[test]
fn recipients_are_trimmed_and_kept_in_order() {
    let e = Event::from_line("x".to_string(), "  bob ,  alice , bob :  spaced text  ".to_string());
    let (_, text, to) = direct_parts(e);
    assert_eq!(text, "spaced text");
    assert_eq!(
        to,
        vec!["bob".to_string(), "alice".to_string(), "bob".to_string()]
    );
}

#[test]
fn split_happens_at_first_colon_only() {
    let e = Event::from_line("x".to_string(), "bob: see: this".to_string());
    let (_, text, to) = direct_parts(e);
    assert_eq!(to, vec!["bob".to_string()]);
    assert_eq!(text, "see: this");
}

#[test]
fn empty_recipient_list_stays_one_empty_name() {
    let e = Event::from_line("x".to_string(), ": hi".to_string());
    let (_, text, to) = direct_parts(e);
    assert_eq!(to, vec!["".to_string()]);
    assert_eq!(text, "hi");
}

#[test]
fn broadcast_text_is_trimmed() {
    let (_, text) = broadcast_parts(Event::from_line("x".to_string(), "  hi all \u{9}".to_string()));
    assert_eq!(text, "hi all");
}

#[test]
fn empty_line_is_empty_broadcast() {
    let (_, text) = broadcast_parts(Event::from_line("x".to_string(), "".to_string()));
    assert_eq!(text, "");
}

#[test]
fn message_renders_with_sender_prefix_and_newline() {
    let m = Message::new("alice".to_string(), "hi".to_string());
    assert_eq!(m.render_line(), "alice: hi\n");
}
