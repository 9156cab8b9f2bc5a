use chatcore::bus::{BroadcastBus, Envelope};
use chatcore::client::{client_action, ClientAction};
use chatcore::message::Message;
use chatcore::parse::LineCommand;
use chatcore::session::{Reaction, UserSession};
use chatcore::store::UserStore;

fn parse_payload(line: &str) -> Message {
    match Message::from_str(line) {
        Ok(LineCommand::Send(m)) => m,
        _ => panic!("line did not parse to a payload"),
    }
}

fn reply_text(r: &Reaction) -> String {
    match &r.reply {
        Some(Message::Text(t)) => t.clone(),
        _ => panic!("expected a text reply"),
    }
}

/// Drive the signup of scenario one: alice on session A, bob on session B.
fn signup_two(
    store: &mut UserStore,
    a: &mut UserSession,
    b: &mut UserSession,
) {
    let ra = a.handle_frame(store, parse_payload(".signup alice pw"), 10);
    assert_eq!(reply_text(&ra), "Welcome, alice");
    let rb = b.handle_frame(store, parse_payload(".signup bob pw"), 11);
    assert_eq!(reply_text(&rb), "Welcome, bob");
}

#[test]
fn signup_then_chat_reaches_the_peer_and_the_history() {
    let mut store = UserStore::new();
    let mut bus = BroadcastBus::new(20);
    let mut a = UserSession::new(1);
    let sub_a = bus.subscribe();
    let mut b = UserSession::new(2);
    let sub_b = bus.subscribe();
    signup_two(&mut store, &mut a, &mut b);

    let r = a.handle_frame(&mut store, parse_payload("hello"), 12);
    assert!(r.reply.is_none());
    assert!(!r.end);
    let published = r.publish.expect("content was not published");
    bus.publish(&Envelope { from: a.peer, message: published });

    // B forwards the broadcast; A skips its own envelope.
    let env_b = bus.recv(sub_b).expect("B got no envelope");
    match b.handle_broadcast(env_b) {
        Some(Message::Text(t)) => assert_eq!(t, "hello"),
        _ => panic!("B did not receive the text"),
    }
    let env_a = bus.recv(sub_a).expect("A got no envelope");
    assert!(a.handle_broadcast(env_a).is_none());

    let rows = store.get_user_messages();
    assert_eq!(rows.len(), 1);
    assert_eq!(rows[0].author_name, "alice");
    assert_eq!(rows[0].message, "hello");
}

#[test]
fn wrong_password_is_refused_and_persists_nothing() {
    let mut store = UserStore::new();
    let mut a = UserSession::new(1);
    let mut b = UserSession::new(2);
    signup_two(&mut store, &mut a, &mut b);

    let mut c = UserSession::new(3);
    let r = c.handle_frame(&mut store, parse_payload(".login alice wrong"), 20);
    assert_eq!(reply_text(&r), "Authentication failure");
    let r2 = c.handle_frame(&mut store, parse_payload("hello"), 21);
    assert_eq!(
        reply_text(&r2),
        "Permission denied, login first using .login <username> <password>"
    );
    assert!(r2.publish.is_none());
    assert_eq!(store.get_user_messages().len(), 0);
}

#[test]
fn change_password_takes_effect_on_the_next_login() {
    let mut store = UserStore::new();
    let mut a = UserSession::new(1);
    let mut b = UserSession::new(2);
    signup_two(&mut store, &mut a, &mut b);

    let r = a.handle_frame(&mut store, parse_payload(".passwd np np"), 30);
    assert_eq!(reply_text(&r), "Password updated successfully");

    // A reconnects on a fresh session.
    let mut a2 = UserSession::new(4);
    let old = a2.handle_frame(&mut store, parse_payload(".login alice pw"), 31);
    assert_eq!(reply_text(&old), "Authentication failure");
    let new = a2.handle_frame(&mut store, parse_payload(".login alice np"), 32);
    assert_eq!(reply_text(&new), "Welcome, alice");
}

#[test]
fn file_transfer_reaches_the_peer_with_the_exact_bytes() {
    let mut store = UserStore::new();
    let mut bus = BroadcastBus::new(20);
    let mut a = UserSession::new(1);
    let _sub_a = bus.subscribe();
    let mut b = UserSession::new(2);
    let sub_b = bus.subscribe();
    signup_two(&mut store, &mut a, &mut b);

    // A's client read /tmp/x.bin and sends its five bytes.
    let payload = Message::File(String::from("/tmp/x.bin"), vec![1, 2, 3, 4, 5]);
    let r = a.handle_frame(&mut store, payload, 40);
    bus.publish(&Envelope { from: a.peer, message: r.publish.unwrap() });

    let env = bus.recv(sub_b).unwrap();
    let forwarded = b.handle_broadcast(env).expect("B got nothing");
    match client_action(forwarded, 0).expect("client refused the file") {
        ClientAction::WriteFile(path, bytes) => {
            assert_eq!(path, "files/x.bin");
            assert_eq!(bytes, vec![1, 2, 3, 4, 5]);
        }
        _ => panic!("not a file write"),
    }
}

#[test]
fn already_logged_in_is_reported() {
    let mut store = UserStore::new();
    let mut a = UserSession::new(1);
    let mut b = UserSession::new(2);
    signup_two(&mut store, &mut a, &mut b);

    let r = a.handle_frame(&mut store, parse_payload(".login alice pw"), 50);
    assert_eq!(reply_text(&r), "Already logged in!");
    let r2 = a.handle_frame(&mut store, parse_payload(".signup carol pw"), 51);
    assert_eq!(reply_text(&r2), "Already logged in!");
}

#[test]
fn quit_ends_the_session_and_later_chat_skips_it() {
    let mut store = UserStore::new();
    let mut bus = BroadcastBus::new(20);
    let mut a = UserSession::new(1);
    let sub_a = bus.subscribe();
    let mut b = UserSession::new(2);
    let _sub_b = bus.subscribe();
    signup_two(&mut store, &mut a, &mut b);

    let r = a.handle_frame(&mut store, parse_payload(".quit"), 60);
    assert!(r.end);
    assert!(r.reply.is_none());
    bus.unsubscribe(sub_a);

    let r2 = b.handle_frame(&mut store, parse_payload("hi"), 61);
    bus.publish(&Envelope { from: b.peer, message: r2.publish.unwrap() });
    let rows = store.get_user_messages();
    assert_eq!(rows.len(), 1);
    assert_eq!(rows[0].author_name, "bob");
    assert_eq!(rows[0].message, "hi");
    // A's released subscription received nothing.
    assert!(bus.recv(sub_a).is_none());
}

#[test]
fn unauthenticated_sessions_receive_no_broadcasts() {
    let mut store = UserStore::new();
    let mut bus = BroadcastBus::new(20);
    let mut a = UserSession::new(1);
    let _sub_a = bus.subscribe();
    let c = UserSession::new(3);
    let sub_c = bus.subscribe();
    let ra = a.handle_frame(&mut store, parse_payload(".signup alice pw"), 70);
    assert_eq!(reply_text(&ra), "Welcome, alice");

    for _ in 0..3 {
        let r = a.handle_frame(&mut store, parse_payload("spam"), 71);
        bus.publish(&Envelope { from: a.peer, message: r.publish.unwrap() });
    }
    // C's queue holds envelopes, but the unauthenticated session forwards none.
    let mut forwarded = 0;
    while let Some(env) = bus.recv(sub_c) {
        if c.handle_broadcast(env).is_some() {
            forwarded += 1;
        }
    }
    assert_eq!(forwarded, 0);
}

#[test]
fn a_full_subscription_drops_its_oldest_envelope() {
    let mut bus = BroadcastBus::new(2);
    let sub = bus.subscribe();
    for text in ["one", "two", "three"] {
        bus.publish(&Envelope { from: 9, message: Message::Text(String::from(text)) });
    }
    match bus.recv(sub) {
        Some(Envelope { message: Message::Text(t), .. }) => assert_eq!(t, "two"),
        _ => panic!("oldest surviving envelope wrong"),
    }
    match bus.recv(sub) {
        Some(Envelope { message: Message::Text(t), .. }) => assert_eq!(t, "three"),
        _ => panic!("newest envelope wrong"),
    }
    assert!(bus.recv(sub).is_none());
}

#[test]
fn persistence_survives_a_full_subscriber_queue() {
    let mut store = UserStore::new();
    let mut bus = BroadcastBus::new(1);
    let mut a = UserSession::new(1);
    let _sub_a = bus.subscribe();
    let mut b = UserSession::new(2);
    let sub_b = bus.subscribe();
    signup_two(&mut store, &mut a, &mut b);

    for text in ["first", "second"] {
        let r = a.handle_frame(&mut store, parse_payload(text), 80);
        bus.publish(&Envelope { from: a.peer, message: r.publish.unwrap() });
    }
    // B's queue of one lost the older envelope ...
    match bus.recv(sub_b) {
        Some(Envelope { message: Message::Text(t), .. }) => assert_eq!(t, "second"),
        _ => panic!("queue content wrong"),
    }
    // ... but the history lists both messages.
    let rows = store.get_user_messages();
    assert_eq!(rows.len(), 2);
}
