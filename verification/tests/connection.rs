use chat_server::connection::Connection;
use chat_server::names::NameRegistry;
use chat_server::rooms::{RoomRegistry, DEFAULT_CAPACITY};
use chat_server::session::{Input, Phase, Session};

fn wire_text(bytes: &[u8]) -> String {
    String::from_utf8(bytes.to_vec()).unwrap()
}

#[test]
fn the_default_capacity_is_a_few_tens() {
    assert_eq!(DEFAULT_CAPACITY, 32);
}

#[test]
fn accepting_admits_and_greets() {
    let mut names = NameRegistry::new();
    let mut rooms = RoomRegistry::new(DEFAULT_CAPACITY);
    let (conn, greeting) = Connection::accept("10.0.0.1:1", &mut names, &mut rooms);
    assert_eq!(wire_text(&greeting), "* you are 10.0.0.1:1\n");
    assert!(!conn.is_closed());
    assert_eq!(conn.session().phase(), Phase::Active);
    assert_eq!(conn.session().name(), "10.0.0.1:1");
    assert_eq!(conn.session().room(), "main");
    assert!(names.is_held("10.0.0.1:1"));
}

#[test]
fn accepting_a_held_identity_closes_the_connection() {
    let mut names = NameRegistry::new();
    let mut rooms = RoomRegistry::new(DEFAULT_CAPACITY);
    assert!(names.claim("10.0.0.1:1"));
    let (conn, greeting) = Connection::accept("10.0.0.1:1", &mut names, &mut rooms);
    assert_eq!(wire_text(&greeting), "* name 10.0.0.1:1 is taken\n");
    assert!(conn.is_closed());
    assert_eq!(rooms.len(), 0);
}

#[test]
fn bytes_in_become_bytes_out() {
    let mut names = NameRegistry::new();
    let mut rooms = RoomRegistry::new(DEFAULT_CAPACITY);
    let (mut a, _) = Connection::accept("a", &mut names, &mut rooms);
    let (mut b, _) = Connection::accept("b", &mut names, &mut rooms);
    assert_eq!(wire_text(&a.relay(&rooms)), "* a joined main\n* b joined main\n");
    assert_eq!(wire_text(&b.relay(&rooms)), "* b joined main\n");

    let out = a.receive(b"/name Alice\nhello\n/join main\n", &mut names, &mut rooms);
    assert_eq!(wire_text(&out), "* you are now Alice\n* you are already in main\n");
    assert_eq!(wire_text(&b.relay(&rooms)), "* a is now Alice\n(Alice): hello\n");
    assert_eq!(wire_text(&b.relay(&rooms)), "");
    assert_eq!(a.session().name(), "Alice");
}

#[test]
fn a_line_may_arrive_in_pieces() {
    let mut names = NameRegistry::new();
    let mut rooms = RoomRegistry::new(DEFAULT_CAPACITY);
    let (mut a, _) = Connection::accept("a", &mut names, &mut rooms);
    a.relay(&rooms);
    assert!(a.receive(b"/na", &mut names, &mut rooms).is_empty());
    assert!(a.receive(b"me Al", &mut names, &mut rooms).is_empty());
    assert_eq!(a.session().name(), "a");
    let out = a.receive(b"ice\nhel", &mut names, &mut rooms);
    assert_eq!(wire_text(&out), "* you are now Alice\n");
    assert_eq!(a.session().name(), "Alice");
    assert_eq!(wire_text(&a.relay(&rooms)), "* a is now Alice\n");
    assert!(a.receive(b"lo\n", &mut names, &mut rooms).is_empty());
    assert_eq!(wire_text(&a.relay(&rooms)), "(Alice): hello\n");
}

#[test]
fn nothing_after_quit_is_handled() {
    let mut names = NameRegistry::new();
    let mut rooms = RoomRegistry::new(DEFAULT_CAPACITY);
    let (mut a, _) = Connection::accept("a", &mut names, &mut rooms);
    let (mut b, _) = Connection::accept("b", &mut names, &mut rooms);
    b.relay(&rooms);
    let out = a.receive(b"bye\n/quit\n/name Zed\nlate\n", &mut names, &mut rooms);
    assert!(out.is_empty());
    assert!(a.is_closed());
    assert!(!names.is_held("a"));
    assert!(!names.is_held("Zed"));
    assert_eq!(wire_text(&b.relay(&rooms)), "(a): bye\n");
    assert!(a.relay(&rooms).is_empty());
}

#[test]
fn a_record_that_is_not_text_ends_the_session() {
    let mut names = NameRegistry::new();
    let mut rooms = RoomRegistry::new(DEFAULT_CAPACITY);
    let (mut a, _) = Connection::accept("a", &mut names, &mut rooms);
    let sent = [b'h', b'i', b'\n', 0xFF, 0xFE, b'\n', b'x', b'\n'];
    let out = a.receive(&sent, &mut names, &mut rooms);
    assert!(out.is_empty());
    assert!(a.is_closed());
    assert!(!names.is_held("a"));
    let (mut b, _) = Connection::accept("b", &mut names, &mut rooms);
    assert_eq!(wire_text(&b.relay(&rooms)), "* b joined main\n");
}

#[test]
fn the_end_of_the_stream_frees_the_name() {
    let mut names = NameRegistry::new();
    let mut rooms = RoomRegistry::new(DEFAULT_CAPACITY);
    let (mut a, _) = Connection::accept("a", &mut names, &mut rooms);
    a.receive(b"/name Alice\nunfinished", &mut names, &mut rooms);
    a.end(&mut names);
    assert!(a.is_closed());
    assert!(!names.is_held("Alice"));
    let (mut b, _) = Connection::accept("b", &mut names, &mut rooms);
    let out = b.receive(b"/name Alice\n", &mut names, &mut rooms);
    assert_eq!(wire_text(&out), "* you are now Alice\n");
}

#[test]
fn a_client_that_fell_behind_is_told_once() {
    let mut names = NameRegistry::new();
    let mut rooms = RoomRegistry::new(2);
    let (mut a, _) = Connection::accept("a", &mut names, &mut rooms);
    let (mut b, _) = Connection::accept("b", &mut names, &mut rooms);
    b.relay(&rooms);
    a.receive(b"1\n2\n3\n4\n", &mut names, &mut rooms);
    assert_eq!(
        wire_text(&b.relay(&rooms)),
        "* some messages were dropped\n(a): 3\n(a): 4\n"
    );
    assert!(b.relay(&rooms).is_empty());
    a.receive(b"5\n", &mut names, &mut rooms);
    assert_eq!(wire_text(&b.relay(&rooms)), "(a): 5\n");
}

#[test]
fn chunking_does_not_change_the_outcome() {
    let stream: &[u8] = b"/name Alice\nhi\n/join lounge\n/join lounge\nthere\n/quit\nx\n";
    let mut names = NameRegistry::new();
    let mut rooms = RoomRegistry::new(DEFAULT_CAPACITY);
    let (mut whole, _) = Connection::accept("a", &mut names, &mut rooms);
    let (mut watcher, _) = Connection::accept("w", &mut names, &mut rooms);
    let expected_out = whole.receive(stream, &mut names, &mut rooms);
    let expected_seen = watcher.relay(&rooms);
    for cut in 0..=stream.len() {
        let mut names = NameRegistry::new();
        let mut rooms = RoomRegistry::new(DEFAULT_CAPACITY);
        let (mut conn, _) = Connection::accept("a", &mut names, &mut rooms);
        let (mut watcher, _) = Connection::accept("w", &mut names, &mut rooms);
        let mut out = conn.receive(&stream[..cut], &mut names, &mut rooms);
        out.extend(conn.receive(&stream[cut..], &mut names, &mut rooms));
        assert_eq!(out, expected_out);
        assert_eq!(watcher.relay(&rooms), expected_seen);
        assert!(conn.is_closed());
        assert_eq!(rooms.len(), 2);
    }
}

#[test]
fn inputs_drive_the_session() {
    let mut names = NameRegistry::new();
    let mut rooms = RoomRegistry::new(DEFAULT_CAPACITY);
    let mut session = Session::new("a");
    assert_eq!(
        session.on(&Input::Admit, &mut names, &mut rooms),
        vec!["* you are a".to_string()]
    );
    assert_eq!(
        session.on(&Input::Line("/name Alice".to_string()), &mut names, &mut rooms),
        vec!["* you are now Alice".to_string()]
    );
    assert!(session.on(&Input::Line("hello".to_string()), &mut names, &mut rooms).is_empty());
    assert_eq!(
        session.drain(&rooms),
        vec![
            "* a joined main".to_string(),
            "* a is now Alice".to_string(),
            "(Alice): hello".to_string(),
        ]
    );
    assert!(session.drain(&rooms).is_empty());
    assert!(session.on(&Input::End, &mut names, &mut rooms).is_empty());
    assert!(session.is_closed());
    assert!(!names.is_held("Alice"));
    assert!(session.drain(&rooms).is_empty());
}
