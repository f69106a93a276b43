use chat_server::names::NameRegistry;
use chat_server::rooms::RoomRegistry;
use chat_server::session::{Phase, Session};
use chat_server::topic::Delivery;

fn admitted(peer: &str, names: &mut NameRegistry, rooms: &mut RoomRegistry) -> Session {
    let mut session = Session::new(peer);
    let replies = session.activate(names, rooms);
    assert_eq!(replies, vec![format!("* you are {}", peer)]);
    assert!(session.is_active());
    session
}

fn drain(session: &mut Session, rooms: &RoomRegistry) -> Vec<String> {
    let mut lines: Vec<String> = Vec::new();
    loop {
        match session.poll(rooms) {
            Delivery::Message(line) => lines.push(line),
            Delivery::Lagged(_) => lines.push("<lagged>".to_string()),
            Delivery::Empty => return lines,
            Delivery::Closed => panic!("subscription closed"),
        }
    }
}

fn no_lines() -> Vec<String> {
    Vec::new()
}

#[test]
fn a_new_session_is_connected_under_its_peer_identity() {
    let session = Session::new("10.0.0.1:5000");
    assert_eq!(session.phase(), Phase::Connected);
    assert!(!session.is_active());
    assert!(!session.is_closed());
    assert_eq!(session.name(), "10.0.0.1:5000");
    assert_eq!(session.room(), "main");
}

#[test]
fn admission_claims_the_name_and_enters_main() {
    let mut names = NameRegistry::new();
    let mut rooms = RoomRegistry::new(16);
    let mut session = Session::new("10.0.0.1:5000");
    let replies = session.activate(&mut names, &mut rooms);
    assert_eq!(replies, vec!["* you are 10.0.0.1:5000".to_string()]);
    assert_eq!(session.phase(), Phase::Active);
    assert!(names.is_held("10.0.0.1:5000"));
    assert_eq!(rooms.lookup("main"), Some(0));
    assert_eq!(drain(&mut session, &rooms), vec!["* 10.0.0.1:5000 joined main".to_string()]);
}

#[test]
fn admission_happens_once() {
    let mut names = NameRegistry::new();
    let mut rooms = RoomRegistry::new(16);
    let mut session = admitted("a", &mut names, &mut rooms);
    assert_eq!(drain(&mut session, &rooms).len(), 1);
    assert_eq!(session.activate(&mut names, &mut rooms), no_lines());
    assert!(session.is_active());
    assert_eq!(drain(&mut session, &rooms), no_lines());
}

#[test]
fn a_connection_whose_identity_is_held_is_turned_away() {
    let mut names = NameRegistry::new();
    let mut rooms = RoomRegistry::new(16);
    let mut squatter = admitted("a", &mut names, &mut rooms);
    assert_eq!(squatter.handle_line("/name 10.0.0.2:6000", &mut names, &mut rooms).len(), 1);
    let mut late = Session::new("10.0.0.2:6000");
    let replies = late.activate(&mut names, &mut rooms);
    assert_eq!(replies, vec!["* name 10.0.0.2:6000 is taken".to_string()]);
    assert!(late.is_closed());
    assert!(names.is_held("10.0.0.2:6000"));
    late.close(&mut names);
    assert!(names.is_held("10.0.0.2:6000"));
    assert_eq!(squatter.name(), "10.0.0.2:6000");
}

#[test]
fn lines_before_admission_do_nothing() {
    let mut names = NameRegistry::new();
    let mut rooms = RoomRegistry::new(16);
    let mut session = Session::new("a");
    assert_eq!(session.handle_line("/name Alice", &mut names, &mut rooms), no_lines());
    assert_eq!(session.handle_line("hello", &mut names, &mut rooms), no_lines());
    assert_eq!(session.phase(), Phase::Connected);
    assert_eq!(session.name(), "a");
    assert!(!names.is_held("Alice"));
    assert_eq!(rooms.len(), 0);
    assert_eq!(session.poll(&rooms), Delivery::Closed);
}

#[test]
fn rename_to_a_free_name() {
    let mut names = NameRegistry::new();
    let mut rooms = RoomRegistry::new(16);
    let mut a = admitted("a", &mut names, &mut rooms);
    drain(&mut a, &rooms);
    let replies = a.handle_line("/name Alice", &mut names, &mut rooms);
    assert_eq!(replies, vec!["* you are now Alice".to_string()]);
    assert_eq!(a.name(), "Alice");
    assert!(names.is_held("Alice"));
    assert!(!names.is_held("a"));
    assert_eq!(drain(&mut a, &rooms), vec!["* a is now Alice".to_string()]);
}

#[test]
fn rename_to_a_held_name_changes_nothing() {
    let mut names = NameRegistry::new();
    let mut rooms = RoomRegistry::new(16);
    let mut a = admitted("a", &mut names, &mut rooms);
    let mut b = admitted("b", &mut names, &mut rooms);
    drain(&mut a, &rooms);
    drain(&mut b, &rooms);
    let replies = b.handle_line("/name a", &mut names, &mut rooms);
    assert_eq!(replies, vec!["* name a is taken".to_string()]);
    assert_eq!(b.name(), "b");
    assert!(names.is_held("a"));
    assert!(names.is_held("b"));
    assert_eq!(drain(&mut a, &rooms), no_lines());
    assert_eq!(drain(&mut b, &rooms), no_lines());
}

#[test]
fn rename_to_the_own_name_is_refused() {
    let mut names = NameRegistry::new();
    let mut rooms = RoomRegistry::new(16);
    let mut a = admitted("a", &mut names, &mut rooms);
    let replies = a.handle_line("/name a", &mut names, &mut rooms);
    assert_eq!(replies, vec!["* name a is taken".to_string()]);
    assert_eq!(a.name(), "a");
    assert!(names.is_held("a"));
}

#[test]
fn join_of_the_current_room_is_answered_once_and_changes_nothing() {
    let mut names = NameRegistry::new();
    let mut rooms = RoomRegistry::new(16);
    let mut a = admitted("a", &mut names, &mut rooms);
    let mut b = admitted("b", &mut names, &mut rooms);
    drain(&mut a, &rooms);
    drain(&mut b, &rooms);
    let replies = a.handle_line("/join main", &mut names, &mut rooms);
    assert_eq!(replies, vec!["* you are already in main".to_string()]);
    assert_eq!(a.room(), "main");
    assert_eq!(a.name(), "a");
    assert!(a.is_active());
    assert_eq!(rooms.len(), 1);
    assert!(names.is_held("a"));
    assert_eq!(drain(&mut a, &rooms), no_lines());
    assert_eq!(drain(&mut b, &rooms), no_lines());
    let again = a.handle_line("/join main", &mut names, &mut rooms);
    assert_eq!(again, vec!["* you are already in main".to_string()]);
}

#[test]
fn join_of_another_room_moves_the_session() {
    let mut names = NameRegistry::new();
    let mut rooms = RoomRegistry::new(16);
    let mut a = admitted("a", &mut names, &mut rooms);
    let mut b = admitted("b", &mut names, &mut rooms);
    drain(&mut a, &rooms);
    drain(&mut b, &rooms);
    let replies = b.handle_line("/join lounge", &mut names, &mut rooms);
    assert_eq!(replies, no_lines());
    assert_eq!(b.room(), "lounge");
    assert_eq!(rooms.len(), 2);
    assert_eq!(rooms.lookup("lounge"), Some(1));
    assert_eq!(drain(&mut a, &rooms), vec!["* b left main".to_string()]);
    assert_eq!(drain(&mut b, &rooms), vec!["* b joined lounge".to_string()]);
}

#[test]
fn chat_reaches_the_room_with_the_name_of_its_author() {
    let mut names = NameRegistry::new();
    let mut rooms = RoomRegistry::new(16);
    let mut a = admitted("a", &mut names, &mut rooms);
    let mut b = admitted("b", &mut names, &mut rooms);
    drain(&mut a, &rooms);
    drain(&mut b, &rooms);
    assert_eq!(a.handle_line("hello there", &mut names, &mut rooms), no_lines());
    assert_eq!(drain(&mut b, &rooms), vec!["(a): hello there".to_string()]);
    assert_eq!(drain(&mut a, &rooms), vec!["(a): hello there".to_string()]);
}

#[test]
fn say_publishes_under_the_current_name() {
    let mut names = NameRegistry::new();
    let mut rooms = RoomRegistry::new(16);
    let mut a = admitted("a", &mut names, &mut rooms);
    drain(&mut a, &rooms);
    assert!(a.say(&mut rooms, "/quit is just text here"));
    assert_eq!(drain(&mut a, &rooms), vec!["(a): /quit is just text here".to_string()]);
    assert!(a.is_active());
}

#[test]
fn the_empty_line_is_ignored() {
    let mut names = NameRegistry::new();
    let mut rooms = RoomRegistry::new(16);
    let mut a = admitted("a", &mut names, &mut rooms);
    drain(&mut a, &rooms);
    assert_eq!(a.handle_line("", &mut names, &mut rooms), no_lines());
    assert_eq!(drain(&mut a, &rooms), no_lines());
    assert!(a.is_active());
}

#[test]
fn a_message_published_before_a_rename_keeps_the_old_name() {
    let mut names = NameRegistry::new();
    let mut rooms = RoomRegistry::new(16);
    let mut a = admitted("a", &mut names, &mut rooms);
    let mut b = admitted("b", &mut names, &mut rooms);
    drain(&mut b, &rooms);
    a.handle_line("before", &mut names, &mut rooms);
    a.handle_line("/name Alice", &mut names, &mut rooms);
    a.handle_line("after", &mut names, &mut rooms);
    assert_eq!(
        drain(&mut b, &rooms),
        vec![
            "(a): before".to_string(),
            "* a is now Alice".to_string(),
            "(Alice): after".to_string(),
        ]
    );
}

#[test]
fn quit_closes_and_frees_the_name() {
    let mut names = NameRegistry::new();
    let mut rooms = RoomRegistry::new(16);
    let mut a = admitted("a", &mut names, &mut rooms);
    a.handle_line("/name Alice", &mut names, &mut rooms);
    assert_eq!(a.handle_line("/quit", &mut names, &mut rooms), no_lines());
    assert!(a.is_closed());
    assert_eq!(a.phase(), Phase::Closed);
    assert!(!names.is_held("Alice"));
    assert!(!names.is_held("a"));
    assert_eq!(a.poll(&rooms), Delivery::Closed);
    assert_eq!(a.handle_line("hello", &mut names, &mut rooms), no_lines());
    assert_eq!(a.handle_line("/name Carol", &mut names, &mut rooms), no_lines());
    assert!(!names.is_held("Carol"));
}

#[test]
fn closing_twice_releases_nothing_more() {
    let mut names = NameRegistry::new();
    let mut rooms = RoomRegistry::new(16);
    let mut a = admitted("a", &mut names, &mut rooms);
    a.close(&mut names);
    assert!(!names.is_held("a"));
    let b = admitted("a", &mut names, &mut rooms);
    a.close(&mut names);
    assert!(names.is_held("a"));
    assert!(b.is_active());
}

#[test]
fn closing_before_admission_releases_nothing() {
    let mut names = NameRegistry::new();
    assert!(names.claim("a"));
    let mut early = Session::new("a");
    early.close(&mut names);
    assert!(early.is_closed());
    assert!(names.is_held("a"));
}

#[test]
fn two_clients_share_a_room_until_one_moves() {
    let mut names = NameRegistry::new();
    let mut rooms = RoomRegistry::new(16);

    let mut a = admitted("10.0.0.1:1", &mut names, &mut rooms);
    assert_eq!(
        a.handle_line("/name Alice", &mut names, &mut rooms),
        vec!["* you are now Alice".to_string()]
    );
    assert_eq!(a.room(), "main");

    let mut b = admitted("10.0.0.2:2", &mut names, &mut rooms);
    assert_eq!(
        b.handle_line("/name Alice", &mut names, &mut rooms),
        vec!["* name Alice is taken".to_string()]
    );
    assert_eq!(a.name(), "Alice");
    assert_eq!(b.name(), "10.0.0.2:2");

    assert_eq!(
        b.handle_line("/name Bob", &mut names, &mut rooms),
        vec!["* you are now Bob".to_string()]
    );
    assert_eq!(b.name(), "Bob");
    drain(&mut a, &rooms);
    drain(&mut b, &rooms);

    a.handle_line("hello", &mut names, &mut rooms);
    assert_eq!(drain(&mut b, &rooms), vec!["(Alice): hello".to_string()]);

    b.handle_line("/join lounge", &mut names, &mut rooms);
    assert_eq!(b.room(), "lounge");
    drain(&mut a, &rooms);
    drain(&mut b, &rooms);

    a.handle_line("anyone there?", &mut names, &mut rooms);
    assert_eq!(drain(&mut b, &rooms), no_lines());
    assert_eq!(drain(&mut a, &rooms), vec!["(Alice): anyone there?".to_string()]);

    b.handle_line("in the lounge", &mut names, &mut rooms);
    assert_eq!(drain(&mut a, &rooms), no_lines());
    assert_eq!(drain(&mut b, &rooms), vec!["(Bob): in the lounge".to_string()]);
}

#[test]
fn the_name_of_a_dropped_connection_is_free_at_once() {
    let mut names = NameRegistry::new();
    let mut rooms = RoomRegistry::new(16);
    let mut a = admitted("10.0.0.1:1", &mut names, &mut rooms);
    a.handle_line("/name Alice", &mut names, &mut rooms);
    a.close(&mut names);
    assert!(a.is_closed());
    assert!(!names.is_held("Alice"));
    assert!(!names.is_held("10.0.0.1:1"));

    let mut b = admitted("10.0.0.2:2", &mut names, &mut rooms);
    assert_eq!(
        b.handle_line("/name Alice", &mut names, &mut rooms),
        vec!["* you are now Alice".to_string()]
    );
    b.close(&mut names);
    assert!(!names.is_held("Alice"));
    assert!(!names.is_held("10.0.0.2:2"));
}

#[test]
fn a_slow_session_loses_the_oldest_messages_only() {
    let mut names = NameRegistry::new();
    let mut rooms = RoomRegistry::new(3);
    let mut a = admitted("a", &mut names, &mut rooms);
    let mut b = admitted("b", &mut names, &mut rooms);
    drain(&mut a, &rooms);
    drain(&mut b, &rooms);
    for word in ["1", "2", "3", "4", "5"] {
        a.handle_line(word, &mut names, &mut rooms);
    }
    assert_eq!(b.poll(&rooms), Delivery::Lagged(2));
    assert_eq!(b.poll(&rooms), Delivery::Message("(a): 3".to_string()));
    assert_eq!(b.poll(&rooms), Delivery::Message("(a): 4".to_string()));
    assert_eq!(b.poll(&rooms), Delivery::Message("(a): 5".to_string()));
    assert_eq!(b.poll(&rooms), Delivery::Empty);
    assert!(b.is_active());
}

#[test]
fn coming_back_to_a_room_shows_no_history() {
    let mut names = NameRegistry::new();
    let mut rooms = RoomRegistry::new(16);
    let mut a = admitted("a", &mut names, &mut rooms);
    let mut b = admitted("b", &mut names, &mut rooms);
    b.handle_line("/join lounge", &mut names, &mut rooms);
    a.handle_line("while you were away", &mut names, &mut rooms);
    b.handle_line("/join main", &mut names, &mut rooms);
    assert_eq!(drain(&mut b, &rooms), vec!["* b joined main".to_string()]);
    assert_eq!(rooms.len(), 2);
}
