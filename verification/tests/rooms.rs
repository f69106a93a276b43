use chat_server::rooms::RoomRegistry;
use chat_server::topic::Delivery;

#[test]
fn a_new_registry_has_no_rooms() {
    let rooms = RoomRegistry::new(16);
    assert_eq!(rooms.len(), 0);
    assert_eq!(rooms.capacity(), 16);
    assert_eq!(rooms.lookup("main"), None);
    assert!(rooms.subscribe(0).is_none());
}

#[test]
fn a_room_is_created_on_first_use() {
    let mut rooms = RoomRegistry::new(16);
    let main = rooms.join_or_create("main");
    assert_eq!(main, 0);
    assert_eq!(rooms.len(), 1);
    assert_eq!(rooms.lookup("main"), Some(0));
}

#[test]
fn the_same_room_gives_the_same_handle() {
    let mut rooms = RoomRegistry::new(16);
    let first = rooms.join_or_create("lounge");
    let other = rooms.join_or_create("main");
    for _ in 0..20 {
        assert_eq!(rooms.join_or_create("lounge"), first);
        assert_eq!(rooms.join_or_create("main"), other);
    }
    assert_ne!(first, other);
    assert_eq!(rooms.len(), 2);
}

#[test]
fn room_identifiers_are_case_sensitive() {
    let mut rooms = RoomRegistry::new(16);
    let lower = rooms.join_or_create("main");
    let upper = rooms.join_or_create("Main");
    let padded = rooms.join_or_create("main ");
    assert_ne!(lower, upper);
    assert_ne!(lower, padded);
    assert_ne!(upper, padded);
    assert_eq!(rooms.len(), 3);
}

#[test]
fn joining_again_keeps_the_topic_and_its_messages() {
    let mut rooms = RoomRegistry::new(16);
    let main = rooms.join_or_create("main");
    let mut sub = rooms.subscribe(main).unwrap();
    assert!(rooms.publish(main, "hello".to_string()));
    assert_eq!(rooms.join_or_create("main"), main);
    assert_eq!(rooms.recv(&mut sub), Delivery::Message("hello".to_string()));
    assert_eq!(rooms.recv(&mut sub), Delivery::Empty);
}

#[test]
fn rooms_do_not_share_messages() {
    let mut rooms = RoomRegistry::new(16);
    let main = rooms.join_or_create("main");
    let lounge = rooms.join_or_create("lounge");
    let mut in_main = rooms.subscribe(main).unwrap();
    let mut in_lounge = rooms.subscribe(lounge).unwrap();
    assert!(rooms.publish(main, "for main".to_string()));
    assert_eq!(rooms.recv(&mut in_lounge), Delivery::Empty);
    assert_eq!(rooms.recv(&mut in_main), Delivery::Message("for main".to_string()));
    assert!(rooms.publish(lounge, "for lounge".to_string()));
    assert_eq!(rooms.recv(&mut in_main), Delivery::Empty);
    assert_eq!(rooms.recv(&mut in_lounge), Delivery::Message("for lounge".to_string()));
}

#[test]
fn an_unknown_handle_is_refused() {
    let mut rooms = RoomRegistry::new(16);
    let main = rooms.join_or_create("main");
    assert!(!rooms.publish(main + 1, "lost".to_string()));
    assert!(rooms.subscribe(main + 1).is_none());
    let mut elsewhere = RoomRegistry::new(16);
    elsewhere.join_or_create("a");
    let far = elsewhere.join_or_create("b");
    let mut stray = elsewhere.subscribe(far).unwrap();
    assert_eq!(stray.topic(), far);
    assert_eq!(rooms.recv(&mut stray), Delivery::Closed);
    assert_eq!(elsewhere.recv(&mut stray), Delivery::Empty);
    let mut sub = rooms.subscribe(main).unwrap();
    assert_eq!(rooms.recv(&mut sub), Delivery::Empty);
}

#[test]
fn an_empty_room_stays() {
    let mut rooms = RoomRegistry::new(2);
    let main = rooms.join_or_create("main");
    {
        let _sub = rooms.subscribe(main).unwrap();
    }
    assert_eq!(rooms.lookup("main"), Some(main));
    assert!(rooms.publish(main, "nobody hears".to_string()));
    assert_eq!(rooms.len(), 1);
}

#[test]
fn every_room_has_the_registry_capacity() {
    let mut rooms = RoomRegistry::new(2);
    let main = rooms.join_or_create("main");
    let mut sub = rooms.subscribe(main).unwrap();
    for word in ["a", "b", "c"] {
        assert!(rooms.publish(main, word.to_string()));
    }
    assert_eq!(rooms.recv(&mut sub), Delivery::Lagged(1));
    assert_eq!(rooms.recv(&mut sub), Delivery::Message("b".to_string()));
    assert_eq!(rooms.recv(&mut sub), Delivery::Message("c".to_string()));
    assert_eq!(rooms.recv(&mut sub), Delivery::Empty);
}
