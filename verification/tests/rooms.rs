use chatalone::id::{GeneralId, Id};
use chatalone::room::{PublishOutcome, RecvOutcome, RoomEvents, RoomRegistry, RegistryError, ROOM_BACKLOG};

#[test]
fn two_subscribers_both_receive_one_publication() {
    let mut reg = RoomRegistry::new();
    reg.get_or_create(Id(7), "lobby");
    let mut s1 = reg.subscribe(Id(7)).unwrap();
    let mut s2 = reg.subscribe(Id(7)).unwrap();
    let out = reg.publish(Id(7), RoomEvents::Message("hi".to_string()));
    assert_eq!(out, PublishOutcome::Delivered(3));
    assert_eq!(s1.poll(), RecvOutcome::Event(RoomEvents::Message("hi".to_string())));
    assert_eq!(s2.poll(), RecvOutcome::Event(RoomEvents::Message("hi".to_string())));
    assert_eq!(s1.poll(), RecvOutcome::Empty);
    assert_eq!(s2.poll(), RecvOutcome::Empty);
}

#[test]
fn a_silent_subscriber_keeps_only_the_freshest_backlog() {
    let mut reg = RoomRegistry::new();
    reg.get_or_create(Id(7), "lobby");
    let mut lagger = reg.subscribe(Id(7)).unwrap();
    for i in 0..1000 {
        reg.publish(Id(7), RoomEvents::Message(format!("m{}", i)));
    }
    // The first poll reports how much was dropped...
    let dropped = (1000 - ROOM_BACKLOG) as u64;
    assert_eq!(lagger.poll(), RecvOutcome::Lagged(dropped));
    // ...and what remains is exactly the most recent bounded backlog.
    let mut got: Vec<String> = Vec::new();
    loop {
        match lagger.poll() {
            RecvOutcome::Event(RoomEvents::Message(m)) => got.push(m),
            RecvOutcome::Empty => break,
            other => panic!("unexpected outcome: {:?}", other),
        }
    }
    assert_eq!(got.len(), ROOM_BACKLOG);
    assert_eq!(got.first().unwrap(), &format!("m{}", 1000 - ROOM_BACKLOG));
    assert_eq!(got.last().unwrap(), "m999");
}

#[test]
fn get_or_create_is_idempotent() {
    let mut reg = RoomRegistry::new();
    reg.get_or_create(Id(7), "lobby");
    let mut sub = reg.subscribe(Id(7)).unwrap();
    // A second creation under the same id keeps the existing room: the old
    // subscription still sees what is published afterwards.
    reg.get_or_create(Id(7), "other title");
    reg.publish(Id(7), RoomEvents::UserJoined(Id(114)));
    assert_eq!(sub.poll(), RecvOutcome::Event(RoomEvents::UserJoined(Id(114))));
}

#[test]
fn routing_is_a_keyed_lookup() {
    let mut reg = RoomRegistry::new();
    assert_eq!(reg.route(Id(114)), Err(RegistryError::NotRouted));
    reg.assign_route(Id(114), Id(7));
    assert_eq!(reg.route(Id(114)), Ok(Id(7)));
    // A later assignment replaces the earlier one.
    reg.assign_route(Id(114), Id(8));
    assert_eq!(reg.route(Id(114)), Ok(Id(8)));
    assert_eq!(reg.route(Id(514)), Err(RegistryError::NotRouted));
}

#[test]
fn absent_rooms_cannot_be_reached() {
    let reg = RoomRegistry::new();
    assert!(reg.subscribe(Id(9)).is_none());
    assert_eq!(
        reg.publish(Id(9), RoomEvents::Message("x".to_string())),
        PublishOutcome::NoSuchRoom
    );
}

#[test]
fn the_seeded_registry_routes_its_two_users() {
    let reg = RoomRegistry::default();
    assert_eq!(reg.route(Id(114)), Ok(Id(1919810)));
    assert_eq!(reg.route(Id(514)), Ok(Id(1919810)));
    assert!(reg.subscribe(Id(1919810)).is_some());
}

#[test]
fn the_event_frame_is_the_documented_tagged_json() {
    // A message with characters that need escaping.
    let frame = chatalone::room::room_event_json(&RoomEvents::Message(
        "he said \"hi\\\"\nbye".to_string(),
    ));
    let text = String::from_utf8(frame).unwrap();
    assert_eq!(text, "{\"type\":\"message\",\"text\":\"he said \\\"hi\\\\\\\"\\u000abye\"}");
    // The frame is real JSON: an independent parser reads the text back.
    let value: serde_json::Value = serde_json::from_str(&text).unwrap();
    assert_eq!(value["type"], "message");
    assert_eq!(value["text"], "he said \"hi\\\"\nbye");
    // Presence frames carry the scrambled external id, never the internal one.
    let internal = Id(114514);
    let joined = String::from_utf8(chatalone::room::room_event_json(&RoomEvents::UserJoined(
        internal,
    )))
    .unwrap();
    assert_eq!(joined, format!("{{\"type\":\"userJoined\",\"userId\":{}}}", internal.encode()));
    let left = String::from_utf8(chatalone::room::room_event_json(&RoomEvents::UserLeft(
        internal,
    )))
    .unwrap();
    assert_eq!(left, format!("{{\"type\":\"userLeft\",\"userId\":{}}}", internal.encode()));
}
