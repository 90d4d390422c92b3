use chatalone::event::{Author, ChatContent, Event, MediaMeta, Payload, Scope, WsSignal};

#[test]
fn signals_are_assembled_field_by_field() {
    let meta = MediaMeta::ImageJPEG { size: 1919810, width: 114, height: 514 };
    let image = ChatContent::Image { file_id: 114, thumbnail_id: 514, meta };
    let payload = Payload::new(
        114,
        Author::User { id: 114514 },
        Scope::Room { lone_id: 1919, room_id: 810 },
        Event::Chat { event_id: 1111111, content: image, quote: Some(6666) },
    );
    let signal = WsSignal::new(6, 1919810, payload.clone());
    assert_eq!(signal.sn, 6);
    assert_eq!(signal.timestamp, 1919810);
    assert_eq!(signal.payload, payload);
    assert_eq!(payload.author, Author::User { id: 114514 });
    assert!(matches!(payload.event, Event::Chat { quote: Some(6666), .. }));
}
