//! The tagged events carried over an established duplex stream.
use vstd::prelude::*;

verus! {

/// Where an event is addressed.
#[derive(Debug, Clone, PartialEq, Eq, Structural)]
pub enum Scope {
    Private,
    Lone { lone_id: u32 },
    Room { lone_id: u32, room_id: u32 },
}

/// Who produced an event.
#[derive(Debug, Clone, PartialEq, Eq, Structural)]
pub enum Author {
    System,
    User { id: u32 },
}

/// Textual chat content, by format.
#[derive(Debug, Clone, PartialEq, Eq)]
pub enum ChatText {
    PlainText { body: String },
    Markdown { body: String },
    Html { body: String },
}

/// Media metadata, by content type.
#[derive(Debug, Clone, PartialEq, Eq)]
pub enum MediaMeta {
    ImageJPEG { size: u32, width: u32, height: u32 },
    ImagePNG { size: u32, width: u32, height: u32 },
    Html { size: u32, width: u32, height: u32 },
}

/// What a chat event carries.
#[derive(Debug, Clone, PartialEq, Eq)]
pub enum ChatContent {
    Text(ChatText),
    Image { file_id: u32, thumbnail_id: u32, meta: MediaMeta },
    File { file_id: u32, filename: String, meta: MediaMeta },
}

/// One event: a system notice or a chat message, possibly quoting another.
#[derive(Debug, Clone, PartialEq, Eq)]
pub enum Event {
    System { event_id: u32, message: String },
    Chat { event_id: u32, content: ChatContent, quote: Option<u32> },
}

/// An addressed, attributed event.
#[derive(Debug, Clone, PartialEq, Eq)]
pub struct Payload {
    pub id: u32,
    pub author: Author,
    pub scope: Scope,
    pub event: Event,
}

impl Payload {
    pub fn new(id: u32, author: Author, scope: Scope, event: Event) -> (r: Payload)
        ensures
            r == (Payload { id, author, scope, event }),
    {
        Payload { id, author, scope, event }
    }
}

/// One signal on the wire: a sequence number, a timestamp, and the payload.
#[derive(Debug, Clone, PartialEq, Eq)]
pub struct WsSignal {
    pub sn: u32,
    pub timestamp: u32,
    pub payload: Payload,
}

impl WsSignal {
    pub fn new(sn: u32, timestamp: u32, payload: Payload) -> (r: WsSignal)
        ensures
            r == (WsSignal { sn, timestamp, payload }),
    {
        WsSignal { sn, timestamp, payload }
    }
}

} // verus!
