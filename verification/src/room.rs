//! Chat rooms and their registry.
//!
//! A room is a fan-out broadcast point: every subscriber gets its own copy of
//! each published event, subject to a bounded backlog — a subscriber that
//! falls behind loses the oldest entries rather than blocking the room. The
//! registry is a pair of concurrent keyed maps: room id to room, and user id
//! to the room the user is routed to.
use vstd::prelude::*;
use crate::id::{Id, RoomId, UserId, GeneralId, encode_spec};
use crate::strutil::{dec_digits, u64_to_dec, json_escape, json_escape_bytes};

verus! {

/// How many events a subscriber's backlog holds before the oldest are
/// dropped.
pub const ROOM_BACKLOG: usize = 32;

/// An event fanned out to every subscriber of a room.
#[derive(Debug, Clone, PartialEq, Eq)]
pub enum RoomEvents {
    Message(String),
    UserJoined(UserId),
    UserLeft(UserId),
}

/// The registry's error: a user with no assigned room cannot be routed.
#[derive(Debug, Clone, Copy, PartialEq, Eq, Structural)]
pub enum RegistryError {
    NotRouted,
}

/// What publishing to a room came to.
#[derive(Debug, Clone, Copy, PartialEq, Eq, Structural)]
pub enum PublishOutcome {
    /// Enqueued to this many current subscribers.
    Delivered(usize),
    /// The room exists but nobody listens.
    NoSubscribers,
    /// No room under that id.
    NoSuchRoom,
}

/// What polling a subscription without waiting came to.
#[derive(Debug, Clone, PartialEq, Eq)]
pub enum RecvOutcome {
    /// The next event, in publish order.
    Event(RoomEvents),
    /// Nothing pending; the room is still open.
    Empty,
    /// The subscriber fell behind and this many events were dropped; polling
    /// resumes at the oldest retained event.
    Lagged(u64),
    /// The room's channel is gone.
    Closed,
}

#[verifier::external_type_specification]
#[verifier::external_body]
#[verifier::reject_recursive_types(T)]
pub struct ExSender<T>(tokio::sync::broadcast::Sender<T>);

#[verifier::external_type_specification]
#[verifier::external_body]
#[verifier::reject_recursive_types(T)]
pub struct ExReceiver<T>(tokio::sync::broadcast::Receiver<T>);

#[verifier::external_type_specification]
#[verifier::external_body]
#[verifier::reject_recursive_types(K)]
#[verifier::reject_recursive_types(V)]
#[verifier::reject_recursive_types(S)]
pub struct ExDashMap<K, V, S>(dashmap::DashMap<K, V, S>);

/// Which channel a send end belongs to. Handles of one channel share this
/// identity for their whole lifetime, however they were obtained.
pub uninterp spec fn chan_of(s: tokio::sync::broadcast::Sender<RoomEvents>) -> int;

/// Which channel a receive end belongs to.
pub uninterp spec fn chan_of_recv(r: tokio::sync::broadcast::Receiver<RoomEvents>) -> int;

/// The backlog bound a channel was created with.
pub uninterp spec fn chan_capacity(chan: int) -> int;

/// Relies on tokio's `broadcast::channel`: a fresh fan-out channel whose two
/// ends belong to one channel, and whose backlog holds `capacity` events per
/// subscriber, rounded up to a power of two. It panics on capacity zero or
/// above half the address space, so both are excluded.
#[verifier::external_body]
fn broadcast_channel(capacity: usize) -> (r: (
    tokio::sync::broadcast::Sender<RoomEvents>,
    tokio::sync::broadcast::Receiver<RoomEvents>,
))
    requires
        1 <= capacity <= usize::MAX / 2,
    ensures
        chan_of_recv(r.1) == chan_of(r.0),
        chan_capacity(chan_of(r.0)) >= capacity,
        (capacity & (capacity - 1) as usize) == 0 ==> chan_capacity(chan_of(r.0)) == capacity,
{
    tokio::sync::broadcast::channel(capacity)
}

/// Relies on tokio's `broadcast::Sender::send`: `Ok` carries the number of
/// current receivers, at least one; `Err` means nobody listens and nothing
/// was enqueued.
#[verifier::external_body]
fn broadcast_send(s: &tokio::sync::broadcast::Sender<RoomEvents>, ev: RoomEvents) -> (r: Result<
    usize,
    (),
>)
    ensures
        r matches Ok(n) ==> n >= 1,
{
    match s.send(ev) {
        Ok(n) => Ok(n),
        Err(_) => Err(()),
    }
}

/// Relies on tokio's `broadcast::Sender::subscribe`: a fresh receive end of
/// the same channel, seeing the events sent after this call. What it will
/// yield depends on the channel's shared state, so nothing more is promised.
#[verifier::external_body]
fn broadcast_subscribe(s: &tokio::sync::broadcast::Sender<RoomEvents>) -> (r:
    tokio::sync::broadcast::Receiver<RoomEvents>)
    ensures
        chan_of_recv(r) == chan_of(*s),
{
    s.subscribe()
}

/// Relies on tokio's `broadcast::Sender::clone`: another handle to the same
/// channel.
#[verifier::external_body]
fn broadcast_sender_clone(s: &tokio::sync::broadcast::Sender<RoomEvents>) -> (r:
    tokio::sync::broadcast::Sender<RoomEvents>)
    ensures
        chan_of(r) == chan_of(*s),
{
    s.clone()
}

/// Relies on tokio's `broadcast::Receiver::try_recv`: the next retained
/// event, or emptiness, closure, or the number of events dropped while the
/// receiver lagged behind the bounded backlog. Polling moves the receiver's
/// cursor but never moves it to another channel; the outcome depends on what
/// other tasks published meanwhile, so nothing is promised of it.
#[verifier::external_body]
fn broadcast_try_recv(r: &mut tokio::sync::broadcast::Receiver<RoomEvents>) -> (out: RecvOutcome)
    ensures
        chan_of_recv(*final(r)) == chan_of_recv(*old(r)),
{
    match r.try_recv() {
        Ok(ev) => RecvOutcome::Event(ev),
        Err(tokio::sync::broadcast::error::TryRecvError::Empty) => RecvOutcome::Empty,
        Err(tokio::sync::broadcast::error::TryRecvError::Lagged(n)) => RecvOutcome::Lagged(n),
        Err(tokio::sync::broadcast::error::TryRecvError::Closed) => RecvOutcome::Closed,
    }
}

/// One chat room: a broadcast point living for the process lifetime.
pub struct ChatRoom {
    room_id: RoomId,
    room_title: String,
    notifier: tokio::sync::broadcast::Receiver<RoomEvents>,
    sender: tokio::sync::broadcast::Sender<RoomEvents>,
}

/// A receive end of one room's fan-out channel.
pub struct Subscription {
    inner: tokio::sync::broadcast::Receiver<RoomEvents>,
}

impl Subscription {
    /// Which channel this subscription listens on.
    pub closed spec fn chan(&self) -> int {
        chan_of_recv(self.inner)
    }

    /// Polls for the next event without waiting. After a lag report, polling
    /// resumes at the oldest event the backlog still retains: what was
    /// dropped is lost for good. What comes back depends on what other tasks
    /// published meanwhile, so nothing is promised of it.
    pub fn poll(&mut self) -> (r: RecvOutcome)
        ensures
            final(self).chan() == old(self).chan(),
    {
        broadcast_try_recv(&mut self.inner)
    }
}

impl ChatRoom {
    pub closed spec fn id(&self) -> Id {
        self.room_id
    }

    pub closed spec fn title(&self) -> Seq<char> {
        self.room_title@
    }

    /// Which channel this room fans out on.
    pub closed spec fn chan(&self) -> int {
        chan_of(self.sender)
    }

    /// Provisions a room: a fresh bounded fan-out channel under the given id
    /// and title. The room keeps one receive end of its own, so the channel
    /// stays open for the room's lifetime.
    pub fn start(id: RoomId, name: String) -> (r: ChatRoom)
        ensures
            r.id() == id,
            r.title() == name@,
            chan_capacity(r.chan()) == ROOM_BACKLOG,
    {
        let (tx, rx) = broadcast_channel(ROOM_BACKLOG);
        proof {
            assert(32usize & 31usize == 0) by (bit_vector);
        }
        ChatRoom { room_id: id, room_title: name, notifier: rx, sender: tx }
    }

    /// A fresh receive end of this room's own fan-out channel; subscribing
    /// never blocks and never fails.
    pub fn subscribe(&self) -> (r: Subscription)
        ensures
            r.chan() == self.chan(),
    {
        Subscription { inner: broadcast_subscribe(&self.sender) }
    }

    /// Another handle to this room's own send end.
    pub fn get_sender(&self) -> (r: tokio::sync::broadcast::Sender<RoomEvents>)
        ensures
            chan_of(r) == self.chan(),
    {
        broadcast_sender_clone(&self.sender)
    }

    /// Publishes one event on this room's own channel, to every current
    /// subscriber of it.
    pub fn publish(&self, ev: RoomEvents) -> (r: PublishOutcome)
        ensures
            !(r is NoSuchRoom),
            r matches PublishOutcome::Delivered(n) ==> n >= 1,
    {
        match broadcast_send(&self.sender, ev) {
            Ok(n) => PublishOutcome::Delivered(n),
            Err(()) => PublishOutcome::NoSubscribers,
        }
    }
}

impl Default for ChatRoom {
    /// The demonstration room the process seeds itself with.
    fn default() -> (r: Self)
        ensures
            r.id() == (Id(1919810u32)),
            r.title() == "test"@,
    {
        ChatRoom::start(Id(1919810), String::from_str("test"))
    }
}

// ---------------------------------------------------------------------------
// The registry: two concurrent keyed maps behind trusted views.
// ---------------------------------------------------------------------------
/// What the rooms map holds: each room id to its title.
pub uninterp spec fn rooms_model(m: dashmap::DashMap<u32, ChatRoom>) -> Map<u32, Seq<char>>;

/// Which channel each stored room fans out on.
pub uninterp spec fn rooms_chan(m: dashmap::DashMap<u32, ChatRoom>) -> Map<u32, int>;

/// What the routing map holds: each user id to its current room id.
pub uninterp spec fn routes_model(m: dashmap::DashMap<u32, u32>) -> Map<u32, u32>;

/// Relies on `DashMap::new`: a fresh map holds nothing.
#[verifier::external_body]
fn rooms_new() -> (r: dashmap::DashMap<u32, ChatRoom>)
    ensures
        forall|k: u32| !rooms_model(r).contains_key(k),
        forall|k: u32| !rooms_chan(r).contains_key(k),
{
    dashmap::DashMap::new()
}

/// Relies on `DashMap::insert`: afterwards the map holds the old entries and
/// the new one.
#[verifier::external_body]
fn rooms_insert(m: &mut dashmap::DashMap<u32, ChatRoom>, k: u32, room: ChatRoom)
    ensures
        rooms_model(*final(m)) == rooms_model(*old(m)).insert(k, room.title()),
        rooms_chan(*final(m)) == rooms_chan(*old(m)).insert(k, room.chan()),
{
    m.insert(k, room);
}

/// Relies on `DashMap::contains_key`; both model views describe the same
/// stored entries, so one membership answers for both.
#[verifier::external_body]
fn rooms_contains(m: &dashmap::DashMap<u32, ChatRoom>, k: u32) -> (r: bool)
    ensures
        r == rooms_model(*m).contains_key(k),
        r == rooms_chan(*m).contains_key(k),
{
    m.contains_key(&k)
}

/// Relies on `DashMap::get` and broadcast `Sender::clone`: a handle to the
/// stored room's own send end, present exactly when the room is.
#[verifier::external_body]
fn rooms_sender(m: &dashmap::DashMap<u32, ChatRoom>, k: u32) -> (r: Option<
    tokio::sync::broadcast::Sender<RoomEvents>,
>)
    ensures
        r is Some <==> rooms_model(*m).contains_key(k),
        r is Some <==> rooms_chan(*m).contains_key(k),
        r matches Some(tx) ==> chan_of(tx) == rooms_chan(*m)[k],
{
    match m.get(&k) {
        Some(g) => Some(g.sender.clone()),
        None => None,
    }
}

/// Relies on `DashMap::new`: a fresh map holds nothing.
#[verifier::external_body]
fn routes_new() -> (r: dashmap::DashMap<u32, u32>)
    ensures
        forall|k: u32| !routes_model(r).contains_key(k),
{
    dashmap::DashMap::new()
}

/// Relies on `DashMap::insert`: afterwards the map holds the old entries and
/// the new one; an existing entry under the same key is replaced.
#[verifier::external_body]
fn routes_insert(m: &mut dashmap::DashMap<u32, u32>, k: u32, v: u32)
    ensures
        routes_model(*final(m)) == routes_model(*old(m)).insert(k, v),
{
    m.insert(k, v);
}

/// Relies on `DashMap::get` on a map of plain values.
#[verifier::external_body]
fn routes_get(m: &dashmap::DashMap<u32, u32>, k: u32) -> (r: Option<u32>)
    ensures
        r == if routes_model(*m).contains_key(k) {
            Some(routes_model(*m)[k])
        } else {
            None::<u32>
        },
{
    match m.get(&k) {
        Some(g) => Some(*g),
        None => None,
    }
}

/// The room registry: rooms by id, and each user's current room. Both maps
/// are concurrent structures, safe to read and write from many sessions.
pub struct RoomRegistry {
    rooms: dashmap::DashMap<u32, ChatRoom>,
    users: dashmap::DashMap<u32, u32>,
}

impl RoomRegistry {
    /// Each room id the registry holds, with the room's title.
    pub closed spec fn rooms(&self) -> Map<u32, Seq<char>> {
        rooms_model(self.rooms)
    }

    /// Each routed user id, with the room id the user is assigned to.
    pub closed spec fn routes(&self) -> Map<u32, u32> {
        routes_model(self.users)
    }

    /// The channel each held room fans out on: subscriptions to a room and
    /// publications to it meet on this channel.
    pub closed spec fn chans(&self) -> Map<u32, int> {
        rooms_chan(self.rooms)
    }

    /// An empty registry: no rooms, no routes.
    pub fn new() -> (r: RoomRegistry)
        ensures
            r.rooms() == Map::<u32, Seq<char>>::empty(),
            r.routes() == Map::<u32, u32>::empty(),
            r.chans() == Map::<u32, int>::empty(),
    {
        let reg = RoomRegistry { rooms: rooms_new(), users: routes_new() };
        proof {
            assert(reg.rooms() =~= Map::<u32, Seq<char>>::empty());
            assert(reg.routes() =~= Map::<u32, u32>::empty());
            assert(reg.chans() =~= Map::<u32, int>::empty());
        }
        reg
    }

    /// Returns the room under `room_id`, provisioning it on first reference:
    /// an existing room is kept as it is — channel included — so the call is
    /// idempotent and earlier subscriptions stay live.
    pub fn get_or_create(&mut self, room_id: RoomId, title: &str)
        ensures
            final(self).routes() == old(self).routes(),
            old(self).rooms().contains_key(room_id.0) ==> final(self).rooms() == old(self).rooms()
                && final(self).chans() == old(self).chans(),
            !old(self).rooms().contains_key(room_id.0) ==> final(self).rooms() == old(
                self,
            ).rooms().insert(room_id.0, title@),
            final(self).rooms().contains_key(room_id.0),
            final(self).chans().contains_key(room_id.0),
            final(self).chans().remove(room_id.0) == old(self).chans().remove(room_id.0),
            chan_capacity(final(self).chans()[room_id.0 as u32]) == ROOM_BACKLOG || old(
                self,
            ).rooms().contains_key(room_id.0),
    {
        if !rooms_contains(&self.rooms, room_id.0) {
            let room = ChatRoom::start(room_id, String::from_str(title));
            rooms_insert(&mut self.rooms, room_id.0, room);
            proof {
                assert(final(self).chans().remove(room_id.0) =~= old(self).chans().remove(
                    room_id.0,
                ));
            }
        } else {
            proof {
                assert(final(self).chans().remove(room_id.0) =~= old(self).chans().remove(
                    room_id.0,
                ));
            }
        }
    }

    /// Routes a user to a room; a later assignment replaces an earlier one.
    pub fn assign_route(&mut self, user_id: UserId, room_id: RoomId)
        ensures
            final(self).rooms() == old(self).rooms(),
            final(self).chans() == old(self).chans(),
            final(self).routes() == old(self).routes().insert(user_id.0, room_id.0),
    {
        routes_insert(&mut self.users, user_id.0, room_id.0);
    }

    /// The room a user is routed to; `NotRouted` exactly when the user has
    /// no assigned room.
    pub fn route(&self, user_id: UserId) -> (r: Result<RoomId, RegistryError>)
        ensures
            (r is Ok) == self.routes().contains_key(user_id.0),
            r matches Ok(rid) ==> rid.0 == self.routes()[user_id.0],
            r is Err ==> r == Err::<RoomId, RegistryError>(RegistryError::NotRouted),
    {
        match routes_get(&self.users, user_id.0) {
            Some(rid) => Ok(Id(rid)),
            None => Err(RegistryError::NotRouted),
        }
    }

    /// A fresh receive end of the room's own fan-out channel; `Some` exactly
    /// when the room exists, and never blocking.
    pub fn subscribe(&self, room_id: RoomId) -> (r: Option<Subscription>)
        ensures
            (r is Some) == self.rooms().contains_key(room_id.0),
            r matches Some(sub) ==> sub.chan() == self.chans()[room_id.0],
    {
        match rooms_sender(&self.rooms, room_id.0) {
            Some(tx) => Some(Subscription { inner: broadcast_subscribe(&tx) }),
            None => None,
        }
    }

    /// Publishes an event on the room's own channel, to every current
    /// subscriber of it. A subscriber whose backlog is full loses its oldest
    /// entries instead of blocking the room.
    pub fn publish(&self, room_id: RoomId, ev: RoomEvents) -> (r: PublishOutcome)
        ensures
            (r is NoSuchRoom) == !self.rooms().contains_key(room_id.0),
            r matches PublishOutcome::Delivered(n) ==> n >= 1,
    {
        match rooms_sender(&self.rooms, room_id.0) {
            None => PublishOutcome::NoSuchRoom,
            Some(tx) => {
                match broadcast_send(&tx, ev) {
                    Ok(n) => PublishOutcome::Delivered(n),
                    Err(()) => PublishOutcome::NoSubscribers,
                }
            },
        }
    }
}

impl Default for RoomRegistry {
    /// The demonstration state the process seeds itself with: one room and
    /// two users routed to it.
    fn default() -> (r: Self)
        ensures
            r.rooms() == Map::<u32, Seq<char>>::empty().insert(1919810u32, "test"@),
            r.routes() == Map::<u32, u32>::empty().insert(114u32, 1919810u32).insert(
                514u32,
                1919810u32,
            ),
            r.chans().contains_key(1919810u32),
            chan_capacity(r.chans()[1919810u32]) == ROOM_BACKLOG,
    {
        let mut reg = RoomRegistry::new();
        reg.get_or_create(Id(1919810), "test");
        reg.assign_route(Id(114), Id(1919810));
        reg.assign_route(Id(514), Id(1919810));
        reg
    }
}

} // verus!
verus! {

// ---------------------------------------------------------------------------
// The room event frame: the tagged JSON object delivered over the stream.
// ---------------------------------------------------------------------------
/// The bytes of `{"type":"message","text":"`.
pub open spec fn message_frame_prefix() -> Seq<u8> {
    seq![
        123u8, 34, 116, 121, 112, 101, 34, 58, 34, 109, 101, 115, 115, 97, 103, 101, 34, 44, 34,
        116, 101, 120, 116, 34, 58, 34,
    ]
}

/// The bytes of `{"type":"userJoined","userId":`.
pub open spec fn joined_frame_prefix() -> Seq<u8> {
    seq![
        123u8, 34, 116, 121, 112, 101, 34, 58, 34, 117, 115, 101, 114, 74, 111, 105, 110, 101,
        100, 34, 44, 34, 117, 115, 101, 114, 73, 100, 34, 58,
    ]
}

/// The bytes of `{"type":"userLeft","userId":`.
pub open spec fn left_frame_prefix() -> Seq<u8> {
    seq![
        123u8, 34, 116, 121, 112, 101, 34, 58, 34, 117, 115, 101, 114, 76, 101, 102, 116, 34, 44,
        34, 117, 115, 101, 114, 73, 100, 34, 58,
    ]
}

/// The frame of one room event, as UTF-8 bytes: a tagged JSON object whose
/// message text is JSON-escaped and whose user ids are the scrambled,
/// externally visible ones — sequential ids never reach the wire.
pub open spec fn room_event_json_of(ev: RoomEvents) -> Seq<u8> {
    match ev {
        RoomEvents::Message(t) => message_frame_prefix() + json_escape(
            vstd::utf8::encode_utf8(t@),
        ) + seq![34u8, 125],
        RoomEvents::UserJoined(id) => joined_frame_prefix() + dec_digits(
            encode_spec(id.0) as nat,
        ) + seq![125u8],
        RoomEvents::UserLeft(id) => left_frame_prefix() + dec_digits(encode_spec(id.0) as nat)
            + seq![125u8],
    }
}

fn message_frame_prefix_bytes() -> (r: Vec<u8>)
    ensures
        r@ == message_frame_prefix(),
{
    let r: Vec<u8> = vec![
        123u8, 34, 116, 121, 112, 101, 34, 58, 34, 109, 101, 115, 115, 97, 103, 101, 34, 44, 34,
        116, 101, 120, 116, 34, 58, 34,
    ];
    r
}

fn joined_frame_prefix_bytes() -> (r: Vec<u8>)
    ensures
        r@ == joined_frame_prefix(),
{
    let r: Vec<u8> = vec![
        123u8, 34, 116, 121, 112, 101, 34, 58, 34, 117, 115, 101, 114, 74, 111, 105, 110, 101,
        100, 34, 44, 34, 117, 115, 101, 114, 73, 100, 34, 58,
    ];
    r
}

fn left_frame_prefix_bytes() -> (r: Vec<u8>)
    ensures
        r@ == left_frame_prefix(),
{
    let r: Vec<u8> = vec![
        123u8, 34, 116, 121, 112, 101, 34, 58, 34, 117, 115, 101, 114, 76, 101, 102, 116, 34, 44,
        34, 117, 115, 101, 114, 73, 100, 34, 58,
    ];
    r
}

/// Writes the frame of one room event. The boundary hands these bytes to the
/// established stream as one text frame.
pub fn room_event_json(ev: &RoomEvents) -> (r: Vec<u8>)
    ensures
        r@ == room_event_json_of(*ev),
{
    match ev {
        RoomEvents::Message(t) => {
            let mut r = message_frame_prefix_bytes();
            let tb = t.as_str().as_bytes_vec();
            let mut esc = json_escape_bytes(&tb);
            r.append(&mut esc);
            r.push(34);
            r.push(125);
            proof {
                assert(r@ =~= room_event_json_of(*ev));
            }
            r
        },
        RoomEvents::UserJoined(id) => {
            let mut r = joined_frame_prefix_bytes();
            let mut d = u64_to_dec(id.encode() as u64);
            r.append(&mut d);
            r.push(125);
            proof {
                assert(r@ =~= room_event_json_of(*ev));
            }
            r
        },
        RoomEvents::UserLeft(id) => {
            let mut r = left_frame_prefix_bytes();
            let mut d = u64_to_dec(id.encode() as u64);
            r.append(&mut d);
            r.push(125);
            proof {
                assert(r@ =~= room_event_json_of(*ev));
            }
            r
        },
    }
}

} // verus!
