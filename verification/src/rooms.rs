//! The registry of rooms.
//!
//! A room is created the first time its identifier is asked for and is never
//! removed. Each room owns one topic; the handle of a room is the position of
//! its topic in the registry, which never changes.

use crate::topic::{Delivery, DeliveryView, Subscription, SubscriptionView, Topic, TopicView};
use vstd::hash_map::StringHashMap;
use vstd::prelude::*;

verus! {

/// The number of messages a topic retains where nothing else is asked for.
pub const DEFAULT_CAPACITY: usize = 32;

/// What a registry is: the bound of its topics, the handle of every room
/// identifier it knows, and for every handle the identifier and the topic.
pub struct RoomsView {
    pub capacity: nat,
    pub index: Map<Seq<char>, nat>,
    pub names: Seq<Seq<char>>,
    pub topics: Seq<TopicView>,
}

impl RoomsView {
    /// The registry without rooms.
    pub open spec fn empty(capacity: nat) -> RoomsView {
        RoomsView { capacity, index: Map::empty(), names: Seq::empty(), topics: Seq::empty() }
    }

    /// Identifiers and handles correspond one to one, and the topic behind a
    /// handle carries that handle as its identity and the registry's bound.
    pub open spec fn wf(self) -> bool {
        &&& self.names.len() == self.topics.len()
        &&& forall|id: Seq<char>| #[trigger]
            self.index.contains_key(id) ==> self.index[id] < self.topics.len()
                && self.names[self.index[id] as int] == id
        &&& forall|i: int|
            0 <= i < self.names.len() ==> self.index.contains_key(#[trigger] self.names[i])
                && self.index[self.names[i]] == i
        &&& forall|i: int|
            0 <= i < self.topics.len() ==> (#[trigger] self.topics[i]).id == i
                && self.topics[i].capacity == self.capacity
    }

    /// The handle of room `id`, if the room exists.
    pub open spec fn lookup(self, id: Seq<char>) -> Option<nat> {
        if self.index.contains_key(id) {
            Some(self.index[id])
        } else {
            None
        }
    }

    /// The registry after room `id` was asked for, and the room's handle: the
    /// one it has, or that of a fresh room with an empty topic.
    pub open spec fn join_or_create(self, id: Seq<char>) -> (RoomsView, nat) {
        if self.index.contains_key(id) {
            (self, self.index[id])
        } else {
            let handle = self.topics.len();
            (
                RoomsView {
                    capacity: self.capacity,
                    index: self.index.insert(id, handle),
                    names: self.names.push(id),
                    topics: self.topics.push(TopicView::fresh(handle, self.capacity)),
                },
                handle,
            )
        }
    }

    /// Whether `room` is a handle of this registry.
    pub open spec fn has(self, room: nat) -> bool {
        room < self.topics.len()
    }

    /// Whether a message offered to `room` is taken.
    pub open spec fn accepts(self, room: nat) -> bool {
        self.has(room) && self.topics[room as int].accepts()
    }

    /// The registry after `msg` was offered to `room`.
    pub open spec fn publish(self, room: nat, msg: Seq<char>) -> RoomsView {
        if self.has(room) {
            RoomsView {
                topics: self.topics.update(room as int, self.topics[room as int].publish(msg)),
                ..self
            }
        } else {
            self
        }
    }

    /// A subscription to `room` that starts now.
    pub open spec fn subscribe(self, room: nat) -> Option<SubscriptionView> {
        if self.has(room) {
            Some(self.topics[room as int].subscribe())
        } else {
            None
        }
    }

    /// One receive on `sub`, answered by the topic it belongs to.
    pub open spec fn recv(self, sub: SubscriptionView) -> (DeliveryView, SubscriptionView) {
        if self.has(sub.topic) {
            self.topics[sub.topic as int].recv(sub)
        } else {
            (DeliveryView::Closed, sub)
        }
    }
}

/// One call that changes a registry.
pub enum RoomOp {
    Join(Seq<char>),
    Publish(nat, Seq<char>),
}

impl RoomsView {
    /// The registry after one call.
    pub open spec fn apply(self, op: RoomOp) -> RoomsView {
        match op {
            RoomOp::Join(id) => self.join_or_create(id).0,
            RoomOp::Publish(room, msg) => self.publish(room, msg),
        }
    }

    /// The registry after the calls `ops`, one after the other.
    pub open spec fn run(self, ops: Seq<RoomOp>) -> RoomsView
        decreases ops.len(),
    {
        if ops.len() == 0 {
            self
        } else {
            self.run(ops.drop_last()).apply(ops.last())
        }
    }

    /// `later` has every room of `self` under the same handle and
    /// identifier, and the log of its topic starts with the log it has here.
    pub open spec fn persists_in(self, later: RoomsView) -> bool {
        &&& later.capacity == self.capacity
        &&& self.topics.len() <= later.topics.len()
        &&& forall|id: Seq<char>| #[trigger]
            self.index.contains_key(id) ==> later.index.contains_key(id) && later.index[id]
                == self.index[id]
        &&& forall|i: int|
            0 <= i < self.topics.len() ==> (#[trigger] self.topics[i]).history.is_prefix_of(
                later.topics[i].history,
            ) && later.names[i] == self.names[i]
    }
}

/// One call keeps a registry well formed and removes nothing from it.
pub proof fn law_call_keeps_rooms(rooms: RoomsView, op: RoomOp)
    requires
        rooms.wf(),
    ensures
        rooms.apply(op).wf(),
        rooms.persists_in(rooms.apply(op)),
{
}

/// Rooms are never removed: whatever rooms are asked for and whatever is
/// published, the registry stays well formed, every room it had keeps its
/// handle and its identifier, and the log of every topic only grows.
pub proof fn law_rooms_persist(rooms: RoomsView, ops: Seq<RoomOp>)
    requires
        rooms.wf(),
    ensures
        rooms.run(ops).wf(),
        rooms.persists_in(rooms.run(ops)),
    decreases ops.len(),
{
    if ops.len() > 0 {
        let before = rooms.run(ops.drop_last());
        law_rooms_persist(rooms, ops.drop_last());
        law_call_keeps_rooms(before, ops.last());
    }
}

/// Asking for one room any number of times, with any other calls in
/// between, gives the same handle each time, and only the first time can
/// create the room.
pub proof fn law_same_room_same_topic(rooms: RoomsView, id: Seq<char>, ops: Seq<RoomOp>)
    requires
        rooms.wf(),
    ensures
        ({
            let (first, handle) = rooms.join_or_create(id);
            let later = first.run(ops);
            &&& later.join_or_create(id) == (later, handle)
            &&& later.has(handle)
            &&& later.names[handle as int] == id
        }),
{
    let (first, handle) = rooms.join_or_create(id);
    law_call_keeps_rooms(rooms, RoomOp::Join(id));
    assert(first.index.contains_key(id));
    law_rooms_persist(first, ops);
}

/// Two identifiers never share a topic, and a handle leads back to the
/// identifier it was given for.
pub proof fn law_one_topic_per_room(rooms: RoomsView, a: Seq<char>, b: Seq<char>)
    requires
        rooms.wf(),
        rooms.index.contains_key(a),
        rooms.index.contains_key(b),
    ensures
        rooms.index[a] == rooms.index[b] <==> a == b,
        rooms.has(rooms.index[a]),
        rooms.names[rooms.index[a] as int] == a,
        rooms.topics[rooms.index[a] as int].id == rooms.index[a],
{
}

/// The rooms of one server, each with its topic.
pub struct RoomRegistry {
    capacity: usize,
    index: StringHashMap<usize>,
    topics: Vec<Topic>,
    names: Ghost<Seq<Seq<char>>>,
}

impl View for RoomRegistry {
    type V = RoomsView;

    closed spec fn view(&self) -> RoomsView {
        RoomsView {
            capacity: self.capacity as nat,
            index: Map::new(
                |id: Seq<char>| self.index@.contains_key(id),
                |id: Seq<char>| self.index@[id] as nat,
            ),
            names: self.names@,
            topics: Seq::new(self.topics@.len(), |i: int| self.topics@[i]@),
        }
    }
}

impl RoomRegistry {
    /// The registry's view is well formed and so is every topic.
    pub closed spec fn wf(&self) -> bool {
        &&& self@.wf()
        &&& forall|i: int| 0 <= i < self.topics@.len() ==> (#[trigger] self.topics@[i]).wf()
    }

    /// A well-formed registry has a well-formed view.
    pub proof fn view_is_wf(&self)
        requires
            self.wf(),
        ensures
            self@.wf(),
    {
    }

    /// A registry without rooms whose topics will retain `capacity` messages.
    pub fn new(capacity: usize) -> (registry: RoomRegistry)
        ensures
            registry.wf(),
            registry@ == RoomsView::empty(capacity as nat),
    {
        let registry = RoomRegistry {
            capacity,
            index: StringHashMap::new(),
            topics: Vec::new(),
            names: Ghost(Seq::empty()),
        };
        assert(registry@.index =~= Map::empty());
        assert(registry@.topics =~= Seq::empty());
        registry
    }

    /// The number of messages each topic retains at most.
    pub fn capacity(&self) -> (capacity: usize)
        ensures
            capacity == self@.capacity,
    {
        self.capacity
    }

    /// The number of rooms.
    pub fn len(&self) -> (count: usize)
        ensures
            count == self@.topics.len(),
    {
        self.topics.len()
    }

    /// The handle of room `id` if it exists. Changes nothing.
    pub fn lookup(&self, id: &str) -> (handle: Option<usize>)
        requires
            self.wf(),
        ensures
            match handle {
                Some(room) => self@.lookup(id@) == Some(room as nat),
                None => self@.lookup(id@) is None,
            },
    {
        match self.index.get(id) {
            Some(room) => Some(*room),
            None => None,
        }
    }

    /// The handle of room `id`, creating the room with an empty topic if it
    /// does not exist. An existing room is returned as it is.
    pub fn join_or_create(&mut self, id: &str) -> (room: usize)
        requires
            old(self).wf(),
        ensures
            final(self).wf(),
            (final(self)@, room as nat) == old(self)@.join_or_create(id@),
            final(self)@.has(room as nat),
    {
        match self.index.get(id) {
            Some(room) => {
                return *room;
            },
            None => {},
        }
        let ghost before = self@;
        let room: usize = self.topics.len();
        self.topics.push(Topic::new(room, self.capacity));
        self.index.insert(String::from_str(id), room);
        proof {
            self.names@ = self.names@.push(id@);
            let expected = before.join_or_create(id@).0;
            assert(self@.index =~= expected.index);
            assert(self@.topics =~= expected.topics);
            law_call_keeps_rooms(before, RoomOp::Join(id@));
        }
        room
    }

    /// Offers `msg` to the topic of `room`. It is taken unless the handle is
    /// unknown or the topic's position counter is exhausted; then nothing
    /// changes.
    pub fn publish(&mut self, room: usize, msg: String) -> (accepted: bool)
        requires
            old(self).wf(),
        ensures
            final(self).wf(),
            accepted == old(self)@.accepts(room as nat),
            final(self)@ == old(self)@.publish(room as nat, msg@),
    {
        if room >= self.topics.len() {
            return false;
        }
        let ghost before = self@;
        let accepted = self.topics[room].publish(msg);
        proof {
            assert(self@.topics =~= before.publish(room as nat, msg@).topics);
        }
        accepted
    }

    /// A cursor on the topic of `room` that starts now, or nothing when the
    /// handle is unknown.
    pub fn subscribe(&self, room: usize) -> (sub: Option<Subscription>)
        requires
            self.wf(),
        ensures
            match sub {
                Some(s) => self@.subscribe(room as nat) == Some(s@),
                None => self@.subscribe(room as nat) is None,
            },
    {
        if room < self.topics.len() {
            Some(self.topics[room].subscribe())
        } else {
            None
        }
    }

    /// One receive on `sub` from the topic it belongs to; `Closed` when this
    /// registry has no such topic.
    pub fn recv(&self, sub: &mut Subscription) -> (delivery: Delivery)
        requires
            self.wf(),
        ensures
            (delivery@, final(sub)@) == self@.recv(old(sub)@),
    {
        let room: usize = sub.topic();
        if room < self.topics.len() {
            self.topics[room].recv(sub)
        } else {
            Delivery::Closed
        }
    }
}

} // verus!
