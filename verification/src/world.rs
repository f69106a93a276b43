//! The server as a whole.
//!
//! A world is every session there is together with the two registries they
//! share. Connections are accepted, sessions make their transitions and
//! receive from their rooms, in any order; each of these is one happening.
//! However tasks interleave, a server that lets each happening run under the
//! registries' locks passes through such a sequence, and what is proved here
//! of every sequence holds of it at every instant.

use crate::rooms::RoomsView;
use crate::session::{
    holds, law_accept_holds_nothing, law_one_name_one_session, law_poll_stays_attached,
    law_room_outlives_others, law_session_follows_its_room, one_name_one_session, Event, Phase,
    SessionView,
};
use vstd::prelude::*;

verus! {

/// Every session and both registries.
pub struct World {
    pub sessions: Seq<SessionView>,
    pub names: Set<Seq<char>>,
    pub rooms: RoomsView,
}

/// One thing that happens in a server.
pub enum Happening {
    /// A connection from this peer is accepted and gets a session.
    Accept(Seq<char>),
    /// The session at this position makes the transition for this event.
    Transition(int, Event),
    /// The session at this position receives once from its room.
    Receive(int),
}

impl World {
    /// A server that has just started, its topics retaining `capacity`
    /// messages.
    pub open spec fn start(capacity: nat) -> World {
        World { sessions: Seq::empty(), names: Set::empty(), rooms: RoomsView::empty(capacity) }
    }

    /// Whether `at` is the position of a session.
    pub open spec fn has(self, at: int) -> bool {
        0 <= at < self.sessions.len()
    }

    /// The world after one happening. A happening at a position where there
    /// is no session changes nothing.
    pub open spec fn step(self, happening: Happening) -> World {
        match happening {
            Happening::Accept(peer) => World {
                sessions: self.sessions.push(SessionView::connected(peer)),
                ..self
            },
            Happening::Transition(at, event) => if self.has(at) {
                let step = self.sessions[at].on(event, self.names, self.rooms);
                World {
                    sessions: self.sessions.update(at, step.session),
                    names: step.names,
                    rooms: step.rooms,
                }
            } else {
                self
            },
            Happening::Receive(at) => if self.has(at) {
                World {
                    sessions: self.sessions.update(at, self.sessions[at].poll(self.rooms).1),
                    ..self
                }
            } else {
                self
            },
        }
    }

    /// The world after `happenings`, one after the other.
    pub open spec fn run(self, happenings: Seq<Happening>) -> World
        decreases happenings.len(),
    {
        if happenings.len() == 0 {
            self
        } else {
            self.run(happenings.drop_last()).step(happenings.last())
        }
    }

    /// What is true of a server at every instant: no two sessions hold the
    /// same name, and the name registry holds exactly the names of the active
    /// sessions; the room registry is well formed; and every active session
    /// is subscribed to the topic of the one room it is in.
    pub open spec fn sound(self) -> bool {
        &&& one_name_one_session(self.sessions, self.names)
        &&& self.rooms.wf()
        &&& forall|i: int|
            0 <= i < self.sessions.len() ==> (#[trigger] self.sessions[i]).attached(self.rooms)
    }
}

/// A server that has just started is sound.
pub proof fn law_start_is_sound(capacity: nat)
    ensures
        World::start(capacity).sound(),
{
    let world = World::start(capacity);
    assert forall|i: int, name: Seq<char>| !holds(world.sessions, i, name) by {}
}

/// One happening leaves a sound world sound, and every room where it was.
pub proof fn law_step_keeps_sound(world: World, happening: Happening)
    requires
        world.sound(),
    ensures
        world.step(happening).sound(),
        world.rooms.persists_in(world.step(happening).rooms),
{
    let after = world.step(happening);
    match happening {
        Happening::Accept(peer) => {
            law_accept_holds_nothing(world.sessions, world.names, peer);
        },
        Happening::Transition(at, event) => {
            if world.has(at) {
                law_one_name_one_session(world.sessions, world.names, world.rooms, at, event);
                law_session_follows_its_room(world.sessions[at], world.names, world.rooms, event);
                assert forall|i: int| 0 <= i < after.sessions.len() implies (
                #[trigger] after.sessions[i]).attached(after.rooms) by {
                    if i != at {
                        law_room_outlives_others(world.sessions[i], world.rooms, after.rooms);
                    }
                }
            }
        },
        Happening::Receive(at) => {
            if world.has(at) {
                law_poll_stays_attached(world.sessions[at], world.rooms);
                assert forall|i: int, name: Seq<char>|
                    holds(after.sessions, i, name) == holds(world.sessions, i, name) by {}
                assert forall|name: Seq<char>| #[trigger]
                    after.names.contains(name) implies exists|i: int|
                    holds(after.sessions, i, name) by {
                    let i = choose|i: int| holds(world.sessions, i, name);
                    assert(holds(after.sessions, i, name));
                }
            }
        },
    }
}

/// Whatever happens in whatever order, the server stays sound, and a room
/// that exists at some instant exists ever after, under the same handle and
/// with all that was published to it.
pub proof fn law_world_stays_sound(world: World, happenings: Seq<Happening>)
    requires
        world.sound(),
    ensures
        world.run(happenings).sound(),
        world.rooms.persists_in(world.run(happenings).rooms),
    decreases happenings.len(),
{
    if happenings.len() > 0 {
        law_world_stays_sound(world, happenings.drop_last());
        law_step_keeps_sound(world.run(happenings.drop_last()), happenings.last());
    }
}

/// At every instant of a server's life, two sessions that are both active
/// have different names.
pub proof fn law_names_are_unique(
    capacity: nat,
    happenings: Seq<Happening>,
    first: int,
    second: int,
)
    requires
        first != second,
        World::start(capacity).run(happenings).has(first),
        World::start(capacity).run(happenings).has(second),
        World::start(capacity).run(happenings).sessions[first].phase == Phase::Active,
        World::start(capacity).run(happenings).sessions[second].phase == Phase::Active,
    ensures
        World::start(capacity).run(happenings).sessions[first].name != World::start(capacity).run(
            happenings,
        ).sessions[second].name,
{
    let world = World::start(capacity).run(happenings);
    law_start_is_sound(capacity);
    law_world_stays_sound(World::start(capacity), happenings);
    let name = world.sessions[first].name;
    assert(holds(world.sessions, first, name));
    if world.sessions[second].name == name {
        assert(holds(world.sessions, second, name));
    }
}

} // verus!
