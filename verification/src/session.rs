//! The per-connection protocol state machine.
//!
//! A session is created for an accepted connection, admitted under the
//! connection's peer identity into the default room, then driven by the
//! lines its client sends until it closes. Every transition is a function of
//! the session, the two registries and the input; the functions here compute
//! it and say which lines go back to the client. Chat and announcements go
//! through the room's topic and reach the session itself like every other
//! subscriber of the room.

use crate::names::NameRegistry;
use crate::protocol::{
    announce_joined, announce_left, announce_renamed, chat_line, default_room, default_room_name,
    format_already_in, format_assigned, format_chat, format_joined, format_left,
    format_missed, format_name_taken, format_rename_announcement, format_renamed,
    notice_already_in, notice_assigned, notice_missed, notice_name_taken, notice_renamed, parse,
    parse_line, Command, CommandView,
};
use crate::rooms::{law_call_keeps_rooms, RoomOp, RoomRegistry, RoomsView};
use crate::text::texts;
use crate::topic::{Delivery, DeliveryView, Subscription, SubscriptionView};
use vstd::prelude::*;

verus! {

/// Where a session is in its life.
#[derive(Clone, Copy, Debug, PartialEq, Eq, Structural)]
pub enum Phase {
    /// Accepted; holds no name and no subscription yet.
    Connected,
    /// Admitted; holds its name and a subscription to its room.
    Active,
    /// Gone; holds nothing.
    Closed,
}

/// What a session is.
pub struct SessionView {
    pub phase: Phase,
    pub name: Seq<char>,
    pub room: Seq<char>,
    pub sub: SubscriptionView,
}

/// What can happen to a session, over contents.
pub enum Event {
    Admit,
    Line(Seq<char>),
    End,
}

/// What can happen to a session.
#[derive(Debug, PartialEq, Eq)]
pub enum Input {
    /// The connection is admitted.
    Admit,
    /// The client sent a line.
    Line(String),
    /// The client's stream ended or failed.
    End,
}

impl View for Input {
    type V = Event;

    open spec fn view(&self) -> Event {
        match *self {
            Input::Admit => Event::Admit,
            Input::Line(line) => Event::Line(line@),
            Input::End => Event::End,
        }
    }
}

/// The result of one transition: the session and the registries afterwards,
/// and the lines for the session's own client, in order.
pub struct Step {
    pub session: SessionView,
    pub names: Set<Seq<char>>,
    pub rooms: RoomsView,
    pub replies: Seq<Seq<char>>,
}

/// The result of a transition that has nothing to do with names.
pub struct Move {
    pub session: SessionView,
    pub rooms: RoomsView,
    pub replies: Seq<Seq<char>>,
}

impl Move {
    /// The transition as a whole, the held names being `names` before and
    /// after.
    pub open spec fn keeping(self, names: Set<Seq<char>>) -> Step {
        Step { session: self.session, names, rooms: self.rooms, replies: self.replies }
    }
}

impl SessionView {
    /// The session of a connection from `peer`, before admission.
    pub open spec fn connected(peer: Seq<char>) -> SessionView {
        SessionView {
            phase: Phase::Connected,
            name: peer,
            room: default_room(),
            sub: SubscriptionView { topic: 0, next: 0 },
        }
    }

    /// The transition that changes nothing and answers nothing.
    pub open spec fn stay(self, names: Set<Seq<char>>, rooms: RoomsView) -> Step {
        Step { session: self, names, rooms, replies: Seq::empty() }
    }

    /// Admission. The session claims its name; if somebody holds it the
    /// session closes with a notice. Otherwise it enters its room, subscribes,
    /// has its arrival announced there and is told its name.
    pub open spec fn activate(self, names: Set<Seq<char>>, rooms: RoomsView) -> Step {
        if self.phase != Phase::Connected {
            self.stay(names, rooms)
        } else if names.contains(self.name) {
            Step {
                session: SessionView { phase: Phase::Closed, ..self },
                names,
                rooms,
                replies: seq![notice_name_taken(self.name)],
            }
        } else {
            let (entered, room) = rooms.join_or_create(self.room);
            Step {
                session: SessionView {
                    phase: Phase::Active,
                    sub: entered.topics[room as int].subscribe(),
                    ..self
                },
                names: names.insert(self.name),
                rooms: entered.publish(room, announce_joined(self.name, self.room)),
                replies: seq![notice_assigned(self.name)],
            }
        }
    }

    /// `/name`, for an active session. A held name is refused with a notice
    /// and nothing changes. Otherwise the new name is held in place of the
    /// old one, the room is told and the client gets a confirmation.
    pub open spec fn rename(
        self,
        names: Set<Seq<char>>,
        rooms: RoomsView,
        name: Seq<char>,
    ) -> Step {
        if self.phase != Phase::Active {
            self.stay(names, rooms)
        } else if names.contains(name) {
            Step { session: self, names, rooms, replies: seq![notice_name_taken(name)] }
        } else {
            Step {
                session: SessionView { name, ..self },
                names: names.insert(name).remove(self.name),
                rooms: rooms.publish(self.sub.topic, announce_renamed(self.name, name)),
                replies: seq![notice_renamed(name)],
            }
        }
    }

    /// `/join`, for an active session. The current room is answered with a
    /// notice and nothing changes. Otherwise the old room is told of the
    /// departure, the target is looked up or created, the subscription is
    /// replaced by a fresh one on the target and the arrival is announced
    /// there.
    pub open spec fn join(self, rooms: RoomsView, target: Seq<char>) -> Move {
        if self.phase != Phase::Active {
            Move { session: self, rooms, replies: Seq::empty() }
        } else if target == self.room {
            Move { session: self, rooms, replies: seq![notice_already_in(self.room)] }
        } else {
            let left = rooms.publish(self.sub.topic, announce_left(self.name, self.room));
            let (entered, room) = left.join_or_create(target);
            Move {
                session: SessionView {
                    room: target,
                    sub: entered.topics[room as int].subscribe(),
                    ..self
                },
                rooms: entered.publish(room, announce_joined(self.name, target)),
                replies: Seq::empty(),
            }
        }
    }

    /// Chat, for an active session. The text goes to the current room under
    /// the current name.
    pub open spec fn say(self, rooms: RoomsView, text: Seq<char>) -> Move {
        if self.phase != Phase::Active {
            Move { session: self, rooms, replies: Seq::empty() }
        } else {
            Move {
                session: self,
                rooms: rooms.publish(self.sub.topic, chat_line(self.name, text)),
                replies: Seq::empty(),
            }
        }
    }

    /// The end of the session, by `/quit` or by the end of its stream: the
    /// session afterwards and the names held then. An active session gives
    /// its name back.
    pub open spec fn close(self, names: Set<Seq<char>>) -> (SessionView, Set<Seq<char>>) {
        (
            SessionView { phase: Phase::Closed, ..self },
            if self.phase == Phase::Active {
                names.remove(self.name)
            } else {
                names
            },
        )
    }

    /// The end of the session as a transition: the rooms are left as they
    /// are and nothing is answered.
    pub open spec fn leave(self, names: Set<Seq<char>>, rooms: RoomsView) -> Step {
        Step {
            session: self.close(names).0,
            names: self.close(names).1,
            rooms,
            replies: Seq::empty(),
        }
    }

    /// The transition for one client line. Only an active session reads
    /// lines.
    pub open spec fn handle(
        self,
        names: Set<Seq<char>>,
        rooms: RoomsView,
        line: Seq<char>,
    ) -> Step {
        if self.phase != Phase::Active {
            self.stay(names, rooms)
        } else {
            match parse(line) {
                CommandView::Rename(name) => self.rename(names, rooms, name),
                CommandView::Join(room) => self.join(rooms, room).keeping(names),
                CommandView::Quit => self.leave(names, rooms),
                CommandView::Say(text) => self.say(rooms, text).keeping(names),
                CommandView::Nothing => self.stay(names, rooms),
            }
        }
    }

    /// One receive on the session's subscription. A session that is not
    /// active has none.
    pub open spec fn poll(self, rooms: RoomsView) -> (DeliveryView, SessionView) {
        if self.phase == Phase::Active {
            let (delivery, sub) = rooms.recv(self.sub);
            (delivery, SessionView { sub, ..self })
        } else {
            (DeliveryView::Closed, self)
        }
    }
}

impl SessionView {
    /// What the session's client is owed from its room right now, in order:
    /// a notice if messages were dropped unseen, then every message that
    /// waits on the subscription.
    pub open spec fn outbox(self, rooms: RoomsView) -> Seq<Seq<char>> {
        if self.phase == Phase::Active && rooms.has(self.sub.topic) {
            let topic = rooms.topics[self.sub.topic as int];
            if self.sub.next < topic.oldest() {
                seq![notice_missed()] + topic.pending(self.sub)
            } else {
                topic.pending(self.sub)
            }
        } else {
            Seq::empty()
        }
    }

    /// The session after it was handed all of its outbox: its cursor stands
    /// at the end of its room's log.
    pub open spec fn caught_up(self, rooms: RoomsView) -> SessionView {
        if self.outbox(rooms).len() > 0 {
            SessionView {
                sub: SubscriptionView {
                    next: rooms.topics[self.sub.topic as int].history.len(),
                    ..self.sub
                },
                ..self
            }
        } else {
            self
        }
    }

    /// The transition for `event`.
    pub open spec fn on(self, event: Event, names: Set<Seq<char>>, rooms: RoomsView) -> Step {
        match event {
            Event::Admit => self.activate(names, rooms),
            Event::Line(line) => self.handle(names, rooms, line),
            Event::End => self.leave(names, rooms),
        }
    }

    /// An active session's subscription reads the topic of the room the
    /// session is in, at a position within that topic's log.
    pub open spec fn attached(self, rooms: RoomsView) -> bool {
        self.phase == Phase::Active ==> {
            &&& rooms.lookup(self.room) == Some(self.sub.topic)
            &&& rooms.has(self.sub.topic)
            &&& self.sub.next <= rooms.topics[self.sub.topic as int].history.len()
        }
    }
}

/// Session `at` of `sessions` is active under `name`.
pub open spec fn holds(sessions: Seq<SessionView>, at: int, name: Seq<char>) -> bool {
    &&& 0 <= at < sessions.len()
    &&& sessions[at].phase == Phase::Active
    &&& sessions[at].name == name
}

/// The registry holds exactly the names of the active sessions, and no two
/// active sessions have the same name.
pub open spec fn one_name_one_session(sessions: Seq<SessionView>, names: Set<Seq<char>>) -> bool {
    &&& forall|i: int, name: Seq<char>| #[trigger] holds(sessions, i, name) ==> names.contains(name)
    &&& forall|i: int, j: int, name: Seq<char>|
        #[trigger] holds(sessions, i, name) && #[trigger] holds(sessions, j, name) ==> i == j
    &&& forall|name: Seq<char>| #[trigger]
        names.contains(name) ==> exists|i: int| holds(sessions, i, name)
}

/// At most one session holds a name at any instant, and the registry holds
/// no name that no session has: whichever session makes whichever
/// transition, both stay true.
pub proof fn law_one_name_one_session(
    sessions: Seq<SessionView>,
    names: Set<Seq<char>>,
    rooms: RoomsView,
    at: int,
    event: Event,
)
    requires
        one_name_one_session(sessions, names),
        0 <= at < sessions.len(),
    ensures
        one_name_one_session(
            sessions.update(at, sessions[at].on(event, names, rooms).session),
            sessions[at].on(event, names, rooms).names,
        ),
{
    let actor = sessions[at];
    let step = actor.on(event, names, rooms);
    let after = sessions.update(at, step.session);
    if actor.phase == Phase::Active {
        assert(holds(sessions, at, actor.name));
    }
    assert forall|i: int, name: Seq<char>| #[trigger]
        holds(after, i, name) implies step.names.contains(name) by {
        if i != at {
            assert(holds(sessions, i, name));
        }
    }
    assert forall|i: int, j: int, name: Seq<char>| #[trigger]
        holds(after, i, name) && #[trigger] holds(after, j, name) implies i == j by {
        if i != at {
            assert(holds(sessions, i, name));
        }
        if j != at {
            assert(holds(sessions, j, name));
        }
    }
    assert forall|name: Seq<char>| #[trigger] step.names.contains(name) implies exists|i: int|
        holds(after, i, name) by {
        if !holds(after, at, name) {
            let i = choose|i: int| holds(sessions, i, name);
            assert(holds(after, i, name));
        }
    }
}

/// A new connection holds no name before it is admitted.
pub proof fn law_accept_holds_nothing(
    sessions: Seq<SessionView>,
    names: Set<Seq<char>>,
    peer: Seq<char>,
)
    requires
        one_name_one_session(sessions, names),
    ensures
        one_name_one_session(sessions.push(SessionView::connected(peer)), names),
{
    let after = sessions.push(SessionView::connected(peer));
    assert forall|i: int, name: Seq<char>| #[trigger] holds(after, i, name) implies names.contains(
        name,
    ) by {
        assert(holds(sessions, i, name));
    }
    assert forall|i: int, j: int, name: Seq<char>| #[trigger]
        holds(after, i, name) && #[trigger] holds(after, j, name) implies i == j by {
        assert(holds(sessions, i, name));
        assert(holds(sessions, j, name));
    }
    assert forall|name: Seq<char>| #[trigger] names.contains(name) implies exists|i: int|
        holds(after, i, name) by {
        let i = choose|i: int| holds(sessions, i, name);
        assert(holds(after, i, name));
    }
}

/// A session that ends, by `/quit` or because its stream ended, gives its
/// name back at once: nobody holds it afterwards and the next claim of it
/// succeeds.
pub proof fn law_close_frees_name(
    session: SessionView,
    names: Set<Seq<char>>,
    rooms: RoomsView,
    rest: Seq<char>,
)
    requires
        session.phase == Phase::Active,
    ensures
        !session.on(Event::End, names, rooms).names.contains(session.name),
        session.on(Event::End, names, rooms).session.phase == Phase::Closed,
        session.on(Event::Line("/quit"@ + rest), names, rooms) == session.on(
            Event::End,
            names,
            rooms,
        ),
{
    crate::protocol::law_parse_quit(rest);
}

/// A session is in exactly one room at any instant: through every
/// transition of its own its subscription reads the topic of the room it is
/// in, and the registry stays well formed and keeps every room.
pub proof fn law_session_follows_its_room(
    session: SessionView,
    names: Set<Seq<char>>,
    rooms: RoomsView,
    event: Event,
)
    requires
        rooms.wf(),
        session.attached(rooms),
    ensures
        session.on(event, names, rooms).rooms.wf(),
        rooms.persists_in(session.on(event, names, rooms).rooms),
        session.on(event, names, rooms).session.attached(session.on(event, names, rooms).rooms),
{
    let step = session.on(event, names, rooms);
    match event {
        Event::Admit => {
            if session.phase == Phase::Connected && !names.contains(session.name) {
                lemma_enter(session, rooms, session.room);
            }
        },
        Event::Line(line) => {
            if session.phase == Phase::Active {
                match parse(line) {
                    CommandView::Rename(name) => {
                        let told = announce_renamed(session.name, name);
                        law_call_keeps_rooms(rooms, RoomOp::Publish(session.sub.topic, told));
                    },
                    CommandView::Join(target) => {
                        if target != session.room {
                            let told = announce_left(session.name, session.room);
                            let left = rooms.publish(session.sub.topic, told);
                            law_call_keeps_rooms(rooms, RoomOp::Publish(session.sub.topic, told));
                            lemma_enter(session, left, target);
                            lemma_persists_transitive(rooms, left, step.rooms);
                        }
                    },
                    CommandView::Say(text) => {
                        let told = chat_line(session.name, text);
                        law_call_keeps_rooms(rooms, RoomOp::Publish(session.sub.topic, told));
                    },
                    _ => {},
                }
            }
        },
        Event::End => {},
    }
}

/// Nothing that happens to the registry afterwards detaches a session from
/// its room.
pub proof fn law_room_outlives_others(session: SessionView, rooms: RoomsView, later: RoomsView)
    requires
        rooms.wf(),
        session.attached(rooms),
        rooms.persists_in(later),
    ensures
        session.attached(later),
{
}

/// Receiving moves a session's cursor within its room's log and changes
/// nothing else about it.
pub proof fn law_poll_stays_attached(session: SessionView, rooms: RoomsView)
    requires
        rooms.wf(),
        session.attached(rooms),
    ensures
        session.poll(rooms).1.attached(rooms),
        session.poll(rooms).1 == (SessionView { sub: session.poll(rooms).1.sub, ..session }),
        session.poll(rooms).1.sub.topic == session.sub.topic,
        session.poll(rooms).1.sub.next >= session.sub.next,
{
}

/// Joining the room one is in changes nothing and is answered with exactly
/// one notice.
pub proof fn law_join_current_room_changes_nothing(
    session: SessionView,
    names: Set<Seq<char>>,
    rooms: RoomsView,
)
    requires
        session.phase == Phase::Active,
    ensures
        session.on(Event::Line("/join "@ + session.room), names, rooms) == (Step {
            session,
            names,
            rooms,
            replies: seq![notice_already_in(session.room)],
        }),
{
    crate::protocol::law_parse_join(session.room);
}

/// A rename to a name somebody holds changes nothing and is answered with
/// exactly one notice.
pub proof fn law_refused_rename_changes_nothing(
    session: SessionView,
    names: Set<Seq<char>>,
    rooms: RoomsView,
    name: Seq<char>,
)
    requires
        session.phase == Phase::Active,
        names.contains(name),
    ensures
        session.on(Event::Line("/name "@ + name), names, rooms) == (Step {
            session,
            names,
            rooms,
            replies: seq![notice_name_taken(name)],
        }),
{
    crate::protocol::law_parse_rename(name);
}

/// A rename takes effect at one instant. Chat published before it carries
/// the old name, chat published after it the new one, and the room's log
/// holds the announcement of the rename between the two. The new name is
/// held from then on, the old one is free, and the client gets one
/// confirmation.
pub proof fn law_rename_is_atomic(
    session: SessionView,
    names: Set<Seq<char>>,
    rooms: RoomsView,
    name: Seq<char>,
    text: Seq<char>,
)
    requires
        rooms.wf(),
        session.phase == Phase::Active,
        session.attached(rooms),
        names.contains(session.name),
        !names.contains(name),
        text.len() > 0,
        text[0] != '/',
        rooms.topics[session.sub.topic as int].history.len() + 2 <= u64::MAX,
    ensures
        ({
            let room = session.sub.topic as int;
            let log = rooms.topics[room].history;
            let early = session.on(Event::Line(text), names, rooms);
            let renamed = session.on(Event::Line("/name "@ + name), names, rooms);
            let late = renamed.session.on(Event::Line(text), renamed.names, renamed.rooms);
            &&& early.rooms.topics[room].history == log.push(chat_line(session.name, text))
            &&& renamed.session == SessionView { name, ..session }
            &&& renamed.names.contains(name)
            &&& !renamed.names.contains(session.name)
            &&& renamed.replies == seq![notice_renamed(name)]
            &&& renamed.rooms.topics[room].history == log.push(
                announce_renamed(session.name, name),
            )
            &&& late.session == renamed.session
            &&& late.names == renamed.names
            &&& late.rooms.topics[room].history == log.push(
                announce_renamed(session.name, name),
            ).push(chat_line(name, text))
        }),
{
    crate::protocol::law_parse_rename(name);
    crate::protocol::law_parse_chat(text);
}

/// What a session says reaches the other members of its room: a member
/// that had nothing waiting receives the text next, tagged with the
/// speaker's name.
pub proof fn law_room_mates_hear(
    speaker: SessionView,
    listener: SessionView,
    names: Set<Seq<char>>,
    rooms: RoomsView,
    text: Seq<char>,
)
    requires
        rooms.wf(),
        rooms.capacity > 0,
        speaker.phase == Phase::Active,
        listener.phase == Phase::Active,
        speaker.attached(rooms),
        listener.attached(rooms),
        speaker.room == listener.room,
        rooms.accepts(speaker.sub.topic),
        listener.poll(rooms).0 == DeliveryView::Empty,
        text.len() > 0,
        text[0] != '/',
    ensures
        listener.poll(speaker.on(Event::Line(text), names, rooms).rooms).0 == DeliveryView::Message(
            chat_line(speaker.name, text),
        ),
{
    crate::protocol::law_parse_chat(text);
}

/// What a session says or announces by a rename stays in its room: the
/// topics of all other rooms are untouched, and a session in another room
/// receives what it would have received anyway.
pub proof fn law_other_rooms_hear_nothing(
    speaker: SessionView,
    listener: SessionView,
    names: Set<Seq<char>>,
    rooms: RoomsView,
    line: Seq<char>,
)
    requires
        rooms.wf(),
        speaker.phase == Phase::Active,
        listener.phase == Phase::Active,
        speaker.attached(rooms),
        listener.attached(rooms),
        speaker.room != listener.room,
        parse(line) is Say || parse(line) is Rename,
    ensures
        listener.poll(speaker.on(Event::Line(line), names, rooms).rooms) == listener.poll(rooms),
        forall|room: int|
            0 <= room < rooms.topics.len() && room != speaker.sub.topic ==> speaker.on(
                Event::Line(line),
                names,
                rooms,
            ).rooms.topics[room] == rooms.topics[room],
{
}

/// A session changes rooms at one instant: once it has joined another room
/// it is owed the announcement of its own arrival there and nothing else,
/// neither what was waiting for it in the room it left nor what was said in
/// the new room before it came.
pub proof fn law_join_switches_at_once(
    session: SessionView,
    names: Set<Seq<char>>,
    rooms: RoomsView,
    target: Seq<char>,
)
    requires
        rooms.wf(),
        rooms.capacity > 0,
        session.phase == Phase::Active,
        session.attached(rooms),
        target != session.room,
        forall|room: int|
            0 <= room < rooms.topics.len() ==> (#[trigger] rooms.topics[room]).history.len() + 1
                < u64::MAX,
    ensures
        ({
            let step = session.on(Event::Line("/join "@ + target), names, rooms);
            &&& step.session.room == target
            &&& step.session.name == session.name
            &&& step.names == names
            &&& step.replies == Seq::<Seq<char>>::empty()
            &&& step.session.outbox(step.rooms) == seq![announce_joined(session.name, target)]
            &&& step.rooms.topics[session.sub.topic as int].history
                == rooms.topics[session.sub.topic as int].history.push(
                announce_left(session.name, session.room),
            )
        }),
{
    crate::protocol::law_parse_join(target);
    let told = announce_left(session.name, session.room);
    let left = rooms.publish(session.sub.topic, told);
    law_call_keeps_rooms(rooms, RoomOp::Publish(session.sub.topic, told));
    law_call_keeps_rooms(left, RoomOp::Join(target));
    if left.index.contains_key(target) {
        crate::rooms::law_one_topic_per_room(left, target, session.room);
    }
}

/// A session that is admitted is owed the announcement of its own arrival
/// and nothing else: it sees nothing that was said before it came.
pub proof fn law_admission_starts_now(session: SessionView, names: Set<Seq<char>>, rooms: RoomsView)
    requires
        rooms.wf(),
        rooms.capacity > 0,
        session.phase == Phase::Connected,
        !names.contains(session.name),
        forall|room: int|
            0 <= room < rooms.topics.len() ==> (#[trigger] rooms.topics[room]).history.len()
                < u64::MAX,
    ensures
        ({
            let step = session.on(Event::Admit, names, rooms);
            &&& step.session.phase == Phase::Active
            &&& step.names == names.insert(session.name)
            &&& step.replies == seq![notice_assigned(session.name)]
            &&& step.session.outbox(step.rooms) == seq![announce_joined(session.name, session.room)]
        }),
{
    law_call_keeps_rooms(rooms, RoomOp::Join(session.room));
}

/// What persists from `a` to `b` and from `b` to `c` persists from `a` to `c`.
proof fn lemma_persists_transitive(a: RoomsView, b: RoomsView, c: RoomsView)
    requires
        a.persists_in(b),
        b.persists_in(c),
    ensures
        a.persists_in(c),
{
    assert forall|id: Seq<char>| #[trigger]
        a.index.contains_key(id) implies c.index.contains_key(id) && c.index[id] == a.index[id] by {}
}

/// Entering `target`: look it up or create it, subscribe, announce.
proof fn lemma_enter(session: SessionView, rooms: RoomsView, target: Seq<char>)
    requires
        rooms.wf(),
    ensures
        ({
            let (entered, room) = rooms.join_or_create(target);
            let told = entered.publish(room, announce_joined(session.name, target));
            let moved = SessionView {
                phase: Phase::Active,
                room: target,
                sub: entered.topics[room as int].subscribe(),
                ..session
            };
            &&& told.wf()
            &&& rooms.persists_in(told)
            &&& moved.attached(told)
        }),
{
    let (entered, room) = rooms.join_or_create(target);
    let arrival = announce_joined(session.name, target);
    law_call_keeps_rooms(rooms, RoomOp::Join(target));
    law_call_keeps_rooms(entered, RoomOp::Publish(room, arrival));
    lemma_persists_transitive(rooms, entered, entered.publish(room, arrival));
}

/// The server's end of one connection.
pub struct Session {
    phase: Phase,
    name: String,
    room: String,
    sub: Subscription,
}

impl View for Session {
    type V = SessionView;

    closed spec fn view(&self) -> SessionView {
        SessionView { phase: self.phase, name: self.name@, room: self.room@, sub: self.sub@ }
    }
}

impl Session {
    /// The session of a connection from `peer`: not yet admitted, named
    /// after its peer, bound for the default room.
    pub fn new(peer: &str) -> (session: Session)
        ensures
            session@ == SessionView::connected(peer@),
    {
        Session {
            phase: Phase::Connected,
            name: String::from_str(peer),
            room: default_room_name(),
            sub: Subscription::unbound(),
        }
    }

    /// Where the session is in its life.
    pub fn phase(&self) -> (phase: Phase)
        ensures
            phase == self@.phase,
    {
        self.phase
    }

    /// Whether the session is admitted and not closed.
    pub fn is_active(&self) -> (active: bool)
        ensures
            active == (self@.phase == Phase::Active),
    {
        match self.phase {
            Phase::Active => true,
            _ => false,
        }
    }

    /// Whether the session has ended.
    pub fn is_closed(&self) -> (closed: bool)
        ensures
            closed == (self@.phase == Phase::Closed),
    {
        match self.phase {
            Phase::Closed => true,
            _ => false,
        }
    }

    /// The session's display name.
    pub fn name(&self) -> (name: &str)
        ensures
            name@ == self@.name,
    {
        self.name.as_str()
    }

    /// The identifier of the session's room.
    pub fn room(&self) -> (room: &str)
        ensures
            room@ == self@.room,
    {
        self.room.as_str()
    }

    /// Admits a connected session: see [`SessionView::activate`].
    pub fn activate(
        &mut self,
        names: &mut NameRegistry,
        rooms: &mut RoomRegistry,
    ) -> (replies: Vec<String>)
        requires
            old(rooms).wf(),
        ensures
            final(rooms).wf(),
            final(self)@ == old(self)@.activate(old(names)@, old(rooms)@).session,
            final(names)@ == old(self)@.activate(old(names)@, old(rooms)@).names,
            final(rooms)@ == old(self)@.activate(old(names)@, old(rooms)@).rooms,
            texts(replies@) == old(self)@.activate(old(names)@, old(rooms)@).replies,
    {
        let mut replies: Vec<String> = Vec::new();
        match self.phase {
            Phase::Connected => {},
            _ => {
                return replies;
            },
        }
        if !names.claim(self.name.as_str()) {
            self.phase = Phase::Closed;
            replies.push(format_name_taken(self.name.as_str()));
            return replies;
        }
        let room: usize = rooms.join_or_create(self.room.as_str());
        match rooms.subscribe(room) {
            Some(sub) => {
                self.sub = sub;
            },
            None => {
                assert(false);
            },
        }
        let _ = rooms.publish(room, format_joined(self.name.as_str(), self.room.as_str()));
        self.phase = Phase::Active;
        replies.push(format_assigned(self.name.as_str()));
        replies
    }

    /// Handles `/name`: see [`SessionView::rename`].
    pub fn rename(
        &mut self,
        names: &mut NameRegistry,
        rooms: &mut RoomRegistry,
        name: String,
    ) -> (replies: Vec<String>)
        requires
            old(rooms).wf(),
        ensures
            final(rooms).wf(),
            final(self)@ == old(self)@.rename(old(names)@, old(rooms)@, name@).session,
            final(names)@ == old(self)@.rename(old(names)@, old(rooms)@, name@).names,
            final(rooms)@ == old(self)@.rename(old(names)@, old(rooms)@, name@).rooms,
            texts(replies@) == old(self)@.rename(old(names)@, old(rooms)@, name@).replies,
    {
        let mut replies: Vec<String> = Vec::new();
        match self.phase {
            Phase::Active => {},
            _ => {
                return replies;
            },
        }
        if !names.claim(name.as_str()) {
            replies.push(format_name_taken(name.as_str()));
            return replies;
        }
        names.release(self.name.as_str());
        let _ = rooms.publish(
            self.sub.topic(),
            format_rename_announcement(self.name.as_str(), name.as_str()),
        );
        replies.push(format_renamed(name.as_str()));
        self.name = name;
        replies
    }

    /// Handles `/join`: see [`SessionView::join`].
    pub fn join(&mut self, rooms: &mut RoomRegistry, target: String) -> (replies: Vec<String>)
        requires
            old(rooms).wf(),
        ensures
            final(rooms).wf(),
            old(self)@.join(old(rooms)@, target@) == (Move {
                session: final(self)@,
                rooms: final(rooms)@,
                replies: texts(replies@),
            }),
    {
        let mut replies: Vec<String> = Vec::new();
        match self.phase {
            Phase::Active => {},
            _ => {
                assert(texts(replies@) =~= Seq::empty());
                return replies;
            },
        }
        if target == self.room {
            replies.push(format_already_in(self.room.as_str()));
            assert(texts(replies@) =~= seq![notice_already_in(self.room@)]);
            return replies;
        }
        let _ = rooms.publish(
            self.sub.topic(),
            format_left(self.name.as_str(), self.room.as_str()),
        );
        let room: usize = rooms.join_or_create(target.as_str());
        match rooms.subscribe(room) {
            Some(sub) => {
                self.sub = sub;
            },
            None => {
                assert(false);
            },
        }
        let _ = rooms.publish(room, format_joined(self.name.as_str(), target.as_str()));
        self.room = target;
        replies
    }

    /// Publishes chat: see [`SessionView::say`].
    pub fn say(&self, rooms: &mut RoomRegistry, text: &str) -> (accepted: bool)
        requires
            old(rooms).wf(),
        ensures
            final(rooms).wf(),
            accepted == (self@.phase == Phase::Active && old(rooms)@.accepts(self@.sub.topic)),
            final(rooms)@ == self@.say(old(rooms)@, text@).rooms,
    {
        match self.phase {
            Phase::Active => rooms.publish(self.sub.topic(), format_chat(self.name.as_str(), text)),
            _ => false,
        }
    }

    /// Ends the session: see [`SessionView::close`]. This is what `/quit` and
    /// the end of the client's stream both come to.
    pub fn close(&mut self, names: &mut NameRegistry)
        ensures
            (final(self)@, final(names)@) == old(self)@.close(old(names)@),
    {
        match self.phase {
            Phase::Active => {
                names.release(self.name.as_str());
            },
            _ => {},
        }
        self.phase = Phase::Closed;
    }

    /// Handles one line from the client and returns the lines to write back
    /// to it: see [`SessionView::handle`].
    pub fn handle_line(
        &mut self,
        line: &str,
        names: &mut NameRegistry,
        rooms: &mut RoomRegistry,
    ) -> (replies: Vec<String>)
        requires
            old(rooms).wf(),
        ensures
            final(rooms).wf(),
            final(self)@ == old(self)@.handle(old(names)@, old(rooms)@, line@).session,
            final(names)@ == old(self)@.handle(old(names)@, old(rooms)@, line@).names,
            final(rooms)@ == old(self)@.handle(old(names)@, old(rooms)@, line@).rooms,
            texts(replies@) == old(self)@.handle(old(names)@, old(rooms)@, line@).replies,
    {
        match self.phase {
            Phase::Active => {},
            _ => {
                let replies: Vec<String> = Vec::new();
                return replies;
            },
        }
        match parse_line(line) {
            Command::Rename(name) => self.rename(names, rooms, name),
            Command::Join(room) => self.join(rooms, room),
            Command::Quit => {
                self.close(names);
                let replies: Vec<String> = Vec::new();
                replies
            },
            Command::Say(text) => {
                let _ = self.say(rooms, text.as_str());
                let replies: Vec<String> = Vec::new();
                replies
            },
            Command::Nothing => {
                let replies: Vec<String> = Vec::new();
                replies
            },
        }
    }

    /// Makes the transition for `input`: see [`SessionView::on`].
    pub fn on(
        &mut self,
        input: &Input,
        names: &mut NameRegistry,
        rooms: &mut RoomRegistry,
    ) -> (replies: Vec<String>)
        requires
            old(rooms).wf(),
        ensures
            final(rooms).wf(),
            final(self)@ == old(self)@.on(input@, old(names)@, old(rooms)@).session,
            final(names)@ == old(self)@.on(input@, old(names)@, old(rooms)@).names,
            final(rooms)@ == old(self)@.on(input@, old(names)@, old(rooms)@).rooms,
            texts(replies@) == old(self)@.on(input@, old(names)@, old(rooms)@).replies,
    {
        match input {
            Input::Admit => self.activate(names, rooms),
            Input::Line(line) => self.handle_line(line.as_str(), names, rooms),
            Input::End => {
                self.close(names);
                let replies: Vec<String> = Vec::new();
                replies
            },
        }
    }

    /// Takes everything that waits for this session in its room and returns
    /// it as the lines to write to the client, in order: see
    /// [`SessionView::outbox`].
    pub fn drain(&mut self, rooms: &RoomRegistry) -> (lines: Vec<String>)
        requires
            rooms.wf(),
        ensures
            texts(lines@) == old(self)@.outbox(rooms@),
            final(self)@ == old(self)@.caught_up(rooms@),
    {
        let mut lines: Vec<String> = Vec::new();
        loop
            invariant
                rooms.wf(),
                self@.phase == old(self)@.phase,
                self@.name == old(self)@.name,
                self@.room == old(self)@.room,
                self@.sub.topic == old(self)@.sub.topic,
                texts(lines@) + self@.outbox(rooms@) == old(self)@.outbox(rooms@),
                lines@.len() == 0 ==> self@ == old(self)@,
                lines@.len() > 0 ==> self@.sub.next + self@.outbox(rooms@).len()
                    == rooms@.topics[self@.sub.topic as int].history.len(),
            ensures
                texts(lines@) == old(self)@.outbox(rooms@),
                self@ == old(self)@.caught_up(rooms@),
            decreases self@.outbox(rooms@).len(),
        {
            match self.poll(rooms) {
                Delivery::Message(line) => {
                    lines.push(line);
                },
                Delivery::Lagged(_) => {
                    lines.push(format_missed());
                },
                _ => {
                    proof {
                        rooms.view_is_wf();
                    }
                    break;
                },
            }
        }
        lines
    }

    /// Takes the next delivery for this session from its room: see
    /// [`SessionView::poll`].
    pub fn poll(&mut self, rooms: &RoomRegistry) -> (delivery: Delivery)
        requires
            rooms.wf(),
        ensures
            (delivery@, final(self)@) == old(self)@.poll(rooms@),
    {
        match self.phase {
            Phase::Active => rooms.recv(&mut self.sub),
            _ => Delivery::Closed,
        }
    }
}

} // verus!
