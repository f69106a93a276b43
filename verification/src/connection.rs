//! One connection, from bytes to bytes.
//!
//! A connection is a session behind a framer. Bytes that arrive from the
//! client are cut into records, each record is read as a line and handled by
//! the session, and the session's answers go back as bytes. A record that is
//! not UTF-8 ends the session, as the end of the stream does. What waits for
//! the client in its room goes out the same way.

use crate::framer::{contents, decode_record, encode_line, feed, LineFramer, LINE_FEED};
use crate::names::NameRegistry;
use crate::rooms::{RoomRegistry, RoomsView};
use crate::session::{Event, Input, Phase, Session, SessionView, Step};
use crate::text::texts;
use vstd::prelude::*;
use vstd::utf8::{decode_utf8, encode_utf8, valid_utf8};

verus! {

/// What a record means to the session: a line, or the end if it is not
/// text.
pub open spec fn event_of(record: Seq<u8>) -> Event {
    if valid_utf8(record) {
        Event::Line(decode_utf8(record))
    } else {
        Event::End
    }
}

/// The bytes that carry `lines`, each as one record.
pub open spec fn wire(lines: Seq<Seq<char>>) -> Seq<u8>
    decreases lines.len(),
{
    if lines.len() == 0 {
        Seq::empty()
    } else {
        wire(lines.drop_last()) + encode_utf8(lines.last()).push(LINE_FEED)
    }
}

/// The transitions for `records`, one after the other, and all the answers
/// in order.
pub open spec fn run(
    session: SessionView,
    names: Set<Seq<char>>,
    rooms: RoomsView,
    records: Seq<Seq<u8>>,
) -> Step
    decreases records.len(),
{
    if records.len() == 0 {
        session.stay(names, rooms)
    } else {
        let before = run(session, names, rooms, records.drop_last());
        let next = before.session.on(event_of(records.last()), before.names, before.rooms);
        Step { replies: before.replies + next.replies, ..next }
    }
}

/// What a connection is: the bytes of the record it is in the middle of, and
/// its session.
pub struct ConnectionView {
    pub pending: Seq<u8>,
    pub session: SessionView,
}

/// The result of handing bytes to a connection: the connection and the
/// registries afterwards, and the bytes to write to the client.
pub struct Exchange {
    pub connection: ConnectionView,
    pub names: Set<Seq<char>>,
    pub rooms: RoomsView,
    pub output: Seq<u8>,
}

impl ConnectionView {
    /// A connection from `peer` is accepted: its session is admitted, and
    /// what admission answers is the output.
    pub open spec fn accept(peer: Seq<char>, names: Set<Seq<char>>, rooms: RoomsView) -> Exchange {
        let step = SessionView::connected(peer).on(Event::Admit, names, rooms);
        Exchange {
            connection: ConnectionView { pending: Seq::empty(), session: step.session },
            names: step.names,
            rooms: step.rooms,
            output: wire(step.replies),
        }
    }

    /// The client sent `chunk`.
    pub open spec fn receive(
        self,
        names: Set<Seq<char>>,
        rooms: RoomsView,
        chunk: Seq<u8>,
    ) -> Exchange {
        let (records, pending) = feed(self.pending, chunk);
        let step = run(self.session, names, rooms, records);
        Exchange {
            connection: ConnectionView { pending, session: step.session },
            names: step.names,
            rooms: step.rooms,
            output: wire(step.replies),
        }
    }
}

/// The bytes of two lists of lines are the bytes of the one followed by the
/// bytes of the other.
proof fn lemma_wire_concat(first: Seq<Seq<char>>, second: Seq<Seq<char>>)
    ensures
        wire(first + second) == wire(first) + wire(second),
    decreases second.len(),
{
    if second.len() > 0 {
        lemma_wire_concat(first, second.drop_last());
        assert((first + second).drop_last() =~= first + second.drop_last());
    }
}

/// Once a session has closed, nothing that its client still sends has any
/// effect or gets any answer.
pub proof fn law_closed_connection_is_deaf(
    session: SessionView,
    names: Set<Seq<char>>,
    rooms: RoomsView,
    records: Seq<Seq<u8>>,
)
    requires
        session.phase == Phase::Closed,
    ensures
        run(session, names, rooms, records) == session.stay(names, rooms),
    decreases records.len(),
{
    if records.len() > 0 {
        law_closed_connection_is_deaf(session, names, rooms, records.drop_last());
    }
}

/// It does not matter how the client's bytes are cut into chunks: two
/// chunks handed over one after the other leave the connection and the
/// registries as the two handed over as one do, and the output of the two
/// is the output of the one.
pub proof fn law_receive_composes(
    connection: ConnectionView,
    names: Set<Seq<char>>,
    rooms: RoomsView,
    first: Seq<u8>,
    second: Seq<u8>,
)
    ensures
        ({
            let one = connection.receive(names, rooms, first);
            let two = one.connection.receive(one.names, one.rooms, second);
            let both = connection.receive(names, rooms, first + second);
            &&& both.connection == two.connection
            &&& both.names == two.names
            &&& both.rooms == two.rooms
            &&& both.output == one.output + two.output
        }),
{
    let (head, open) = feed(connection.pending, first);
    let tail = feed(open, second).0;
    crate::framer::law_chunking_is_irrelevant(connection.pending, first, second);
    lemma_run_concat(connection.session, names, rooms, head, tail);
    let one = run(connection.session, names, rooms, head);
    let two = run(one.session, one.names, one.rooms, tail);
    lemma_wire_concat(one.replies, two.replies);
}

/// Running two lists of records in a row is running their concatenation.
proof fn lemma_run_concat(
    session: SessionView,
    names: Set<Seq<char>>,
    rooms: RoomsView,
    head: Seq<Seq<u8>>,
    tail: Seq<Seq<u8>>,
)
    ensures
        ({
            let one = run(session, names, rooms, head);
            let two = run(one.session, one.names, one.rooms, tail);
            run(session, names, rooms, head + tail) == (Step {
                replies: one.replies + two.replies,
                ..two
            })
        }),
    decreases tail.len(),
{
    let one = run(session, names, rooms, head);
    if tail.len() > 0 {
        lemma_run_concat(session, names, rooms, head, tail.drop_last());
        assert((head + tail).drop_last() =~= head + tail.drop_last());
        let mid = run(one.session, one.names, one.rooms, tail.drop_last());
        let next = mid.session.on(event_of(tail.last()), mid.names, mid.rooms);
        assert((one.replies + mid.replies) + next.replies =~= one.replies + (mid.replies
            + next.replies));
    }
}

/// The server's end of one connection: a framer and a session.
pub struct Connection {
    framer: LineFramer,
    session: Session,
}

impl View for Connection {
    type V = ConnectionView;

    closed spec fn view(&self) -> ConnectionView {
        ConnectionView { pending: self.framer@, session: self.session@ }
    }
}

/// Appends the bytes of `lines` to `out`.
fn write_lines(lines: &Vec<String>, out: &mut Vec<u8>)
    ensures
        final(out)@ == old(out)@ + wire(texts(lines@)),
{
    let mut at: usize = 0;
    while at < lines.len()
        invariant
            at <= lines@.len(),
            out@ == old(out)@ + wire(texts(lines@).take(at as int)),
        decreases lines@.len() - at,
    {
        let mut bytes = encode_line(lines[at].as_str());
        assert(texts(lines@).take(at + 1).drop_last() =~= texts(lines@).take(at as int));
        out.append(&mut bytes);
        at = at + 1;
    }
    assert(texts(lines@).take(at as int) =~= texts(lines@));
}

impl Connection {
    /// Accepts a connection from `peer` and admits its session. Returns the
    /// connection and the bytes to write to the client.
    pub fn accept(
        peer: &str,
        names: &mut NameRegistry,
        rooms: &mut RoomRegistry,
    ) -> (accepted: (Connection, Vec<u8>))
        requires
            old(rooms).wf(),
        ensures
            final(rooms).wf(),
            ConnectionView::accept(peer@, old(names)@, old(rooms)@) == (Exchange {
                connection: accepted.0@,
                names: final(names)@,
                rooms: final(rooms)@,
                output: accepted.1@,
            }),
    {
        let mut session = Session::new(peer);
        let replies = session.on(&Input::Admit, names, rooms);
        let mut output: Vec<u8> = Vec::new();
        write_lines(&replies, &mut output);
        (Connection { framer: LineFramer::new(), session }, output)
    }

    /// The session behind this connection.
    pub fn session(&self) -> (session: &Session)
        ensures
            session@ == self@.session,
    {
        &self.session
    }

    /// Whether the session has ended, so that the connection is to be shut.
    pub fn is_closed(&self) -> (closed: bool)
        ensures
            closed == (self@.session.phase == Phase::Closed),
    {
        self.session.is_closed()
    }

    /// Takes bytes that the client sent and returns the bytes to write back
    /// to it: see [`ConnectionView::receive`].
    pub fn receive(
        &mut self,
        chunk: &[u8],
        names: &mut NameRegistry,
        rooms: &mut RoomRegistry,
    ) -> (output: Vec<u8>)
        requires
            old(rooms).wf(),
        ensures
            final(rooms).wf(),
            old(self)@.receive(old(names)@, old(rooms)@, chunk@) == (Exchange {
                connection: final(self)@,
                names: final(names)@,
                rooms: final(rooms)@,
                output: output@,
            }),
    {
        let records = self.framer.push(chunk);
        let ghost all = contents(records@);
        let count: usize = records.len();
        let mut output: Vec<u8> = Vec::new();
        let mut at: usize = 0;
        for record in it: records
            invariant
                it.seq() == records@,
                at == it.index(),
                count == records@.len(),
                all == contents(records@),
                rooms.wf(),
                self.framer@ == feed(old(self)@.pending, chunk@).1,
                self.session@ == run(
                    old(self)@.session,
                    old(names)@,
                    old(rooms)@,
                    all.take(at as int),
                ).session,
                names@ == run(
                    old(self)@.session,
                    old(names)@,
                    old(rooms)@,
                    all.take(at as int),
                ).names,
                rooms@ == run(
                    old(self)@.session,
                    old(names)@,
                    old(rooms)@,
                    all.take(at as int),
                ).rooms,
                output@ == wire(
                    run(old(self)@.session, old(names)@, old(rooms)@, all.take(at as int)).replies,
                ),
        {
            let ghost done = all.take(at as int);
            let ghost before = run(old(self)@.session, old(names)@, old(rooms)@, done);
            assert(all.take(at + 1).drop_last() =~= done);
            let input = match decode_record(record) {
                Some(line) => Input::Line(line),
                None => Input::End,
            };
            let replies = self.session.on(&input, names, rooms);
            write_lines(&replies, &mut output);
            proof {
                lemma_wire_concat(before.replies, texts(replies@));
            }
            at = at + 1;
        }
        assert(all.take(at as int) =~= all);
        output
    }

    /// The client's stream ended or failed: the session closes and gives its
    /// name back.
    pub fn end(&mut self, names: &mut NameRegistry)
        ensures
            final(self)@.pending == old(self)@.pending,
            (final(self)@.session, final(names)@) == old(self)@.session.close(old(names)@),
    {
        self.session.close(names);
    }

    /// Takes everything that waits for the client in its room and returns
    /// it as the bytes to write: see [`SessionView::outbox`].
    pub fn relay(&mut self, rooms: &RoomRegistry) -> (output: Vec<u8>)
        requires
            rooms.wf(),
        ensures
            output@ == wire(old(self)@.session.outbox(rooms@)),
            final(self)@ == (ConnectionView {
                session: old(self)@.session.caught_up(rooms@),
                ..old(self)@
            }),
    {
        let lines = self.session.drain(rooms);
        let mut output: Vec<u8> = Vec::new();
        write_lines(&lines, &mut output);
        output
    }
}

} // verus!
