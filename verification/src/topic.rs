//! The bounded broadcast topic behind a room.
//!
//! A topic is the log of every message published to it. Only the newest
//! `capacity` messages are retained; a subscription is a cursor into the log.
//! A subscriber that falls further behind than the retained window is told
//! how many messages it lost and continues with the oldest retained one.

use std::collections::VecDeque;
use vstd::prelude::*;

verus! {

/// What a topic is: its identity, its bound and the log of what was published.
pub struct TopicView {
    pub id: nat,
    pub capacity: nat,
    pub history: Seq<Seq<char>>,
}

/// What a subscription is: the topic it belongs to and the position in that
/// topic's log of the next message it has not seen.
pub struct SubscriptionView {
    pub topic: nat,
    pub next: nat,
}

/// The outcome of one receive, over message contents.
pub enum DeliveryView {
    Message(Seq<char>),
    Lagged(nat),
    Empty,
    Closed,
}

impl TopicView {
    /// The topic as it is created: nothing published yet.
    pub open spec fn fresh(id: nat, capacity: nat) -> TopicView {
        TopicView { id, capacity, history: Seq::empty() }
    }

    /// The log position of the oldest message that is still retained.
    pub open spec fn oldest(self) -> nat {
        if self.history.len() > self.capacity {
            (self.history.len() - self.capacity) as nat
        } else {
            0
        }
    }

    /// The messages that are still retained, oldest first.
    pub open spec fn retained(self) -> Seq<Seq<char>> {
        self.history.subrange(self.oldest() as int, self.history.len() as int)
    }

    /// Whether the position counter has room for one more message.
    pub open spec fn accepts(self) -> bool {
        self.history.len() < u64::MAX
    }

    /// The topic after `msg` was offered to it.
    pub open spec fn publish(self, msg: Seq<char>) -> TopicView {
        if self.accepts() {
            TopicView { history: self.history.push(msg), ..self }
        } else {
            self
        }
    }

    /// A subscription that starts now: it sees nothing published before.
    pub open spec fn subscribe(self) -> SubscriptionView {
        SubscriptionView { topic: self.id, next: self.history.len() }
    }

    /// One receive on `sub`: the outcome and the subscription afterwards.
    pub open spec fn recv(self, sub: SubscriptionView) -> (DeliveryView, SubscriptionView) {
        if sub.topic != self.id {
            (DeliveryView::Closed, sub)
        } else if sub.next < self.oldest() {
            (
                DeliveryView::Lagged((self.oldest() - sub.next) as nat),
                SubscriptionView { next: self.oldest(), ..sub },
            )
        } else if sub.next < self.history.len() {
            (
                DeliveryView::Message(self.history[sub.next as int]),
                SubscriptionView { next: sub.next + 1, ..sub },
            )
        } else {
            (DeliveryView::Empty, sub)
        }
    }

    /// What `sub` has yet to receive if nothing more is published: the
    /// retained messages from its position on.
    pub open spec fn pending(self, sub: SubscriptionView) -> Seq<Seq<char>> {
        if sub.topic == self.id && sub.next <= self.history.len() {
            if sub.next < self.oldest() {
                self.retained()
            } else {
                self.history.subrange(sub.next as int, self.history.len() as int)
            }
        } else {
            Seq::empty()
        }
    }
}

/// One call on a topic, as one subscriber sees it: somebody publishes, or
/// the subscriber receives.
pub enum TopicOp {
    Publish(Seq<char>),
    Recv,
}

/// A topic and one of its subscriptions, with what the subscription has been
/// handed so far: the messages, the log position of each, and whether a
/// receive ever reported a lag.
pub struct Reception {
    pub topic: TopicView,
    pub sub: SubscriptionView,
    pub delivered: Seq<Seq<char>>,
    pub positions: Seq<nat>,
    pub lagged: bool,
}

impl Reception {
    /// The reception of `sub` on `topic` before any call.
    pub open spec fn start(topic: TopicView, sub: SubscriptionView) -> Reception {
        Reception { topic, sub, delivered: Seq::empty(), positions: Seq::empty(), lagged: false }
    }

    /// The reception after one more call.
    pub open spec fn step(self, op: TopicOp) -> Reception {
        match op {
            TopicOp::Publish(msg) => Reception { topic: self.topic.publish(msg), ..self },
            TopicOp::Recv => {
                let (delivery, sub) = self.topic.recv(self.sub);
                match delivery {
                    DeliveryView::Message(msg) => Reception {
                        sub,
                        delivered: self.delivered.push(msg),
                        positions: self.positions.push(self.sub.next),
                        ..self
                    },
                    DeliveryView::Lagged(_) => Reception { sub, lagged: true, ..self },
                    _ => Reception { sub, ..self },
                }
            },
        }
    }

    /// The reception after the calls `ops`, one after the other.
    pub open spec fn run(self, ops: Seq<TopicOp>) -> Reception
        decreases ops.len(),
    {
        if ops.len() == 0 {
            self
        } else {
            self.run(ops.drop_last()).step(ops.last())
        }
    }

    /// What was handed out so far came from the log at rising positions, all
    /// of them from `from` on and before the cursor; and without a lag it is
    /// the whole stretch of the log from `from` to the cursor.
    pub open spec fn in_order(self, from: nat) -> bool {
        &&& self.sub.topic == self.topic.id
        &&& from <= self.sub.next <= self.topic.history.len()
        &&& self.delivered.len() == self.positions.len()
        &&& forall|k: int|
            0 <= k < self.positions.len() ==> from <= (#[trigger] self.positions[k])
                < self.sub.next && self.delivered[k] == self.topic.history[self.positions[k] as int]
        &&& forall|k: int, l: int|
            0 <= k < l < self.positions.len() ==> self.positions[k] < self.positions[l]
        &&& !self.lagged ==> self.delivered == self.topic.history.subrange(
            from as int,
            self.sub.next as int,
        )
    }
}

/// `count` receives in a row.
pub open spec fn receives(count: nat) -> Seq<TopicOp> {
    Seq::new(count, |i: int| TopicOp::Recv)
}

/// One call keeps a reception in order and only lengthens the log.
proof fn lemma_step_in_order(r: Reception, from: nat, op: TopicOp)
    requires
        r.in_order(from),
    ensures
        r.step(op).in_order(from),
        r.topic.history.is_prefix_of(r.step(op).topic.history),
        r.step(op).topic.id == r.topic.id,
        r.step(op).topic.capacity == r.topic.capacity,
{
    let after = r.step(op);
    assert forall|k: int| 0 <= k < after.positions.len() implies from <= (
    #[trigger] after.positions[k]) < after.sub.next && after.delivered[k]
        == after.topic.history[after.positions[k] as int] by {
        if k < r.positions.len() {
            assert(after.positions[k] == r.positions[k]);
        }
    }
    if !after.lagged {
        assert(after.delivered =~= after.topic.history.subrange(
            from as int,
            after.sub.next as int,
        ));
    }
}

/// Whatever is published and whenever the subscriber receives, it is handed
/// messages of the log in publish order: each one stands in the log at the
/// position recorded for it, the positions rise, and none lies before the
/// point at which the subscription stood at the start. If no receive
/// reported a lag, nothing was skipped. The log itself only grows.
pub proof fn law_delivery_in_publish_order(
    topic: TopicView,
    sub: SubscriptionView,
    ops: Seq<TopicOp>,
)
    requires
        sub.topic == topic.id,
        sub.next <= topic.history.len(),
    ensures
        Reception::start(topic, sub).run(ops).in_order(sub.next),
        topic.history.is_prefix_of(Reception::start(topic, sub).run(ops).topic.history),
        Reception::start(topic, sub).run(ops).topic.id == topic.id,
        Reception::start(topic, sub).run(ops).topic.capacity == topic.capacity,
    decreases ops.len(),
{
    let start = Reception::start(topic, sub);
    if ops.len() == 0 {
        assert(start.delivered =~= topic.history.subrange(sub.next as int, sub.next as int));
    } else {
        law_delivery_in_publish_order(topic, sub, ops.drop_last());
        lemma_step_in_order(start.run(ops.drop_last()), sub.next, ops.last());
    }
}

/// A subscriber that is not behind the retained window and receives `count`
/// times, `count` at most the number of messages waiting, is handed exactly
/// the next `count` messages of the log.
proof fn lemma_receive_some(topic: TopicView, sub: SubscriptionView, count: nat)
    requires
        sub.topic == topic.id,
        topic.oldest() <= sub.next,
        sub.next + count <= topic.history.len(),
    ensures
        Reception::start(topic, sub).run(receives(count)) == (Reception {
            topic,
            sub: SubscriptionView { next: sub.next + count, ..sub },
            delivered: topic.history.subrange(sub.next as int, (sub.next + count) as int),
            positions: Seq::new(count, |i: int| (sub.next + i) as nat),
            lagged: false,
        }),
    decreases count,
{
    let start = Reception::start(topic, sub);
    if count == 0 {
        assert(start.delivered =~= topic.history.subrange(sub.next as int, sub.next as int));
        assert(start.positions =~= Seq::new(0, |i: int| (sub.next + i) as nat));
    } else {
        let fewer = (count - 1) as nat;
        lemma_receive_some(topic, sub, fewer);
        assert(receives(count).drop_last() =~= receives(fewer));
        let before = start.run(receives(fewer));
        let after = before.step(TopicOp::Recv);
        assert(after.delivered =~= topic.history.subrange(
            sub.next as int,
            (sub.next + count) as int,
        ));
        assert(after.positions =~= Seq::new(count, |i: int| (sub.next + i) as nat));
    }
}

/// Every message that is waiting for a subscriber is delivered to it, in
/// publish order, if it keeps receiving: one receive per waiting message
/// hands out exactly the waiting messages and leaves nothing to receive. A
/// subscriber that fell behind the retained window spends one more receive,
/// on the report of the lag, and is then handed all that is retained.
pub proof fn law_waiting_messages_arrive(topic: TopicView, sub: SubscriptionView)
    requires
        sub.topic == topic.id,
        sub.next <= topic.history.len(),
    ensures
        ({
            let waiting = topic.pending(sub);
            let calls = if sub.next < topic.oldest() {
                waiting.len() + 1
            } else {
                waiting.len()
            };
            let end = Reception::start(topic, sub).run(receives(calls));
            &&& end.delivered == waiting
            &&& end.lagged == (sub.next < topic.oldest())
            &&& end.topic == topic
            &&& end.sub.next == topic.history.len()
            &&& topic.recv(end.sub).0 == DeliveryView::Empty
        }),
{
    let waiting = topic.pending(sub);
    let start = Reception::start(topic, sub);
    if sub.next < topic.oldest() {
        let calls = waiting.len() + 1;
        let caught_up = SubscriptionView { next: topic.oldest(), ..sub };
        lemma_run_split(start, receives(1), receives(waiting.len()));
        assert(receives(1) + receives(waiting.len()) =~= receives(calls));
        assert(start.run(receives(1).drop_last()) == start);
        lemma_receive_some(topic, caught_up, waiting.len());
        lemma_run_ignores_lag_flag(Reception::start(topic, caught_up), receives(waiting.len()));
    } else {
        lemma_receive_some(topic, sub, waiting.len());
    }
}

/// Running two lists of calls in a row is running their concatenation.
proof fn lemma_run_split(r: Reception, head: Seq<TopicOp>, tail: Seq<TopicOp>)
    ensures
        r.run(head + tail) == r.run(head).run(tail),
    decreases tail.len(),
{
    if tail.len() > 0 {
        lemma_run_split(r, head, tail.drop_last());
        assert((head + tail).drop_last() =~= head + tail.drop_last());
    }
}

/// An earlier lag changes nothing in what later calls do but the flag.
proof fn lemma_run_ignores_lag_flag(r: Reception, ops: Seq<TopicOp>)
    ensures
        (Reception { lagged: true, ..r }).run(ops) == (Reception { lagged: true, ..r.run(ops) }),
    decreases ops.len(),
{
    if ops.len() > 0 {
        lemma_run_ignores_lag_flag(r, ops.drop_last());
    }
}

/// A subscriber is never reported a lag while no more messages have been
/// published since its cursor than the topic retains.
pub proof fn law_no_lag_within_capacity(topic: TopicView, sub: SubscriptionView)
    requires
        sub.topic == topic.id,
        topic.history.len() - sub.next <= topic.capacity,
    ensures
        !(topic.recv(sub).0 is Lagged),
        sub.next < topic.history.len() ==> topic.recv(sub).0 == DeliveryView::Message(
            topic.history[sub.next as int],
        ),
{
}

/// A message published after a subscription was made reaches it: it stands
/// in the log at or after the subscription's cursor. One published before
/// does not: a fresh subscription has nothing waiting.
pub proof fn law_subscription_starts_now(topic: TopicView, msg: Seq<char>)
    requires
        topic.accepts(),
    ensures
        topic.pending(topic.subscribe()) == Seq::<Seq<char>>::empty(),
        topic.capacity > 0 ==> topic.publish(msg).pending(topic.subscribe()) == seq![msg],
{
}

/// The outcome of one receive.
#[derive(Debug, PartialEq, Eq)]
pub enum Delivery {
    /// The next message in publish order.
    Message(String),
    /// The subscriber fell behind and this many messages were dropped unseen.
    Lagged(u64),
    /// Nothing is waiting.
    Empty,
    /// The subscription does not belong to the topic that was asked.
    Closed,
}

impl View for Delivery {
    type V = DeliveryView;

    open spec fn view(&self) -> DeliveryView {
        match *self {
            Delivery::Message(text) => DeliveryView::Message(text@),
            Delivery::Lagged(n) => DeliveryView::Lagged(n as nat),
            Delivery::Empty => DeliveryView::Empty,
            Delivery::Closed => DeliveryView::Closed,
        }
    }
}

/// A receive cursor on one topic, independent of every other subscription.
pub struct Subscription {
    topic: usize,
    next: u64,
}

impl View for Subscription {
    type V = SubscriptionView;

    closed spec fn view(&self) -> SubscriptionView {
        SubscriptionView { topic: self.topic as nat, next: self.next as nat }
    }
}

impl Subscription {
    /// The placeholder that a session carries before it is admitted. Nothing
    /// is ever received on it.
    pub(crate) fn unbound() -> (sub: Subscription)
        ensures
            sub@ == (SubscriptionView { topic: 0, next: 0 }),
    {
        Subscription { topic: 0, next: 0 }
    }

    /// The identity of the topic this subscription reads.
    pub fn topic(&self) -> (id: usize)
        ensures
            id == self@.topic,
    {
        self.topic
    }
}

/// A bounded fan-out channel: one shared log, any number of cursors.
pub struct Topic {
    id: usize,
    capacity: usize,
    window: VecDeque<String>,
    published: u64,
    history: Ghost<Seq<Seq<char>>>,
}

impl View for Topic {
    type V = TopicView;

    closed spec fn view(&self) -> TopicView {
        TopicView {
            id: self.id as nat,
            capacity: self.capacity as nat,
            history: self.history@,
        }
    }
}

impl Topic {
    /// The window holds exactly the newest messages of the log, at most
    /// `capacity` of them, and the counter is the length of the log.
    pub closed spec fn wf(&self) -> bool {
        &&& self.history@.len() == self.published
        &&& self.window@.len() == self@.retained().len()
        &&& forall|i: int|
            0 <= i < self.window@.len() ==> (#[trigger] self.window@[i])@ == self@.retained()[i]
    }

    /// A topic with identity `id` that retains at most `capacity` messages.
    pub fn new(id: usize, capacity: usize) -> (topic: Topic)
        ensures
            topic.wf(),
            topic@ == TopicView::fresh(id as nat, capacity as nat),
    {
        Topic { id, capacity, window: VecDeque::new(), published: 0, history: Ghost(Seq::empty()) }
    }

    /// The identity given at creation.
    pub fn id(&self) -> (id: usize)
        ensures
            id == self@.id,
    {
        self.id
    }

    /// The number of messages the topic retains at most.
    pub fn capacity(&self) -> (capacity: usize)
        ensures
            capacity == self@.capacity,
    {
        self.capacity
    }

    /// The number of messages published so far.
    pub fn published(&self) -> (count: u64)
        requires
            self.wf(),
        ensures
            count == self@.history.len(),
    {
        self.published
    }

    /// Appends `msg` to the log for every subscription that exists now, and
    /// drops the oldest retained message if the window was full. The message
    /// is refused, and nothing changes, only when the position counter is
    /// exhausted.
    pub fn publish(&mut self, msg: String) -> (accepted: bool)
        requires
            old(self).wf(),
        ensures
            final(self).wf(),
            accepted == old(self)@.accepts(),
            final(self)@ == old(self)@.publish(msg@),
    {
        if self.published == u64::MAX {
            return false;
        }
        let ghost before = self.window@;
        if self.capacity > 0 {
            if self.window.len() == self.capacity {
                let _ = self.window.pop_front();
            }
            self.window.push_back(msg);
        }
        self.published = self.published + 1;
        proof {
            self.history@ = self.history@.push(msg@);
            let shift = if before.len() == self.capacity {
                1int
            } else {
                0int
            };
            assert forall|i: int| 0 <= i < self.window@.len() implies (#[trigger] self.window@[i])@
                == self@.retained()[i] by {
                if i < self.window@.len() - 1 {
                    assert(self.window@[i] == before[i + shift]);
                }
            }
        }
        true
    }

    /// Creates a cursor that starts at the end of the log.
    pub fn subscribe(&self) -> (sub: Subscription)
        requires
            self.wf(),
        ensures
            sub@ == self@.subscribe(),
    {
        Subscription { topic: self.id, next: self.published }
    }

    /// Hands out the next message for `sub` and advances it, or says why
    /// there is none: the subscriber lagged (the cursor then moves to the
    /// oldest retained message), nothing is waiting, or the subscription
    /// belongs to another topic.
    pub fn recv(&self, sub: &mut Subscription) -> (delivery: Delivery)
        requires
            self.wf(),
        ensures
            (delivery@, final(sub)@) == self@.recv(old(sub)@),
    {
        if sub.topic != self.id {
            return Delivery::Closed;
        }
        let held: usize = self.window.len();
        let oldest: u64 = self.published - (held as u64);
        if sub.next < oldest {
            let missed: u64 = oldest - sub.next;
            sub.next = oldest;
            Delivery::Lagged(missed)
        } else if sub.next < self.published {
            let offset: usize = (sub.next - oldest) as usize;
            let text = self.window[offset].clone();
            sub.next = sub.next + 1;
            Delivery::Message(text)
        } else {
            Delivery::Empty
        }
    }
}

} // verus!
