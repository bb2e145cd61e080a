//! The measurement distributor: a broadcast channel with one bounded
//! backlog per subscriber.
//!
//! Every subscriber sees every value published after it subscribed, in
//! publish order. Publishing always succeeds at once: a subscriber whose
//! backlog is full loses its oldest unread value to make room for the new
//! one, and no other subscriber is affected.
//!
//! The values travel through a `PubSubChannel` of `embassy_sync`, which
//! the distributor owns together with all of its subscribers. Verus does
//! not look into the channel: what it holds for each subscriber is named
//! by `channel_backlogs`, and the four calls into `embassy_sync` are
//! believed to do what their contracts below say. The distributor keeps
//! count of what each subscriber has yet to read, and everything that is
//! stated of it rests on those four contracts.
//!
//! The distributor is an owned value. Tasks that share it put it behind a
//! lock of their own; reading is a poll (`try_next`), so that suspending
//! until the next value is left to the caller's scheduler.

use vstd::prelude::*;
use embassy_sync::blocking_mutex::raw::NoopRawMutex;
use embassy_sync::pubsub::{PubSubChannel, Subscriber};
use crate::sensor::Measurement;

verus! {

/// What a backlog holds after `value` is offered to it: the value is
/// appended, and a full backlog gives up its oldest entry first.
pub open spec fn offer(backlog: Seq<Measurement>, value: Measurement, capacity: nat) -> Seq<
    Measurement,
> {
    if backlog.len() >= capacity {
        backlog.drop_first().push(value)
    } else {
        backlog.push(value)
    }
}

/// The newest `capacity` entries of `values`, oldest first: all of them
/// where there are no more than that.
pub open spec fn newest(values: Seq<Measurement>, capacity: nat) -> Seq<Measurement> {
    if values.len() > capacity {
        values.subrange(values.len() - capacity, values.len() as int)
    } else {
        values
    }
}

/// The distributor as mathematics: each subscriber's unread values, oldest
/// first, with the bound on a backlog and on the number of subscribers.
pub struct Backlogs {
    pub capacity: nat,
    pub limit: nat,
    pub queues: Seq<Seq<Measurement>>,
}

impl Backlogs {
    pub open spec fn wf(self) -> bool {
        &&& self.capacity >= 1
        &&& self.queues.len() <= self.limit
        &&& forall|slot: int|
            0 <= slot < self.queues.len() ==> (#[trigger] self.queues[slot]).len() <= self.capacity
    }

    /// Whether `slot` names a subscriber.
    pub open spec fn has(self, slot: int) -> bool {
        0 <= slot < self.queues.len()
    }

    /// A subscriber joins with an empty backlog.
    pub open spec fn subscribe(self) -> Backlogs {
        Backlogs { queues: self.queues.push(Seq::empty()), ..self }
    }

    /// One value offered to every backlog.
    pub open spec fn publish(self, value: Measurement) -> Backlogs {
        Backlogs {
            queues: Seq::new(
                self.queues.len(),
                |slot: int| offer(self.queues[slot], value, self.capacity),
            ),
            ..self
        }
    }

    /// `values` published one after the other.
    pub open spec fn publish_all(self, values: Seq<Measurement>) -> Backlogs
        decreases values.len(),
    {
        if values.len() == 0 {
            self
        } else {
            self.publish_all(values.drop_last()).publish(values.last())
        }
    }

    /// The subscriber at `slot` takes its oldest unread value.
    pub open spec fn take(self, slot: int) -> Backlogs {
        Backlogs { queues: self.queues.update(slot, self.queues[slot].drop_first()), ..self }
    }

    /// The subscriber at `slot` gives up all that it has not read. Without
    /// such a subscriber nothing changes.
    pub open spec fn skip(self, slot: int) -> Backlogs {
        if self.has(slot) {
            Backlogs { queues: self.queues.update(slot, Seq::empty()), ..self }
        } else {
            self
        }
    }
}

/// One thing that happens to a distributor.
pub enum Operation {
    /// A subscriber joins.
    Subscribe,
    /// A value is published.
    Publish(Measurement),
    /// The subscriber at this slot asks for its next value.
    Take(int),
}

impl Backlogs {
    /// The backlogs after `operation`. Joining beyond the limit, and
    /// asking where nothing waits, change nothing.
    pub open spec fn apply(self, operation: Operation) -> Backlogs {
        match operation {
            Operation::Subscribe => if self.queues.len() < self.limit {
                self.subscribe()
            } else {
                self
            },
            Operation::Publish(value) => self.publish(value),
            Operation::Take(slot) => if self.has(slot) && self.queues[slot].len() > 0 {
                self.take(slot)
            } else {
                self
            },
        }
    }

    /// The backlogs after a history of operations.
    pub open spec fn apply_all(self, history: Seq<Operation>) -> Backlogs
        decreases history.len(),
    {
        if history.len() == 0 {
            self
        } else {
            self.apply_all(history.drop_last()).apply(history.last())
        }
    }

    /// The values that the subscriber at `slot` was handed in the course
    /// of a history, in the order it got them.
    pub open spec fn taken(self, history: Seq<Operation>, slot: int) -> Seq<Measurement>
        decreases history.len(),
    {
        if history.len() == 0 {
            Seq::empty()
        } else {
            let earlier = self.taken(history.drop_last(), slot);
            let middle = self.apply_all(history.drop_last());
            match history.last() {
                Operation::Take(reader) if reader == slot && middle.queues[slot].len() > 0 => {
                    earlier.push(middle.queues[slot].first())
                },
                _ => earlier,
            }
        }
    }

    /// Whether the subscriber at `slot` kept up with a history: no
    /// publication found its backlog full.
    pub open spec fn kept_up(self, history: Seq<Operation>, slot: int) -> bool
        decreases history.len(),
    {
        if history.len() == 0 {
            true
        } else {
            &&& self.kept_up(history.drop_last(), slot)
            &&& history.last() is Publish ==> self.apply_all(
                history.drop_last(),
            ).queues[slot].len() < self.capacity
        }
    }
}

/// The values published in the course of a history, in order.
pub open spec fn published(history: Seq<Operation>) -> Seq<Measurement>
    decreases history.len(),
{
    if history.len() == 0 {
        Seq::empty()
    } else {
        match history.last() {
            Operation::Publish(value) => published(history.drop_last()).push(value),
            _ => published(history.drop_last()),
        }
    }
}

/// A subscriber's handle: the slot it reads from.
#[derive(Clone, Copy, Debug, PartialEq, Eq, Structural)]
pub struct Subscription {
    pub slot: usize,
}

/// Unread values kept for each subscriber.
pub const CAPACITY: usize = 4;

/// Subscribers that may join.
pub const SUBSCRIBERS: usize = 4;

/// An `embassy_sync::pubsub::PubSubChannel` for measurements, with room
/// for four values and four subscribers, together with the subscribers
/// made from it, in the order they joined. Nothing else has access to the
/// channel. Verus takes the whole as opaque.
#[verifier::external_body]
pub struct Channel {
    shared: &'static PubSubChannel<NoopRawMutex, Measurement, 4, 4, 4>,
    readers: Vec<Subscriber<'static, NoopRawMutex, Measurement, 4, 4, 4>>,
}

/// For each subscriber of a channel, in the order they joined, the values
/// that `Subscriber::try_next_message_pure` would hand it if it were
/// called again and again, in that order.
pub uninterp spec fn channel_backlogs(channel: Channel) -> Seq<Seq<Measurement>>;

/// `PubSubChannel::new`: a channel without subscribers. It is placed on
/// the heap for good, so that its subscribers can be kept beside it.
#[verifier::external_body]
fn open() -> (channel: Channel)
    ensures
        channel_backlogs(channel) == Seq::<Seq<Measurement>>::empty(),
{
    Channel { shared: Box::leak(Box::new(PubSubChannel::new())), readers: Vec::new() }
}

/// `PubSubChannel::subscriber`: a new subscriber, which is handed only
/// what is published after this call. It is refused when four subscribers
/// exist already; nothing changes for the others either way.
#[verifier::external_body]
fn join(channel: &mut Channel) -> (joined: bool)
    ensures
        joined <==> channel_backlogs(*old(channel)).len() < 4,
        channel_backlogs(*final(channel)) == if joined {
            channel_backlogs(*old(channel)).push(Seq::empty())
        } else {
            channel_backlogs(*old(channel))
        },
{
    match channel.shared.subscriber() {
        Ok(reader) => {
            channel.readers.push(reader);
            true
        },
        Err(_) => false,
    }
}

/// `ImmediatePublisher::publish_immediate`: the value is queued for every
/// subscriber, after what it has yet to read. The channel holds four
/// values; when it is full its oldest value goes first, which a
/// subscriber misses exactly if it has read none of the four.
#[verifier::external_body]
fn send(channel: &mut Channel, value: Measurement)
    ensures
        channel_backlogs(*final(channel)) == Seq::new(
            channel_backlogs(*old(channel)).len(),
            |slot: int| offer(channel_backlogs(*old(channel))[slot], value, 4),
        ),
{
    channel.shared.immediate_publisher().publish_immediate(value)
}

/// `Subscriber::try_next_message_pure`: the subscriber's oldest unread
/// value, which is then read; nothing, and no change, where it has read
/// everything. What other subscribers have yet to read stays the same.
#[verifier::external_body]
fn receive(channel: &mut Channel, slot: usize) -> (next: Option<Measurement>)
    requires
        slot < channel_backlogs(*old(channel)).len(),
    ensures
        match next {
            Some(value) => {
                &&& channel_backlogs(*old(channel))[slot as int].len() > 0
                &&& value == channel_backlogs(*old(channel))[slot as int].first()
                &&& channel_backlogs(*final(channel)) == channel_backlogs(*old(channel)).update(
                    slot as int,
                    channel_backlogs(*old(channel))[slot as int].drop_first(),
                )
            },
            None => {
                &&& channel_backlogs(*old(channel))[slot as int].len() == 0
                &&& channel_backlogs(*final(channel)) == channel_backlogs(*old(channel))
            },
        },
{
    channel.readers[slot].try_next_message_pure()
}

/// The broadcast channel: the channel proper, and for each subscriber the
/// number of values it has yet to read.
pub struct Distributor {
    channel: Channel,
    unread: Vec<usize>,
}

impl View for Distributor {
    type V = Backlogs;

    closed spec fn view(&self) -> Backlogs {
        Backlogs {
            capacity: CAPACITY as nat,
            limit: SUBSCRIBERS as nat,
            queues: channel_backlogs(self.channel),
        }
    }
}

impl Distributor {
    /// The representation invariant: the counts are those of the
    /// channel's backlogs, and none exceeds the capacity.
    pub closed spec fn wf(&self) -> bool {
        &&& self.unread@.len() == channel_backlogs(self.channel).len()
        &&& self.unread@.len() <= SUBSCRIBERS
        &&& forall|slot: int|
            0 <= slot < self.unread@.len() ==> (#[trigger] self.unread@[slot]) == channel_backlogs(
                self.channel,
            )[slot].len() && self.unread@[slot] <= CAPACITY
    }

    /// A well-formed distributor has well-formed backlogs.
    pub proof fn lemma_wf_view(&self)
        requires
            self.wf(),
        ensures
            self@.wf(),
            self@.capacity == CAPACITY,
            self@.limit == SUBSCRIBERS,
    {
        assert forall|slot: int| 0 <= slot < self@.queues.len() implies (
        #[trigger] self@.queues[slot]).len() <= self@.capacity by {
            assert(self.unread@[slot] <= CAPACITY);
        }
    }

    /// A distributor without subscribers. Each backlog holds up to
    /// `CAPACITY` values, and up to `SUBSCRIBERS` subscribers may join.
    pub fn new() -> (d: Distributor)
        ensures
            d.wf(),
            d@ == (Backlogs {
                capacity: CAPACITY as nat,
                limit: SUBSCRIBERS as nat,
                queues: Seq::empty(),
            }),
    {
        Distributor { channel: open(), unread: Vec::new() }
    }

    /// The bound on each backlog.
    pub fn capacity(&self) -> (n: usize)
        ensures
            n == self@.capacity,
    {
        CAPACITY
    }

    /// The number of subscribers.
    pub fn subscribers(&self) -> (n: usize)
        requires
            self.wf(),
        ensures
            n == self@.queues.len(),
    {
        self.unread.len()
    }

    /// Adds a subscriber. It will see the values published from now on and
    /// none published before. Fails, changing nothing, when `limit`
    /// subscribers have joined already.
    pub fn subscribe(&mut self) -> (subscription: Option<Subscription>)
        requires
            old(self).wf(),
        ensures
            final(self).wf(),
            match subscription {
                Some(s) => {
                    &&& old(self)@.queues.len() < old(self)@.limit
                    &&& s.slot == old(self)@.queues.len()
                    &&& final(self)@ == old(self)@.subscribe()
                },
                None => {
                    &&& old(self)@.queues.len() >= old(self)@.limit
                    &&& final(self)@ == old(self)@
                },
            },
    {
        let slot: usize = self.unread.len();
        let joined: bool = join(&mut self.channel);
        if joined {
            self.unread.push(0);
            assert forall|other: int| 0 <= other < self.unread@.len() implies (
            #[trigger] self.unread@[other]) == channel_backlogs(self.channel)[other].len()
                && self.unread@[other] <= CAPACITY by {
                if other < slot {
                    assert(self.unread@[other] == old(self).unread@[other]);
                }
            }
            Some(Subscription { slot })
        } else {
            None
        }
    }

    /// Publishes one value to every subscriber. It never waits and never
    /// fails, whatever the state of the backlogs: a subscriber that has
    /// `capacity` unread values loses the oldest of them.
    pub fn publish(&mut self, value: Measurement)
        requires
            old(self).wf(),
        ensures
            final(self).wf(),
            final(self)@ == old(self)@.publish(value),
    {
        send(&mut self.channel, value);
        let ghost sent = self.channel;
        let mut slot: usize = 0;
        while slot < self.unread.len()
            invariant
                slot <= self.unread@.len(),
                self.unread@.len() == old(self).unread@.len(),
                self.channel == sent,
                old(self).wf(),
                forall|done: int|
                    0 <= done < slot ==> #[trigger] self.unread@[done] == if old(self).unread@[done]
                        < CAPACITY {
                        old(self).unread@[done] + 1
                    } else {
                        CAPACITY as int
                    },
                forall|todo: int|
                    slot <= todo < self.unread@.len() ==> #[trigger] self.unread@[todo] == old(
                        self,
                    ).unread@[todo],
            decreases self.unread@.len() - slot,
        {
            let count: usize = self.unread[slot];
            assert(old(self).unread@[slot as int] <= CAPACITY);
            if count < CAPACITY {
                self.unread[slot] = count + 1;
            }
            slot = slot + 1;
        }
        proof {
            let before = channel_backlogs(old(self).channel);
            let after = channel_backlogs(self.channel);
            assert forall|s: int| 0 <= s < self.unread@.len() implies (#[trigger] self.unread@[s])
                == after[s].len() && self.unread@[s] <= CAPACITY by {
                assert(old(self).unread@[s] == before[s].len());
                assert(after[s] == offer(before[s], value, 4));
            }
            assert(self@.queues =~= old(self)@.publish(value).queues);
        }
    }

    /// Hands the subscriber its oldest unread value, if it has one. `None`
    /// means that nothing is waiting, or that no such subscriber exists;
    /// nothing changes then. Other subscribers are never affected.
    pub fn try_next(&mut self, subscription: Subscription) -> (next: Option<Measurement>)
        requires
            old(self).wf(),
        ensures
            final(self).wf(),
            match next {
                Some(value) => {
                    &&& old(self)@.has(subscription.slot as int)
                    &&& old(self)@.queues[subscription.slot as int].len() > 0
                    &&& value == old(self)@.queues[subscription.slot as int].first()
                    &&& final(self)@ == old(self)@.take(subscription.slot as int)
                },
                None => {
                    &&& old(self)@.has(subscription.slot as int) ==> old(
                        self,
                    )@.queues[subscription.slot as int].len() == 0
                    &&& final(self)@ == old(self)@
                },
            },
    {
        let slot: usize = subscription.slot;
        if slot >= self.unread.len() {
            return None;
        }
        let next: Option<Measurement> = receive(&mut self.channel, slot);
        match next {
            Some(_) => {
                let count: usize = self.unread[slot];
                assert(count == channel_backlogs(old(self).channel)[slot as int].len());
                self.unread[slot] = count - 1;
                assert forall|s: int| 0 <= s < self.unread@.len() implies (
                #[trigger] self.unread@[s]) == channel_backlogs(self.channel)[s].len()
                    && self.unread@[s] <= CAPACITY by {
                    assert(old(self).unread@[s] == channel_backlogs(old(self).channel)[s].len());
                }
            },
            None => {},
        }
        next
    }

    /// Discards what the subscriber has not read: it will see only what is
    /// published from now on. Other subscribers are not affected, and for
    /// an unknown subscriber nothing changes.
    pub fn skip(&mut self, subscription: Subscription)
        requires
            old(self).wf(),
        ensures
            final(self).wf(),
            final(self)@ == old(self)@.skip(subscription.slot as int),
    {
        let slot: usize = subscription.slot;
        if slot < self.unread.len() {
            while self.unread[slot] > 0
                invariant
                    self.wf(),
                    slot < self.unread@.len(),
                    channel_backlogs(self.channel).len() == channel_backlogs(
                        old(self).channel,
                    ).len(),
                    forall|other: int|
                        0 <= other < self.unread@.len() && other != slot ==> channel_backlogs(
                            self.channel,
                        )[other] == #[trigger] channel_backlogs(old(self).channel)[other],
                decreases self.unread@[slot as int],
            {
                let ghost before = self.channel;
                let ghost counts = self.unread@;
                let count: usize = self.unread[slot];
                let dropped: Option<Measurement> = receive(&mut self.channel, slot);
                self.unread[slot] = count - 1;
                assert forall|s: int| 0 <= s < self.unread@.len() implies (
                #[trigger] self.unread@[s]) == channel_backlogs(self.channel)[s].len()
                    && self.unread@[s] <= CAPACITY by {
                    assert(counts[s] == channel_backlogs(before)[s].len());
                }
            }
            assert(channel_backlogs(self.channel)[slot as int] =~= Seq::empty());
            assert(self@.queues =~= old(self)@.skip(slot as int).queues);
        }
    }

    /// How many values wait for the subscriber; zero for an unknown one.
    pub fn pending(&self, subscription: Subscription) -> (n: usize)
        requires
            self.wf(),
        ensures
            n == if self@.has(subscription.slot as int) {
                self@.queues[subscription.slot as int].len()
            } else {
                0
            },
    {
        if subscription.slot < self.unread.len() {
            self.unread[subscription.slot]
        } else {
            0
        }
    }
}

/// Publishing keeps the backlogs well formed and the subscribers in place.
pub proof fn lemma_publish_all_wf(before: Backlogs, values: Seq<Measurement>)
    requires
        before.wf(),
    ensures
        before.publish_all(values).wf(),
        before.publish_all(values).queues.len() == before.queues.len(),
        before.publish_all(values).capacity == before.capacity,
        before.publish_all(values).limit == before.limit,
    decreases values.len(),
{
    if values.len() > 0 {
        lemma_publish_all_wf(before, values.drop_last());
    }
}

/// The drop policy, exactly: after any run of publications a backlog
/// holds the newest `capacity` values of what it held before followed by
/// what was published, in publish order.
pub proof fn lemma_backlog_keeps_newest(before: Backlogs, slot: int, values: Seq<Measurement>)
    requires
        before.wf(),
        before.has(slot),
    ensures
        before.publish_all(values).queues[slot] == newest(
            before.queues[slot] + values,
            before.capacity,
        ),
    decreases values.len(),
{
    let backlog = before.queues[slot];
    if values.len() == 0 {
        assert(backlog + values =~= backlog);
    } else {
        let earlier = values.drop_last();
        lemma_publish_all_wf(before, earlier);
        lemma_backlog_keeps_newest(before, slot, earlier);
        assert((backlog + earlier).push(values.last()) =~= backlog + values);
        assert(before.publish_all(values).queues[slot] =~= newest(
            backlog + values,
            before.capacity,
        ));
    }
}

/// No history disturbs the distributor or removes a subscriber.
pub proof fn lemma_apply_all_wf(before: Backlogs, history: Seq<Operation>)
    requires
        before.wf(),
    ensures
        before.apply_all(history).wf(),
        before.apply_all(history).queues.len() >= before.queues.len(),
        before.apply_all(history).capacity == before.capacity,
        before.apply_all(history).limit == before.limit,
    decreases history.len(),
{
    if history.len() > 0 {
        lemma_apply_all_wf(before, history.drop_last());
    }
}

/// A subscriber that keeps up observes exactly what is published, in
/// publish order, at whatever pace it reads and whatever the others do:
/// what it was handed, followed by what still waits for it, is what waited
/// for it at the start followed by everything published since.
pub proof fn lemma_observes_publications(before: Backlogs, history: Seq<Operation>, slot: int)
    requires
        before.wf(),
        before.has(slot),
        before.kept_up(history, slot),
    ensures
        before.taken(history, slot) + before.apply_all(history).queues[slot] == before.queues[slot]
            + published(history),
    decreases history.len(),
{
    if history.len() == 0 {
        assert(before.taken(history, slot) + before.queues[slot] =~= before.queues[slot]
            + published(history));
    } else {
        let earlier = history.drop_last();
        lemma_observes_publications(before, earlier, slot);
        lemma_apply_all_wf(before, earlier);
        let middle = before.apply_all(earlier);
        let seen = before.taken(earlier, slot);
        let waiting = middle.queues[slot];
        assert(seen + waiting == before.queues[slot] + published(earlier));
        match history.last() {
            Operation::Subscribe => {
                assert(before.taken(history, slot) + before.apply_all(history).queues[slot] =~= seen
                    + waiting);
            },
            Operation::Publish(value) => {
                assert(before.taken(history, slot) + before.apply_all(history).queues[slot] =~= (
                seen + waiting).push(value));
                assert(before.queues[slot] + published(history) =~= (before.queues[slot]
                    + published(earlier)).push(value));
            },
            Operation::Take(reader) => {
                assert(before.taken(history, slot) + before.apply_all(history).queues[slot] =~= seen
                    + waiting);
            },
        }
    }
}

/// Fan-out at any pace: two subscribers that start with the same unread
/// values and both keep up observe the same values in the same order,
/// however differently they time their reads.
pub proof fn lemma_fan_out_at_any_pace(
    before: Backlogs,
    history: Seq<Operation>,
    first: int,
    second: int,
)
    requires
        before.wf(),
        before.has(first),
        before.has(second),
        before.queues[first] == before.queues[second],
        before.kept_up(history, first),
        before.kept_up(history, second),
    ensures
        before.taken(history, first) + before.apply_all(history).queues[first] == before.taken(
            history,
            second,
        ) + before.apply_all(history).queues[second],
{
    lemma_observes_publications(before, history, first);
    lemma_observes_publications(before, history, second);
}

/// Fan-out: two subscribers with the same unread values still have the
/// same unread values, in the same order, after any run of publications.
/// Two subscribers that joined before the run, in either order, and had
/// read all there was, both hold the run itself where it fits a backlog.
pub proof fn lemma_fan_out(before: Backlogs, first: int, second: int, values: Seq<Measurement>)
    requires
        before.wf(),
        before.has(first),
        before.has(second),
        before.queues[first] == before.queues[second],
    ensures
        before.publish_all(values).queues[first] == before.publish_all(values).queues[second],
        before.queues[first].len() == 0 && values.len() <= before.capacity
            ==> before.publish_all(values).queues[first] == values,
{
    lemma_backlog_keeps_newest(before, first, values);
    lemma_backlog_keeps_newest(before, second, values);
    if before.queues[first].len() == 0 {
        assert(before.queues[first] + values =~= values);
    }
}

/// A subscriber that joins sees nothing of what was published before, and
/// the subscribers already there keep what they had.
pub proof fn lemma_subscribe_starts_empty(before: Backlogs)
    requires
        before.wf(),
        before.queues.len() < before.limit,
    ensures
        before.subscribe().wf(),
        before.subscribe().queues[before.queues.len() as int].len() == 0,
        forall|slot: int|
            before.has(slot) ==> #[trigger] before.subscribe().queues[slot] == before.queues[slot],
{
}

/// Freshness: a subscriber that gave up what it had not read, at some
/// moment, reads only what was published after that moment. Whatever
/// waited for it then, once `values` were published its backlog is the
/// newest part of `values`, and the value it takes next is one of them.
pub proof fn lemma_next_is_fresh(before: Backlogs, slot: int, values: Seq<Measurement>)
    requires
        before.wf(),
        before.has(slot),
        values.len() > 0,
    ensures
        before.skip(slot).wf(),
        before.skip(slot).publish_all(values).queues[slot] == newest(values, before.capacity),
        newest(values, before.capacity).len() > 0,
        newest(values, before.capacity).first() == values[if values.len() > before.capacity {
            values.len() - before.capacity
        } else {
            0
        }],
{
    let skipped = before.skip(slot);
    lemma_backlog_keeps_newest(skipped, slot, values);
    assert(skipped.queues[slot] + values =~= values);
}

/// Giving up a backlog takes nothing from the other subscribers.
pub proof fn lemma_skip_leaves_others(before: Backlogs, slot: int)
    requires
        before.wf(),
    ensures
        before.skip(slot).wf(),
        before.skip(slot).queues.len() == before.queues.len(),
        forall|other: int|
            before.has(other) && other != slot ==> #[trigger] before.skip(slot).queues[other]
                == before.queues[other],
{
}

} // verus!
