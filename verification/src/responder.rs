//! The network responder: once the link is up, serve one connection at a
//! time, each with one response.
//!
//! A session is: accept, wait for the next measurement to be published,
//! write the response, flush, close. What was published before the accept
//! is never sent: on accept the responder gives up whatever its
//! subscription has not read, so that the response is a reading taken
//! while the client was connected. A failure at any point of a session
//! closes the connection; the responder then accepts again. A link that
//! came up `Down` leaves the responder halted for good.

use vstd::prelude::*;
use crate::distributor::{
    lemma_next_is_fresh, lemma_publish_all_wf, newest, Backlogs, Distributor, Subscription,
};
use crate::link::LinkState;
use crate::protocol::OutOfTurn;
use crate::sensor::Measurement;

verus! {

/// The TCP port that the responder listens on.
pub const PORT: u16 = 1234;

/// After this many seconds without progress a session's operation fails.
pub const IDLE_TIMEOUT_SECS: u64 = 10;

/// What the caller is to do next.
#[derive(Clone, Copy, Debug, PartialEq, Eq, Structural)]
pub enum Action {
    /// Wait for the announcement of link bring-up.
    AwaitLink,
    /// Wait for one inbound connection on `port`, with `timeout_secs` as
    /// the idle timeout of the session.
    Accept { port: u16, timeout_secs: u64 },
    /// Suspend until a measurement is published.
    AwaitPublication,
    /// Write the response for this measurement, all of it.
    Write(Measurement),
    /// Flush what was written.
    Flush,
    /// Close the connection, whatever its state.
    Close,
    /// Nothing is left to do.
    Halt,
}

/// What the caller reports back.
#[derive(Clone, Copy, Debug, PartialEq, Eq)]
pub enum Completion {
    /// Link bring-up announced this.
    Link(LinkState),
    /// A client has connected.
    Accepted,
    /// Something was published since the responder last looked.
    Published,
    /// The response was written.
    Written,
    /// The response was flushed.
    Flushed,
    /// The connection is closed.
    Closed,
    /// The pending operation failed or timed out.
    Failed,
}

/// The responder, named by the operation it waits for. From `Listening`
/// on it holds the subscription it reads measurements from.
#[derive(Clone, Copy, Debug, PartialEq, Eq, Structural)]
pub enum Responder {
    /// Waiting for link bring-up to resolve.
    AwaitingLink,
    /// Waiting for a client to connect.
    Listening { reader: Subscription },
    /// A client is connected; waiting for a measurement to send it.
    AwaitingMeasurement { reader: Subscription },
    /// The response for `measurement` is being written.
    Writing { reader: Subscription, measurement: Measurement },
    /// The response is being flushed.
    Flushing { reader: Subscription },
    /// The connection is being closed.
    Closing { reader: Subscription },
    /// The link is down, or no subscription was to be had.
    Halted,
}

/// What a run of completions amounts to, in numbers.
pub struct Tally {
    /// How often the responder asked for a connection.
    pub accepts: nat,
    /// How many connections were made.
    pub connections: nat,
    /// How many connections were closed.
    pub closes: nat,
}

impl Responder {
    /// The operation that this phase waits for.
    pub open spec fn action(self) -> Action {
        match self {
            Responder::AwaitingLink => Action::AwaitLink,
            Responder::Listening { .. } => Action::Accept {
                port: PORT,
                timeout_secs: IDLE_TIMEOUT_SECS,
            },
            Responder::AwaitingMeasurement { .. } => Action::AwaitPublication,
            Responder::Writing { measurement, .. } => Action::Write(measurement),
            Responder::Flushing { .. } => Action::Flush,
            Responder::Closing { .. } => Action::Close,
            Responder::Halted => Action::Halt,
        }
    }

    /// Whether `completion` ends that operation. Every operation of a
    /// session may fail; closing may not.
    pub open spec fn expects(self, completion: Completion) -> bool {
        match self {
            Responder::AwaitingLink => completion is Link,
            Responder::Listening { .. } => completion is Accepted || completion is Failed,
            Responder::AwaitingMeasurement { .. } => completion is Published || completion
                is Failed,
            Responder::Writing { .. } => completion is Written || completion is Failed,
            Responder::Flushing { .. } => completion is Flushed || completion is Failed,
            Responder::Closing { .. } => completion is Closed,
            Responder::Halted => false,
        }
    }

    /// The link's announcement: up, the responder subscribes and listens;
    /// down, or with no subscription left, it halts.
    pub open spec fn gate(backlogs: Backlogs, link: LinkState) -> (Responder, Backlogs) {
        if link is Up && backlogs.queues.len() < backlogs.limit {
            (
                Responder::Listening { reader: Subscription { slot: backlogs.queues.len() as usize } },
                backlogs.subscribe(),
            )
        } else {
            (Responder::Halted, backlogs)
        }
    }

    /// A look at the responder's backlog: its oldest unread measurement is
    /// taken and goes out; with nothing unread the session waits.
    pub open spec fn poll(reader: Subscription, backlogs: Backlogs) -> (Responder, Backlogs) {
        let slot = reader.slot as int;
        if backlogs.has(slot) && backlogs.queues[slot].len() > 0 {
            (
                Responder::Writing { reader, measurement: backlogs.queues[slot].first() },
                backlogs.take(slot),
            )
        } else {
            (Responder::AwaitingMeasurement { reader }, backlogs)
        }
    }

    /// One completion applied to the responder and to the backlogs it
    /// reads from. A completion out of turn changes neither.
    pub open spec fn step(self, backlogs: Backlogs, completion: Completion) -> (
        Responder,
        Backlogs,
    ) {
        match (self, completion) {
            (Responder::AwaitingLink, Completion::Link(link)) => Self::gate(backlogs, link),
            (Responder::Listening { reader }, Completion::Accepted) => (
                Responder::AwaitingMeasurement { reader },
                backlogs.skip(reader.slot as int),
            ),
            (Responder::AwaitingMeasurement { reader }, Completion::Published) => Self::poll(
                reader,
                backlogs,
            ),
            (Responder::Writing { reader, .. }, Completion::Written) => (
                Responder::Flushing { reader },
                backlogs,
            ),
            (Responder::Flushing { reader }, Completion::Flushed) => (
                Responder::Closing { reader },
                backlogs,
            ),
            (Responder::Listening { reader }, Completion::Failed) => (
                Responder::Closing { reader },
                backlogs,
            ),
            (Responder::AwaitingMeasurement { reader }, Completion::Failed) => (
                Responder::Closing { reader },
                backlogs,
            ),
            (Responder::Writing { reader, .. }, Completion::Failed) => (
                Responder::Closing { reader },
                backlogs,
            ),
            (Responder::Flushing { reader }, Completion::Failed) => (
                Responder::Closing { reader },
                backlogs,
            ),
            (Responder::Closing { reader }, Completion::Closed) => (
                Responder::Listening { reader },
                backlogs,
            ),
            _ => (self, backlogs),
        }
    }

    /// A run of completions applied in order.
    pub open spec fn run(self, backlogs: Backlogs, completions: Seq<Completion>) -> (
        Responder,
        Backlogs,
    )
        decreases completions.len(),
    {
        if completions.len() == 0 {
            (self, backlogs)
        } else {
            let (phase, middle) = self.run(backlogs, completions.drop_last());
            phase.step(middle, completions.last())
        }
    }

    /// The measurements that a run sends out, in order: one for each time
    /// the responder starts to write.
    pub open spec fn responses(self, backlogs: Backlogs, completions: Seq<Completion>) -> Seq<
        Measurement,
    >
        decreases completions.len(),
    {
        if completions.len() == 0 {
            Seq::empty()
        } else {
            let earlier = self.responses(backlogs, completions.drop_last());
            let (phase, middle) = self.run(backlogs, completions.drop_last());
            match phase.step(middle, completions.last()).0 {
                Responder::Writing { measurement, .. } if !(phase is Writing) => earlier.push(
                    measurement,
                ),
                _ => earlier,
            }
        }
    }

    /// The counts of a run: requests for a connection, connections made,
    /// connections closed.
    pub open spec fn tally(self, backlogs: Backlogs, completions: Seq<Completion>) -> Tally
        decreases completions.len(),
    {
        if completions.len() == 0 {
            Tally { accepts: 0, connections: 0, closes: 0 }
        } else {
            let earlier = self.tally(backlogs, completions.drop_last());
            let (phase, middle) = self.run(backlogs, completions.drop_last());
            let next = phase.step(middle, completions.last()).0;
            Tally {
                accepts: if next is Listening && !(phase is Listening) {
                    earlier.accepts + 1
                } else {
                    earlier.accepts
                },
                connections: if phase is Listening && completions.last() is Accepted {
                    earlier.connections + 1
                } else {
                    earlier.connections
                },
                closes: if phase is Closing && completions.last() is Closed {
                    earlier.closes + 1
                } else {
                    earlier.closes
                },
            }
        }
    }

    /// A responder that waits for the link.
    pub fn new() -> (responder: Responder)
        ensures
            responder == Responder::AwaitingLink,
    {
        Responder::AwaitingLink
    }

    /// The operation that the responder waits for.
    pub fn pending(&self) -> (action: Action)
        ensures
            action == self.action(),
    {
        match *self {
            Responder::AwaitingLink => Action::AwaitLink,
            Responder::Listening { .. } => Action::Accept {
                port: PORT,
                timeout_secs: IDLE_TIMEOUT_SECS,
            },
            Responder::AwaitingMeasurement { .. } => Action::AwaitPublication,
            Responder::Writing { measurement, .. } => Action::Write(measurement),
            Responder::Flushing { .. } => Action::Flush,
            Responder::Closing { .. } => Action::Close,
            Responder::Halted => Action::Halt,
        }
    }

    /// Takes the reader's next measurement, if there is one.
    fn look(reader: Subscription, distributor: &mut Distributor) -> (next: Responder)
        requires
            old(distributor).wf(),
        ensures
            final(distributor).wf(),
            (next, final(distributor)@) == Self::poll(reader, old(distributor)@),
    {
        match distributor.try_next(reader) {
            Some(measurement) => Responder::Writing { reader, measurement },
            None => Responder::AwaitingMeasurement { reader },
        }
    }

    /// Reports the completion of the pending operation and returns the
    /// next one. The link's announcement makes the responder subscribe to
    /// `distributor`; a new connection makes it give up what it has not
    /// read there; every publication while a client waits makes it take
    /// its next measurement from there. A completion out of turn is
    /// refused; the responder and the distributor stay as they were.
    pub fn complete(&mut self, completion: Completion, distributor: &mut Distributor) -> (result:
        Result<Action, OutOfTurn>)
        requires
            old(distributor).wf(),
        ensures
            final(distributor).wf(),
            (*final(self), final(distributor)@) == old(self).step(old(distributor)@, completion),
            match result {
                Ok(action) => old(self).expects(completion) && action == final(self).action(),
                Err(_) => !old(self).expects(completion),
            },
    {
        match (*self, completion) {
            (Responder::AwaitingLink, Completion::Link(link)) => {
                *self = match link {
                    LinkState::Up { .. } => match distributor.subscribe() {
                        Some(reader) => Responder::Listening { reader },
                        None => Responder::Halted,
                    },
                    LinkState::Down => Responder::Halted,
                };
            },
            (Responder::Listening { reader }, Completion::Accepted) => {
                distributor.skip(reader);
                *self = Responder::AwaitingMeasurement { reader };
            },
            (Responder::AwaitingMeasurement { reader }, Completion::Published) => {
                *self = Self::look(reader, distributor);
            },
            (Responder::Writing { reader, .. }, Completion::Written) => {
                *self = Responder::Flushing { reader };
            },
            (Responder::Flushing { reader }, Completion::Flushed) => {
                *self = Responder::Closing { reader };
            },
            (Responder::Listening { reader }, Completion::Failed) => {
                *self = Responder::Closing { reader };
            },
            (Responder::AwaitingMeasurement { reader }, Completion::Failed) => {
                *self = Responder::Closing { reader };
            },
            (Responder::Writing { reader, .. }, Completion::Failed) => {
                *self = Responder::Closing { reader };
            },
            (Responder::Flushing { reader }, Completion::Failed) => {
                *self = Responder::Closing { reader };
            },
            (Responder::Closing { reader }, Completion::Closed) => {
                *self = Responder::Listening { reader };
            },
            _ => {
                return Err(OutOfTurn);
            },
        }
        Ok(self.pending())
    }
}

/// What holds of a run's counts in each phase, for a responder that
/// started out waiting for the link.
spec fn counted(phase: Responder, tally: Tally, responses: nat) -> bool {
    match phase {
        Responder::AwaitingLink | Responder::Halted => {
            &&& tally.accepts == 0
            &&& tally.connections == 0
            &&& tally.closes == 0
            &&& responses == 0
        },
        Responder::Listening { .. } => {
            &&& tally.accepts == tally.closes + 1
            &&& tally.connections < tally.accepts
            &&& responses <= tally.connections
        },
        Responder::AwaitingMeasurement { .. } => {
            &&& tally.accepts == tally.closes + 1
            &&& tally.connections <= tally.accepts
            &&& responses < tally.connections
        },
        Responder::Writing { .. } | Responder::Flushing { .. } | Responder::Closing { .. } => {
            &&& tally.accepts == tally.closes + 1
            &&& tally.connections <= tally.accepts
            &&& responses <= tally.connections
        },
    }
}

proof fn lemma_counted(backlogs: Backlogs, completions: Seq<Completion>)
    ensures
        counted(
            Responder::AwaitingLink.run(backlogs, completions).0,
            Responder::AwaitingLink.tally(backlogs, completions),
            Responder::AwaitingLink.responses(backlogs, completions).len(),
        ),
    decreases completions.len(),
{
    if completions.len() > 0 {
        lemma_counted(backlogs, completions.drop_last());
    }
}

/// Sessions are serial, with one response each. In any run from the
/// start, the responder asks for a new connection only when every earlier
/// one has been closed, so that no second client is served while a
/// session is under way; and it sends no more responses than connections
/// were made.
pub proof fn lemma_sessions_are_serial(backlogs: Backlogs, completions: Seq<Completion>)
    ensures
        ({
            let tally = Responder::AwaitingLink.tally(backlogs, completions);
            let responses = Responder::AwaitingLink.responses(backlogs, completions);
            &&& responses.len() <= tally.connections
            &&& tally.connections <= tally.accepts
            &&& tally.accepts <= tally.closes + 1
        }),
{
    lemma_counted(backlogs, completions);
}

/// The link gates the responder: as long as nothing was announced, it
/// waits, whatever else is reported to it.
pub proof fn lemma_no_service_before_link(backlogs: Backlogs, completions: Seq<Completion>)
    requires
        forall|i: int| 0 <= i < completions.len() ==> !(completions[i] is Link),
    ensures
        Responder::AwaitingLink.run(backlogs, completions) == (Responder::AwaitingLink, backlogs),
        Responder::AwaitingLink.tally(backlogs, completions).accepts == 0,
    decreases completions.len(),
{
    if completions.len() > 0 {
        lemma_no_service_before_link(backlogs, completions.drop_last());
    }
}

/// A link that was announced as down halts the responder for good: it
/// never asks for a connection and leaves the backlogs alone.
pub proof fn lemma_no_service_without_link(backlogs: Backlogs, completions: Seq<Completion>)
    requires
        completions.len() > 0,
        completions[0] == Completion::Link(LinkState::Down),
    ensures
        Responder::AwaitingLink.run(backlogs, completions) == (Responder::Halted, backlogs),
        Responder::AwaitingLink.tally(backlogs, completions).accepts == 0,
    decreases completions.len(),
{
    if completions.len() > 1 {
        assert(completions.drop_last()[0] == completions[0]);
        lemma_no_service_without_link(backlogs, completions.drop_last());
    } else {
        reveal_with_fuel(Responder::run, 2);
        reveal_with_fuel(Responder::tally, 2);
        assert(completions.last() == completions[0]);
    }
}

/// Freshness. Whatever waits unread when a connection is accepted, the
/// session sends none of it: it waits, and once `values` were published
/// after the accept it sends one of them, the oldest that a backlog still
/// holds. No measurement published before the accept is ever sent on the
/// connection.
pub proof fn lemma_response_is_fresh(
    reader: Subscription,
    at_accept: Backlogs,
    values: Seq<Measurement>,
)
    requires
        at_accept.wf(),
        at_accept.has(reader.slot as int),
        values.len() > 0,
    ensures
        ({
            let (waiting, cleared) = (Responder::Listening { reader }).step(
                at_accept,
                Completion::Accepted,
            );
            let (writing, _) = waiting.step(cleared.publish_all(values), Completion::Published);
            &&& waiting == Responder::AwaitingMeasurement { reader }
            &&& cleared == at_accept.skip(reader.slot as int)
            &&& writing == Responder::Writing {
                reader,
                measurement: newest(values, at_accept.capacity).first(),
            }
            &&& newest(values, at_accept.capacity).first() == values[if values.len()
                > at_accept.capacity {
                values.len() - at_accept.capacity
            } else {
                0
            }]
        }),
{
    let slot = reader.slot as int;
    lemma_next_is_fresh(at_accept, slot, values);
    lemma_publish_all_wf(at_accept.skip(slot), values);
}

/// Without a publication after the accept the session stays suspended:
/// however often the responder is woken, it writes nothing and keeps the
/// connection open.
pub proof fn lemma_waits_for_a_publication(
    reader: Subscription,
    at_accept: Backlogs,
    wakes: Seq<Completion>,
)
    requires
        at_accept.wf(),
        at_accept.has(reader.slot as int),
        forall|i: int| 0 <= i < wakes.len() ==> wakes[i] is Published,
    ensures
        ({
            let (waiting, cleared) = (Responder::Listening { reader }).step(
                at_accept,
                Completion::Accepted,
            );
            waiting.run(cleared, wakes) == (Responder::AwaitingMeasurement { reader }, cleared)
        }),
    decreases wakes.len(),
{
    if wakes.len() > 0 {
        lemma_waits_for_a_publication(reader, at_accept, wakes.drop_last());
    }
}

} // verus!
