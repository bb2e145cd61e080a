//! The presentation consumer: once a second, take the next measurement
//! from a subscription of its own and have it shown.
//!
//! The screen has four quadrants, A to D. The sensor's reading goes to
//! quadrant B; the other three have no source and show as missing.

use vstd::prelude::*;
use crate::distributor::{Backlogs, Distributor, Subscription};
use crate::protocol::OutOfTurn;
use crate::sensor::Measurement;

verus! {

/// The pause before each refresh, in milliseconds.
pub const REFRESH_MILLIS: u64 = 1000;

/// What the four quadrants show.
#[derive(Clone, Copy, Debug, PartialEq, Eq, Structural)]
pub struct Screen {
    pub a: Measurement,
    pub b: Measurement,
    pub c: Measurement,
    pub d: Measurement,
}

impl Screen {
    /// The screen for one measurement of the sensor.
    pub open spec fn of(measurement: Measurement) -> Screen {
        Screen { a: None, b: measurement, c: None, d: None }
    }
}

/// What the caller is to do next.
#[derive(Clone, Copy, Debug, PartialEq, Eq, Structural)]
pub enum Action {
    /// Let this many milliseconds pass.
    Wait(u64),
    /// Suspend until a measurement is published.
    AwaitPublication,
    /// Draw this screen.
    Show(Screen),
}

/// What the caller reports back.
#[derive(Clone, Copy, Debug, PartialEq, Eq, Structural)]
pub enum Completion {
    /// The time has passed.
    Elapsed,
    /// Something was published since the presenter last looked.
    Published,
    /// The screen is drawn.
    Shown,
}

/// The presenter, named by the operation it waits for.
#[derive(Clone, Copy, Debug, PartialEq, Eq, Structural)]
pub enum Presenter {
    /// Pausing before the next refresh.
    Pausing { reader: Subscription },
    /// Waiting for a measurement to show.
    AwaitingMeasurement { reader: Subscription },
    /// The screen for `measurement` is being drawn.
    Showing { reader: Subscription, measurement: Measurement },
}

impl Presenter {
    /// The operation that this phase waits for.
    pub open spec fn action(self) -> Action {
        match self {
            Presenter::Pausing { .. } => Action::Wait(REFRESH_MILLIS),
            Presenter::AwaitingMeasurement { .. } => Action::AwaitPublication,
            Presenter::Showing { measurement, .. } => Action::Show(Screen::of(measurement)),
        }
    }

    /// Whether `completion` ends that operation.
    pub open spec fn expects(self, completion: Completion) -> bool {
        match self {
            Presenter::Pausing { .. } => completion is Elapsed,
            Presenter::AwaitingMeasurement { .. } => completion is Published,
            Presenter::Showing { .. } => completion is Shown,
        }
    }

    /// A look at the presenter's backlog: its oldest unread measurement is
    /// taken and shown; with nothing unread the presenter waits.
    pub open spec fn poll(reader: Subscription, backlogs: Backlogs) -> (Presenter, Backlogs) {
        let slot = reader.slot as int;
        if backlogs.has(slot) && backlogs.queues[slot].len() > 0 {
            (
                Presenter::Showing { reader, measurement: backlogs.queues[slot].first() },
                backlogs.take(slot),
            )
        } else {
            (Presenter::AwaitingMeasurement { reader }, backlogs)
        }
    }

    /// One completion applied to the presenter and to the backlogs it
    /// reads from. A completion out of turn changes neither.
    pub open spec fn step(self, backlogs: Backlogs, completion: Completion) -> (
        Presenter,
        Backlogs,
    ) {
        match (self, completion) {
            (Presenter::Pausing { reader }, Completion::Elapsed) => Self::poll(reader, backlogs),
            (Presenter::AwaitingMeasurement { reader }, Completion::Published) => Self::poll(
                reader,
                backlogs,
            ),
            (Presenter::Showing { reader, .. }, Completion::Shown) => (
                Presenter::Pausing { reader },
                backlogs,
            ),
            _ => (self, backlogs),
        }
    }

    /// Subscribes to `distributor` and returns a presenter that pauses
    /// before its first refresh; nothing where no subscription is left.
    pub fn new(distributor: &mut Distributor) -> (presenter: Option<Presenter>)
        requires
            old(distributor).wf(),
        ensures
            final(distributor).wf(),
            match presenter {
                Some(p) => {
                    &&& old(distributor)@.queues.len() < old(distributor)@.limit
                    &&& p == (Presenter::Pausing {
                        reader: Subscription { slot: old(distributor)@.queues.len() as usize },
                    })
                    &&& final(distributor)@ == old(distributor)@.subscribe()
                },
                None => {
                    &&& old(distributor)@.queues.len() >= old(distributor)@.limit
                    &&& final(distributor)@ == old(distributor)@
                },
            },
    {
        match distributor.subscribe() {
            Some(reader) => Some(Presenter::Pausing { reader }),
            None => None,
        }
    }

    /// The operation that the presenter waits for.
    pub fn pending(&self) -> (action: Action)
        ensures
            action == self.action(),
    {
        match *self {
            Presenter::Pausing { .. } => Action::Wait(REFRESH_MILLIS),
            Presenter::AwaitingMeasurement { .. } => Action::AwaitPublication,
            Presenter::Showing { measurement, .. } => Action::Show(
                Screen { a: None, b: measurement, c: None, d: None },
            ),
        }
    }

    /// Takes the reader's next measurement, if there is one.
    fn look(reader: Subscription, distributor: &mut Distributor) -> (next: Presenter)
        requires
            old(distributor).wf(),
        ensures
            final(distributor).wf(),
            (next, final(distributor)@) == Self::poll(reader, old(distributor)@),
    {
        match distributor.try_next(reader) {
            Some(measurement) => Presenter::Showing { reader, measurement },
            None => Presenter::AwaitingMeasurement { reader },
        }
    }

    /// Reports the completion of the pending operation and returns the
    /// next one. After the pause, and after every publication while it
    /// waits, the presenter takes its next measurement from
    /// `distributor`. A completion out of turn is refused; the presenter
    /// and the distributor stay as they were.
    pub fn complete(&mut self, completion: Completion, distributor: &mut Distributor) -> (result:
        Result<Action, OutOfTurn>)
        requires
            old(distributor).wf(),
        ensures
            final(distributor).wf(),
            (*final(self), final(distributor)@) == old(self).step(old(distributor)@, completion),
            match result {
                Ok(action) => old(self).expects(completion) && action == final(self).action(),
                Err(_) => !old(self).expects(completion),
            },
    {
        match (*self, completion) {
            (Presenter::Pausing { reader }, Completion::Elapsed) => {
                *self = Self::look(reader, distributor);
            },
            (Presenter::AwaitingMeasurement { reader }, Completion::Published) => {
                *self = Self::look(reader, distributor);
            },
            (Presenter::Showing { reader, .. }, Completion::Shown) => {
                *self = Presenter::Pausing { reader };
            },
            _ => {
                return Err(OutOfTurn);
            },
        }
        Ok(self.pending())
    }
}

/// The presenter shows measurements in publish order: what it shows next
/// is always the oldest value it has not shown, and showing it leaves the
/// rest of its backlog, and every other subscriber's, as they were.
pub proof fn lemma_shows_in_publish_order(reader: Subscription, backlogs: Backlogs)
    requires
        backlogs.wf(),
        backlogs.has(reader.slot as int),
        backlogs.queues[reader.slot as int].len() > 0,
    ensures
        ({
            let (next, after) = (Presenter::Pausing { reader }).step(backlogs, Completion::Elapsed);
            &&& next.action() == Action::Show(Screen::of(backlogs.queues[reader.slot as int][0]))
            &&& after.queues[reader.slot as int] == backlogs.queues[reader.slot as int].drop_first()
            &&& forall|other: int|
                backlogs.has(other) && other != reader.slot ==> after.queues[other]
                    == backlogs.queues[other]
        }),
{
}

} // verus!
