//! The acquisition cycle: trigger a conversion, let the sensor settle,
//! read the scratchpad, publish what it holds, rest, and start over.
//!
//! Every cycle publishes exactly once. A scratchpad that fails its
//! checksum is published as a missing reading, and the cycle goes on.

use vstd::prelude::*;
use crate::distributor::{Backlogs, Distributor};
use crate::protocol::OutOfTurn;
use crate::sensor::{reading_of, Ds18b20, Measurement, CONVERT_T, READ_SCRATCHPAD, SKIP_ROM};

verus! {

/// How long the sensor is given to finish a conversion, in milliseconds.
pub const SETTLE_MILLIS: u64 = 1000;

/// How long the cycle rests after publishing, in milliseconds.
pub const REST_MILLIS: u64 = 1000;

/// What the caller is to do next.
#[derive(Clone, Copy, Debug, PartialEq, Eq)]
pub enum Action {
    /// Write these bytes to the bus.
    Write([u8; 2]),
    /// Read a scratchpad from the bus.
    ReadScratchpad,
    /// Let this many milliseconds pass.
    Wait(u64),
}

/// What the caller reports back.
#[derive(Clone, Copy, Debug, PartialEq, Eq)]
pub enum Completion {
    /// The bytes were written.
    Written,
    /// These bytes were read.
    Scratchpad([u8; 9]),
    /// The time has passed.
    Elapsed,
}

/// The cycle, named by the operation it waits for.
#[derive(Clone, Copy, Debug, PartialEq, Eq, Structural)]
pub enum Acquisition {
    /// The start-conversion command is being written.
    Triggering,
    /// The sensor is converting.
    Settling,
    /// The read-scratchpad command is being written.
    Requesting,
    /// The scratchpad is being read.
    Reading,
    /// The reading was published; the cycle rests.
    Resting,
}

impl Acquisition {
    /// The operation that this phase waits for.
    pub open spec fn action(self) -> Action {
        match self {
            Acquisition::Triggering => Action::Write([SKIP_ROM, CONVERT_T]),
            Acquisition::Settling => Action::Wait(SETTLE_MILLIS),
            Acquisition::Requesting => Action::Write([SKIP_ROM, READ_SCRATCHPAD]),
            Acquisition::Reading => Action::ReadScratchpad,
            Acquisition::Resting => Action::Wait(REST_MILLIS),
        }
    }

    /// Whether `completion` is the completion of that operation.
    pub open spec fn expects(self, completion: Completion) -> bool {
        match self {
            Acquisition::Triggering | Acquisition::Requesting => completion is Written,
            Acquisition::Settling | Acquisition::Resting => completion is Elapsed,
            Acquisition::Reading => completion is Scratchpad,
        }
    }

    /// The phase that follows this one.
    pub open spec fn successor(self) -> Acquisition {
        match self {
            Acquisition::Triggering => Acquisition::Settling,
            Acquisition::Settling => Acquisition::Requesting,
            Acquisition::Requesting => Acquisition::Reading,
            Acquisition::Reading => Acquisition::Resting,
            Acquisition::Resting => Acquisition::Triggering,
        }
    }

    /// What the phase publishes when `completion` ends it: the reading
    /// that a scratchpad stands for, and nothing in any other case.
    pub open spec fn published(self, completion: Completion) -> Option<Measurement> {
        match (self, completion) {
            (Acquisition::Reading, Completion::Scratchpad(bytes)) => Some(reading_of(bytes@)),
            _ => None,
        }
    }

    /// One completion applied to the cycle and to the backlogs that it
    /// publishes to. A completion out of turn changes neither.
    pub open spec fn step(self, backlogs: Backlogs, completion: Completion) -> (
        Acquisition,
        Backlogs,
    ) {
        if self.expects(completion) {
            (
                self.successor(),
                match self.published(completion) {
                    Some(value) => backlogs.publish(value),
                    None => backlogs,
                },
            )
        } else {
            (self, backlogs)
        }
    }

    /// A run of completions applied in order.
    pub open spec fn run(self, backlogs: Backlogs, completions: Seq<Completion>) -> (
        Acquisition,
        Backlogs,
    )
        decreases completions.len(),
    {
        if completions.len() == 0 {
            (self, backlogs)
        } else {
            let (phase, middle) = self.run(backlogs, completions.drop_last());
            phase.step(middle, completions.last())
        }
    }

    /// The values that a run publishes, in order.
    pub open spec fn publications(self, completions: Seq<Completion>) -> Seq<Measurement>
        decreases completions.len(),
    {
        if completions.len() == 0 {
            Seq::empty()
        } else {
            let earlier = self.publications(completions.drop_last());
            let phase = self.phase_after(completions.drop_last());
            if phase.expects(completions.last()) {
                match phase.published(completions.last()) {
                    Some(value) => earlier.push(value),
                    None => earlier,
                }
            } else {
                earlier
            }
        }
    }

    /// The phase that a run ends in.
    pub open spec fn phase_after(self, completions: Seq<Completion>) -> Acquisition
        decreases completions.len(),
    {
        if completions.len() == 0 {
            self
        } else {
            let phase = self.phase_after(completions.drop_last());
            if phase.expects(completions.last()) {
                phase.successor()
            } else {
                phase
            }
        }
    }

    /// How many of a run's completions were in turn.
    pub open spec fn progress(self, completions: Seq<Completion>) -> nat
        decreases completions.len(),
    {
        if completions.len() == 0 {
            0
        } else {
            let phase = self.phase_after(completions.drop_last());
            let earlier = self.progress(completions.drop_last());
            if phase.expects(completions.last()) {
                earlier + 1
            } else {
                earlier
            }
        }
    }

    /// How many phases lie between `Triggering` and this one.
    pub open spec fn position(self) -> nat {
        match self {
            Acquisition::Triggering => 0,
            Acquisition::Settling => 1,
            Acquisition::Requesting => 2,
            Acquisition::Reading => 3,
            Acquisition::Resting => 4,
        }
    }

    /// A cycle about to trigger its first conversion.
    pub fn new() -> (cycle: Acquisition)
        ensures
            cycle == Acquisition::Triggering,
    {
        Acquisition::Triggering
    }

    /// The operation that the cycle waits for.
    pub fn pending(&self) -> (action: Action)
        ensures
            action == self.action(),
    {
        match self {
            Acquisition::Triggering => {
                let command: [u8; 2] = Ds18b20::start();
                assert(command =~= [SKIP_ROM, CONVERT_T]);
                Action::Write(command)
            },
            Acquisition::Settling => Action::Wait(SETTLE_MILLIS),
            Acquisition::Requesting => {
                let command: [u8; 2] = Ds18b20::request();
                assert(command =~= [SKIP_ROM, READ_SCRATCHPAD]);
                Action::Write(command)
            },
            Acquisition::Reading => Action::ReadScratchpad,
            Acquisition::Resting => Action::Wait(REST_MILLIS),
        }
    }

    /// Whether `completion`, reported now, makes the cycle publish.
    pub fn publishes(&self, completion: &Completion) -> (publishes: bool)
        ensures
            publishes == (self.expects(*completion) && self.published(*completion) is Some),
    {
        match (*self, *completion) {
            (Acquisition::Reading, Completion::Scratchpad(_)) => true,
            _ => false,
        }
    }

    /// Reports the completion of the pending operation and returns the
    /// next one. Where the completion is a scratchpad that was waited for,
    /// its reading is published to `distributor`: the temperature where the
    /// checksum holds, a missing reading where it does not. A completion
    /// out of turn is refused; the cycle and the distributor stay as they
    /// were.
    pub fn complete(&mut self, completion: Completion, distributor: &mut Distributor) -> (result:
        Result<Action, OutOfTurn>)
        requires
            old(distributor).wf(),
        ensures
            final(distributor).wf(),
            (*final(self), final(distributor)@) == old(self).step(old(distributor)@, completion),
            match result {
                Ok(action) => old(self).expects(completion) && action == final(self).action(),
                Err(_) => !old(self).expects(completion),
            },
    {
        match (*self, completion) {
            (Acquisition::Triggering, Completion::Written) => {
                *self = Acquisition::Settling;
            },
            (Acquisition::Settling, Completion::Elapsed) => {
                *self = Acquisition::Requesting;
            },
            (Acquisition::Requesting, Completion::Written) => {
                *self = Acquisition::Reading;
            },
            (Acquisition::Reading, Completion::Scratchpad(bytes)) => {
                let reading: Measurement = match Ds18b20::temperature(&bytes) {
                    Ok(t) => Some(t),
                    Err(_) => None,
                };
                distributor.publish(reading);
                *self = Acquisition::Resting;
            },
            (Acquisition::Resting, Completion::Elapsed) => {
                *self = Acquisition::Triggering;
            },
            _ => {
                return Err(OutOfTurn);
            },
        }
        Ok(self.pending())
    }
}

/// A run leaves the cycle in `phase_after` and the backlogs with the run's
/// `publications` published in order.
pub proof fn lemma_run_publishes(
    start: Acquisition,
    backlogs: Backlogs,
    completions: Seq<Completion>,
)
    ensures
        start.run(backlogs, completions) == (
            start.phase_after(completions),
            backlogs.publish_all(start.publications(completions)),
        ),
    decreases completions.len(),
{
    if completions.len() > 0 {
        let earlier = completions.drop_last();
        lemma_run_publishes(start, backlogs, earlier);
        let phase = start.phase_after(earlier);
        let values = start.publications(earlier);
        if phase.expects(completions.last()) {
            match phase.published(completions.last()) {
                Some(value) => {
                    assert(values.push(value).drop_last() =~= values);
                },
                None => {},
            }
        }
    }
}

/// Where a run stands and how much it has published, from nothing but
/// the number of its completions that were in turn: each of them moves the
/// cycle one phase on round its five phases, and the run has published
/// once for every time it left the reading phase.
pub proof fn lemma_progress_counts_publications(start: Acquisition, completions: Seq<Completion>)
    ensures
        start.phase_after(completions).position() == (start.position() + start.progress(
            completions,
        )) % 5,
        start.publications(completions).len() == (start.position() + start.progress(completions)
            + 1) / 5 - (start.position() + 1) / 5,
    decreases completions.len(),
{
    if completions.len() > 0 {
        lemma_progress_counts_publications(start, completions.drop_last());
    }
}

/// One publication per cycle, always: a run that takes the cycle once
/// round, from any phase back to that phase, publishes exactly one value,
/// whether the scratchpad it read was sound or not.
pub proof fn lemma_one_publication_per_cycle(start: Acquisition, completions: Seq<Completion>)
    requires
        start.progress(completions) == 5,
    ensures
        start.phase_after(completions) == start,
        start.publications(completions).len() == 1,
{
    lemma_progress_counts_publications(start, completions);
}

/// A read failure does not stop the cycle: a scratchpad with a bad
/// checksum, read in turn, is published as a missing reading and the cycle
/// rests as after any other read.
pub proof fn lemma_bad_checksum_is_published_as_missing(backlogs: Backlogs, scratchpad: [u8; 9])
    requires
        reading_of(scratchpad@) is None,
    ensures
        Acquisition::Reading.step(backlogs, Completion::Scratchpad(scratchpad)) == (
            Acquisition::Resting,
            backlogs.publish(None),
        ),
{
}

} // verus!
