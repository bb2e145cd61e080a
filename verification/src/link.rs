//! Link bring-up: radio, network stack, join with retry, wait for an
//! address, and one announcement of how it ended.
//!
//! The machine resolves once, to `Up` or to `Down`, and announces that
//! once. A join that fails is tried again, without limit. Nothing leads
//! out of a resolved machine: a link that is lost later is not noticed.

use vstd::prelude::*;
use crate::protocol::OutOfTurn;

verus! {

/// The pause between two queries for the address configuration, in
/// milliseconds.
pub const CONFIG_POLL_MILLIS: u64 = 100;

/// The IPv4 address that the network assigned, with its prefix length.
#[derive(Clone, Copy, Debug, PartialEq, Eq)]
pub struct AssignedAddress {
    pub octets: [u8; 4],
    pub prefix_len: u8,
}

/// The link-layer address of the radio.
#[derive(Clone, Copy, Debug, PartialEq, Eq)]
pub struct HardwareIdentity {
    pub octets: [u8; 6],
}

/// How link bring-up ended.
#[derive(Clone, Copy, Debug, PartialEq, Eq)]
pub enum LinkState {
    /// The network is joined, an address is configured and the link is up.
    Up { address: AssignedAddress, identity: HardwareIdentity },
    /// An address was configured, but the link is not up.
    Down,
}

/// What the network stack reports when queried.
#[derive(Clone, Copy, Debug, PartialEq, Eq)]
pub struct NetworkStatus {
    /// The configured address, once there is one.
    pub address: Option<AssignedAddress>,
    /// Whether the link layer is connected.
    pub link_up: bool,
    /// The radio's link-layer address.
    pub identity: HardwareIdentity,
}

/// What the caller is to do next.
#[derive(Clone, Copy, Debug, PartialEq, Eq)]
pub enum Action {
    /// Power the radio, load its firmware and calibration data, and set
    /// its power-management policy.
    StartRadio,
    /// Start the network stack, asking for an address by DHCP.
    StartStack,
    /// Try to join the configured network.
    Join,
    /// Ask the network stack for its status.
    QueryStatus,
    /// Let this many milliseconds pass.
    Wait(u64),
    /// Hand this result to whoever waits for the link. This is the last
    /// operation: the machine is resolved.
    Announce(LinkState),
}

/// What the caller reports back.
#[derive(Clone, Copy, Debug, PartialEq, Eq)]
pub enum Completion {
    /// The radio is running.
    RadioStarted,
    /// The network stack is running.
    StackStarted,
    /// The network accepted the join.
    Joined,
    /// The network refused the join, with this status code.
    JoinFailed(u32),
    /// The network stack's answer to a query.
    Status(NetworkStatus),
    /// The time has passed.
    Elapsed,
}

/// Link bring-up, named by the operation it waits for.
#[derive(Clone, Copy, Debug, PartialEq, Eq)]
pub enum BringUp {
    /// The radio is being started.
    Init,
    /// The radio runs; the network stack is being started.
    RadioUp,
    /// A join is under way.
    Joining,
    /// Joined; the status is being queried for an address.
    ConfigQuery,
    /// Joined and still without an address; pausing before the next query.
    ConfigWait,
    /// Resolved: the link is up.
    Up { address: AssignedAddress, identity: HardwareIdentity },
    /// Resolved: the link is down.
    Down,
}

impl BringUp {
    /// Whether the machine is in one of its two final states.
    pub open spec fn resolved(self) -> bool {
        self is Up || self is Down
    }

    /// The result that a resolved machine announces.
    pub open spec fn outcome(self) -> LinkState {
        match self {
            BringUp::Up { address, identity } => LinkState::Up { address, identity },
            _ => LinkState::Down,
        }
    }

    /// The operation that this phase waits for.
    pub open spec fn action(self) -> Action {
        match self {
            BringUp::Init => Action::StartRadio,
            BringUp::RadioUp => Action::StartStack,
            BringUp::Joining => Action::Join,
            BringUp::ConfigQuery => Action::QueryStatus,
            BringUp::ConfigWait => Action::Wait(CONFIG_POLL_MILLIS),
            BringUp::Up { .. } | BringUp::Down => Action::Announce(self.outcome()),
        }
    }

    /// Whether `completion` ends that operation. A resolved machine waits
    /// for nothing.
    pub open spec fn expects(self, completion: Completion) -> bool {
        match self {
            BringUp::Init => completion is RadioStarted,
            BringUp::RadioUp => completion is StackStarted,
            BringUp::Joining => completion is Joined || completion is JoinFailed,
            BringUp::ConfigQuery => completion is Status,
            BringUp::ConfigWait => completion is Elapsed,
            BringUp::Up { .. } | BringUp::Down => false,
        }
    }

    /// What a status decides once the network is joined: without an
    /// address, wait and ask again; with an address, the link is up if the
    /// link layer says so and down if not.
    pub open spec fn decide(status: NetworkStatus) -> BringUp {
        match status.address {
            None => BringUp::ConfigWait,
            Some(address) => if status.link_up {
                BringUp::Up { address, identity: status.identity }
            } else {
                BringUp::Down
            },
        }
    }

    /// The phase after `completion`. A completion out of turn changes
    /// nothing.
    pub open spec fn step(self, completion: Completion) -> BringUp {
        match (self, completion) {
            (BringUp::Init, Completion::RadioStarted) => BringUp::RadioUp,
            (BringUp::RadioUp, Completion::StackStarted) => BringUp::Joining,
            (BringUp::Joining, Completion::Joined) => BringUp::ConfigQuery,
            (BringUp::Joining, Completion::JoinFailed(_)) => BringUp::Joining,
            (BringUp::ConfigQuery, Completion::Status(status)) => Self::decide(status),
            (BringUp::ConfigWait, Completion::Elapsed) => BringUp::ConfigQuery,
            _ => self,
        }
    }

    /// The phase after a run of completions.
    pub open spec fn phase_after(self, completions: Seq<Completion>) -> BringUp
        decreases completions.len(),
    {
        if completions.len() == 0 {
            self
        } else {
            self.phase_after(completions.drop_last()).step(completions.last())
        }
    }

    /// The results announced in the course of a run: one for each
    /// completion that was in turn and left the machine resolved.
    pub open spec fn announced(self, completions: Seq<Completion>) -> Seq<LinkState>
        decreases completions.len(),
    {
        if completions.len() == 0 {
            Seq::empty()
        } else {
            let earlier = self.announced(completions.drop_last());
            let phase = self.phase_after(completions.drop_last());
            if phase.expects(completions.last()) && phase.step(completions.last()).resolved() {
                earlier.push(phase.step(completions.last()).outcome())
            } else {
                earlier
            }
        }
    }

    /// Bring-up at its start.
    pub fn new() -> (machine: BringUp)
        ensures
            machine == BringUp::Init,
    {
        BringUp::Init
    }

    /// Whether the machine has reached `Up` or `Down`.
    pub fn is_resolved(&self) -> (resolved: bool)
        ensures
            resolved == self.resolved(),
    {
        match self {
            BringUp::Up { .. } | BringUp::Down => true,
            _ => false,
        }
    }

    /// The operation that the machine waits for; for a resolved machine,
    /// the announcement that ended it.
    pub fn pending(&self) -> (action: Action)
        ensures
            action == self.action(),
    {
        match *self {
            BringUp::Init => Action::StartRadio,
            BringUp::RadioUp => Action::StartStack,
            BringUp::Joining => Action::Join,
            BringUp::ConfigQuery => Action::QueryStatus,
            BringUp::ConfigWait => Action::Wait(CONFIG_POLL_MILLIS),
            BringUp::Up { address, identity } => Action::Announce(
                LinkState::Up { address, identity },
            ),
            BringUp::Down => Action::Announce(LinkState::Down),
        }
    }

    /// Reports the completion of the pending operation and returns the
    /// next one. A completion out of turn is refused and changes nothing;
    /// a resolved machine refuses them all, so that it announces once.
    pub fn complete(&mut self, completion: Completion) -> (result: Result<Action, OutOfTurn>)
        ensures
            *final(self) == old(self).step(completion),
            match result {
                Ok(action) => old(self).expects(completion) && action == final(self).action(),
                Err(_) => !old(self).expects(completion),
            },
    {
        match (*self, completion) {
            (BringUp::Init, Completion::RadioStarted) => {
                *self = BringUp::RadioUp;
            },
            (BringUp::RadioUp, Completion::StackStarted) => {
                *self = BringUp::Joining;
            },
            (BringUp::Joining, Completion::Joined) => {
                *self = BringUp::ConfigQuery;
            },
            (BringUp::Joining, Completion::JoinFailed(_)) => {},
            (BringUp::ConfigQuery, Completion::Status(status)) => {
                *self = match status.address {
                    None => BringUp::ConfigWait,
                    Some(address) => if status.link_up {
                        BringUp::Up { address, identity: status.identity }
                    } else {
                        BringUp::Down
                    },
                };
            },
            (BringUp::ConfigWait, Completion::Elapsed) => {
                *self = BringUp::ConfigQuery;
            },
            _ => {
                return Err(OutOfTurn);
            },
        }
        Ok(self.pending())
    }
}

/// Nothing leads out of a resolved machine.
pub proof fn lemma_resolved_is_final(start: BringUp, completions: Seq<Completion>)
    requires
        start.resolved(),
    ensures
        start.phase_after(completions) == start,
        start.announced(completions).len() == 0,
    decreases completions.len(),
{
    if completions.len() > 0 {
        lemma_resolved_is_final(start, completions.drop_last());
    }
}

/// One announcement per lifetime: a run from an unresolved machine
/// announces nothing while the machine is unresolved, and exactly once,
/// with the machine's outcome, when it has resolved.
pub proof fn lemma_announces_once(start: BringUp, completions: Seq<Completion>)
    requires
        !start.resolved(),
    ensures
        !start.phase_after(completions).resolved() ==> start.announced(completions).len() == 0,
        start.phase_after(completions).resolved() ==> start.announced(completions) == seq![
            start.phase_after(completions).outcome(),
        ],
    decreases completions.len(),
{
    if completions.len() > 0 {
        let earlier = completions.drop_last();
        lemma_announces_once(start, earlier);
        let phase = start.phase_after(earlier);
        if !phase.resolved() && phase.step(completions.last()).resolved() {
            assert(start.announced(completions) =~= seq![start.phase_after(completions).outcome()]);
        }
    }
}

/// A refused join is tried again: however many joins fail in a row, the
/// machine is still joining, and has announced nothing.
pub proof fn lemma_join_retries_without_limit(failures: Seq<Completion>)
    requires
        forall|i: int| 0 <= i < failures.len() ==> failures[i] is JoinFailed,
    ensures
        BringUp::Joining.phase_after(failures) == BringUp::Joining,
        BringUp::Joining.announced(failures).len() == 0,
    decreases failures.len(),
{
    if failures.len() > 0 {
        lemma_join_retries_without_limit(failures.drop_last());
    }
}

/// The link is announced as up only on a status that has both an address
/// and a connected link layer, and then with that address and identity.
pub proof fn lemma_up_needs_address_and_link(status: NetworkStatus)
    ensures
        BringUp::decide(status) is Up <==> status.address is Some && status.link_up,
        BringUp::decide(status) is Down <==> status.address is Some && !status.link_up,
        BringUp::decide(status) is Up ==> BringUp::decide(status).outcome() == (LinkState::Up {
            address: status.address->0,
            identity: status.identity,
        }),
{
}

} // verus!
