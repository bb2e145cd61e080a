use thermometer::link::{
    Action, AssignedAddress, BringUp, Completion, HardwareIdentity, LinkState, NetworkStatus,
    CONFIG_POLL_MILLIS,
};
use thermometer::protocol::OutOfTurn;

const ADDRESS: AssignedAddress = AssignedAddress { octets: [192, 168, 1, 23], prefix_len: 24 };
const IDENTITY: HardwareIdentity = HardwareIdentity { octets: [0x28, 0xcd, 0xc1, 0x00, 0x12, 0x34] };

fn status(address: Option<AssignedAddress>, link_up: bool) -> Completion {
    Completion::Status(NetworkStatus { address, link_up, identity: IDENTITY })
}

fn joined() -> BringUp {
    let mut machine = BringUp::new();
    assert_eq!(machine.complete(Completion::RadioStarted), Ok(Action::StartStack));
    assert_eq!(machine.complete(Completion::StackStarted), Ok(Action::Join));
    assert_eq!(machine.complete(Completion::Joined), Ok(Action::QueryStatus));
    machine
}

#[test]
fn bring_up_starts_with_the_radio() {
    let machine = BringUp::new();
    assert_eq!(machine, BringUp::Init);
    assert_eq!(machine.pending(), Action::StartRadio);
    assert!(!machine.is_resolved());
}

#[test]
fn bring_up_reaches_up_with_address_and_link() {
    let mut machine = joined();
    let up = LinkState::Up { address: ADDRESS, identity: IDENTITY };
    assert_eq!(machine.complete(status(Some(ADDRESS), true)), Ok(Action::Announce(up)));
    assert_eq!(machine, BringUp::Up { address: ADDRESS, identity: IDENTITY });
    assert!(machine.is_resolved());
    assert_eq!(machine.pending(), Action::Announce(up));
}

#[test]
fn address_without_link_is_down() {
    let mut machine = joined();
    assert_eq!(
        machine.complete(status(Some(ADDRESS), false)),
        Ok(Action::Announce(LinkState::Down))
    );
    assert_eq!(machine, BringUp::Down);
    assert!(machine.is_resolved());
}

#[test]
fn failed_join_is_tried_again() {
    let mut machine = BringUp::Joining;
    for status in [1u32, 2, 3, u32::MAX, 0] {
        assert_eq!(machine.complete(Completion::JoinFailed(status)), Ok(Action::Join));
        assert_eq!(machine, BringUp::Joining);
    }
    for _ in 0..1000 {
        assert_eq!(machine.complete(Completion::JoinFailed(7)), Ok(Action::Join));
    }
    assert_eq!(machine.complete(Completion::Joined), Ok(Action::QueryStatus));
}

#[test]
fn configuration_is_polled_every_100_ms() {
    assert_eq!(CONFIG_POLL_MILLIS, 100);
    let mut machine = joined();
    for link_up in [false, true, false] {
        assert_eq!(machine.complete(status(None, link_up)), Ok(Action::Wait(100)));
        assert_eq!(machine, BringUp::ConfigWait);
        assert_eq!(machine.complete(Completion::Elapsed), Ok(Action::QueryStatus));
        assert_eq!(machine, BringUp::ConfigQuery);
    }
    assert!(machine.complete(status(Some(ADDRESS), true)).is_ok());
    assert!(machine.is_resolved());
}

#[test]
fn resolved_machine_refuses_everything() {
    let all = [
        Completion::RadioStarted,
        Completion::StackStarted,
        Completion::Joined,
        Completion::JoinFailed(1),
        status(Some(ADDRESS), true),
        status(None, false),
        Completion::Elapsed,
    ];
    for resolved in [BringUp::Down, BringUp::Up { address: ADDRESS, identity: IDENTITY }] {
        for completion in all {
            let mut machine = resolved;
            assert_eq!(machine.complete(completion), Err(OutOfTurn));
            assert_eq!(machine, resolved);
        }
    }
}

#[test]
fn exactly_one_announcement_in_a_long_run() {
    let run = [
        Completion::Elapsed,
        Completion::RadioStarted,
        Completion::RadioStarted,
        Completion::StackStarted,
        Completion::JoinFailed(3),
        Completion::JoinFailed(3),
        Completion::Joined,
        Completion::Joined,
        status(None, true),
        Completion::Elapsed,
        status(Some(ADDRESS), true),
        status(Some(ADDRESS), false),
        Completion::Elapsed,
        Completion::Joined,
    ];
    let mut machine = BringUp::new();
    let mut announced = Vec::new();
    for completion in run {
        if let Ok(Action::Announce(state)) = machine.complete(completion) {
            announced.push(state);
        }
    }
    assert_eq!(announced, vec![LinkState::Up { address: ADDRESS, identity: IDENTITY }]);
}

#[test]
fn unresolved_phases_refuse_what_they_do_not_wait_for() {
    let cases = [
        (BringUp::Init, Completion::Joined),
        (BringUp::Init, Completion::Elapsed),
        (BringUp::RadioUp, Completion::RadioStarted),
        (BringUp::RadioUp, Completion::Joined),
        (BringUp::Joining, Completion::Elapsed),
        (BringUp::Joining, status(Some(ADDRESS), true)),
        (BringUp::ConfigQuery, Completion::Elapsed),
        (BringUp::ConfigQuery, Completion::JoinFailed(1)),
        (BringUp::ConfigWait, status(Some(ADDRESS), true)),
        (BringUp::ConfigWait, Completion::Joined),
    ];
    for (phase, completion) in cases {
        let mut machine = phase;
        assert_eq!(machine.complete(completion), Err(OutOfTurn));
        assert_eq!(machine, phase);
    }
}
