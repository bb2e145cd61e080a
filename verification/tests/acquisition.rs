use thermometer::acquisition::{Acquisition, Action, Completion, REST_MILLIS, SETTLE_MILLIS};
use thermometer::distributor::{Distributor, Subscription};
use thermometer::protocol::OutOfTurn;
use thermometer::sensor::{Ds18b20, Measurement, Temperature};

const GOOD: [u8; 9] = [0x50, 0x05, 0x4b, 0x46, 0x7f, 0xff, 0x0c, 0x10, 0x1c];

fn channel() -> (Distributor, Subscription) {
    let mut d = Distributor::new();
    let s = d.subscribe().unwrap();
    (d, s)
}

fn one_cycle(cycle: &mut Acquisition, d: &mut Distributor, scratchpad: [u8; 9]) {
    assert_eq!(cycle.pending(), Action::Write([0xCC, 0x44]));
    assert_eq!(cycle.complete(Completion::Written, d), Ok(Action::Wait(1000)));
    assert_eq!(cycle.complete(Completion::Elapsed, d), Ok(Action::Write([0xCC, 0xBE])));
    assert_eq!(cycle.complete(Completion::Written, d), Ok(Action::ReadScratchpad));
    assert_eq!(cycle.complete(Completion::Scratchpad(scratchpad), d), Ok(Action::Wait(1000)));
    assert_eq!(cycle.complete(Completion::Elapsed, d), Ok(Action::Write([0xCC, 0x44])));
}

#[test]
fn cycle_starts_by_triggering() {
    let cycle = Acquisition::new();
    assert_eq!(cycle, Acquisition::Triggering);
    assert_eq!(cycle.pending(), Action::Write(Ds18b20::start()));
}

#[test]
fn settle_and_rest_take_a_second_each() {
    assert_eq!(SETTLE_MILLIS, 1000);
    assert_eq!(REST_MILLIS, 1000);
    assert_eq!(Acquisition::Settling.pending(), Action::Wait(SETTLE_MILLIS));
    assert_eq!(Acquisition::Resting.pending(), Action::Wait(REST_MILLIS));
}

#[test]
fn cycle_goes_round_its_five_phases() {
    let (mut d, _) = channel();
    let mut cycle = Acquisition::new();
    let mut phases = Vec::new();
    for completion in [
        Completion::Written,
        Completion::Elapsed,
        Completion::Written,
        Completion::Scratchpad(GOOD),
        Completion::Elapsed,
    ] {
        cycle.complete(completion, &mut d).unwrap();
        phases.push(cycle);
    }
    assert_eq!(
        phases,
        vec![
            Acquisition::Settling,
            Acquisition::Requesting,
            Acquisition::Reading,
            Acquisition::Resting,
            Acquisition::Triggering,
        ]
    );
}

#[test]
fn good_scratchpad_is_published_as_its_temperature() {
    let (mut d, s) = channel();
    let mut cycle = Acquisition::new();
    one_cycle(&mut cycle, &mut d, GOOD);
    assert_eq!(d.try_next(s), Some(Some(Temperature { sixteenths: 1360 })));
    assert_eq!(d.try_next(s), None);
}

#[test]
fn nothing_is_published_before_the_read() {
    let (mut d, s) = channel();
    let mut cycle = Acquisition::new();
    cycle.complete(Completion::Written, &mut d).unwrap();
    cycle.complete(Completion::Elapsed, &mut d).unwrap();
    cycle.complete(Completion::Written, &mut d).unwrap();
    assert_eq!(d.pending(s), 0);
    cycle.complete(Completion::Scratchpad(GOOD), &mut d).unwrap();
    assert_eq!(d.pending(s), 1);
    cycle.complete(Completion::Elapsed, &mut d).unwrap();
    assert_eq!(d.pending(s), 1);
}

#[test]
fn bad_scratchpad_is_published_as_missing_and_the_cycle_goes_on() {
    let (mut d, s) = channel();
    let mut cycle = Acquisition::new();
    let mut bad = GOOD;
    bad[2] ^= 0x01;
    one_cycle(&mut cycle, &mut d, bad);
    assert_eq!(cycle, Acquisition::Triggering);
    one_cycle(&mut cycle, &mut d, GOOD);
    let expected: Vec<Measurement> = vec![None, Some(Temperature { sixteenths: 1360 })];
    assert_eq!(vec![d.try_next(s).unwrap(), d.try_next(s).unwrap()], expected);
}

#[test]
fn every_cycle_publishes_exactly_once() {
    let mut d = Distributor::new();
    let s = d.subscribe().unwrap();
    let mut cycle = Acquisition::new();
    for n in 1..=10usize {
        let mut scratchpad = GOOD;
        if n % 3 == 0 {
            scratchpad[8] ^= 0x80;
        }
        one_cycle(&mut cycle, &mut d, scratchpad);
        assert_eq!(d.pending(s), 1);
        assert_eq!(d.try_next(s).unwrap().is_none(), n % 3 == 0);
        assert_eq!(d.try_next(s), None);
    }
}

#[test]
fn completion_out_of_turn_changes_nothing() {
    let (mut d, s) = channel();
    let all = [Completion::Written, Completion::Scratchpad(GOOD), Completion::Elapsed];
    let phases = [
        (Acquisition::Triggering, 0),
        (Acquisition::Settling, 2),
        (Acquisition::Requesting, 0),
        (Acquisition::Reading, 1),
        (Acquisition::Resting, 2),
    ];
    for (phase, wanted) in phases {
        for (i, completion) in all.iter().enumerate() {
            if i != wanted {
                let mut cycle = phase;
                assert_eq!(cycle.complete(*completion, &mut d), Err(OutOfTurn));
                assert_eq!(cycle, phase);
                assert_eq!(d.pending(s), 0);
            }
        }
    }
}

#[test]
fn only_a_scratchpad_read_in_turn_publishes() {
    let all = [Completion::Written, Completion::Scratchpad(GOOD), Completion::Elapsed];
    for phase in [
        Acquisition::Triggering,
        Acquisition::Settling,
        Acquisition::Requesting,
        Acquisition::Reading,
        Acquisition::Resting,
    ] {
        for completion in all {
            let expected =
                phase == Acquisition::Reading && matches!(completion, Completion::Scratchpad(_));
            assert_eq!(phase.publishes(&completion), expected);
        }
    }
}
