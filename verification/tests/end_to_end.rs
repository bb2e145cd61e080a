use thermometer::acquisition::{Acquisition, Completion as Bus};
use thermometer::distributor::Distributor;
use thermometer::link::{
    Action as LinkAction, AssignedAddress, BringUp, Completion as Net, HardwareIdentity,
    LinkState, NetworkStatus,
};
use thermometer::presenter::{Action as Screening, Completion as Drawn, Presenter, Screen};
use thermometer::readout::label;
use thermometer::responder::{Action as Serving, Completion as Socket, Responder};
use thermometer::sensor::{Ds18b20, Temperature};
use thermometer::wire::encode_response;

fn scratchpad() -> [u8; 9] {
    let payload = [0x50, 0x05, 0x4b, 0x46, 0x7f, 0xff, 0x0c, 0x10];
    let mut bytes = [0u8; 9];
    bytes[..8].copy_from_slice(&payload);
    bytes[8] = Ds18b20::crc8(&payload);
    bytes
}

fn bring_link_up() -> LinkState {
    let mut link = BringUp::new();
    let status = NetworkStatus {
        address: Some(AssignedAddress { octets: [192, 168, 4, 2], prefix_len: 24 }),
        link_up: true,
        identity: HardwareIdentity { octets: [0x28, 0xcd, 0xc1, 1, 2, 3] },
    };
    let mut last = link.pending();
    for completion in [
        Net::RadioStarted,
        Net::StackStarted,
        Net::JoinFailed(2),
        Net::Joined,
        Net::Status(NetworkStatus { address: None, ..status }),
        Net::Elapsed,
        Net::Status(status),
    ] {
        last = link.complete(completion).unwrap();
    }
    match last {
        LinkAction::Announce(state) => state,
        other => panic!("not resolved: {:?}", other),
    }
}

fn acquire(cycle: &mut Acquisition, d: &mut Distributor, bytes: [u8; 9]) {
    for completion in [Bus::Written, Bus::Elapsed, Bus::Written, Bus::Scratchpad(bytes), Bus::Elapsed] {
        cycle.complete(completion, d).unwrap();
    }
}

fn serve(responder: &mut Responder, d: &mut Distributor) -> Vec<u8> {
    let payload = match responder.complete(Socket::Published, d).unwrap() {
        Serving::Write(measurement) => encode_response(measurement),
        other => panic!("nothing to write: {:?}", other),
    };
    assert_eq!(responder.complete(Socket::Written, d), Ok(Serving::Flush));
    assert_eq!(responder.complete(Socket::Flushed, d), Ok(Serving::Close));
    assert!(matches!(responder.complete(Socket::Closed, d), Ok(Serving::Accept { .. })));
    payload
}

#[test]
fn client_receives_the_reading_taken_while_it_was_connected() {
    let mut d = Distributor::new();
    let mut cycle = Acquisition::new();
    let mut responder = Responder::new();
    responder.complete(Socket::Link(bring_link_up()), &mut d).unwrap();
    assert_eq!(responder.complete(Socket::Accepted, &mut d), Ok(Serving::AwaitPublication));
    acquire(&mut cycle, &mut d, scratchpad());
    assert_eq!(serve(&mut responder, &mut d), b"{\"temperature\":85.0}".to_vec());
}

#[test]
fn client_receives_null_for_a_corrupted_scratchpad() {
    let mut d = Distributor::new();
    let mut cycle = Acquisition::new();
    let mut responder = Responder::new();
    responder.complete(Socket::Link(bring_link_up()), &mut d).unwrap();
    for byte in 0..8 {
        let mut corrupted = scratchpad();
        corrupted[byte] ^= 0x04;
        assert_eq!(responder.complete(Socket::Accepted, &mut d), Ok(Serving::AwaitPublication));
        acquire(&mut cycle, &mut d, corrupted);
        assert_eq!(serve(&mut responder, &mut d), b"{\"temperature\":null}".to_vec());
    }
}

#[test]
fn display_and_client_see_the_same_readings() {
    let mut d = Distributor::new();
    let mut cycle = Acquisition::new();
    let mut presenter = Presenter::new(&mut d).unwrap();
    let mut responder = Responder::new();
    responder.complete(Socket::Link(bring_link_up()), &mut d).unwrap();
    responder.complete(Socket::Accepted, &mut d).unwrap();
    let mut corrupted = scratchpad();
    corrupted[8] ^= 0x01;
    acquire(&mut cycle, &mut d, scratchpad());
    acquire(&mut cycle, &mut d, corrupted);

    let mut shown = Vec::new();
    for _ in 0..2 {
        match presenter.complete(Drawn::Elapsed, &mut d).unwrap() {
            Screening::Show(Screen { a: None, b, c: None, d: None }) => shown.push(label(b)),
            other => panic!("nothing to show: {:?}", other),
        }
        presenter.complete(Drawn::Shown, &mut d).unwrap();
    }
    assert_eq!(shown, vec!["85.0", "--"]);

    assert_eq!(serve(&mut responder, &mut d), b"{\"temperature\":85.0}".to_vec());
    assert_eq!(responder.complete(Socket::Accepted, &mut d), Ok(Serving::AwaitPublication));
    acquire(&mut cycle, &mut d, corrupted);
    assert_eq!(serve(&mut responder, &mut d), b"{\"temperature\":null}".to_vec());
}

#[test]
fn client_never_receives_a_reading_from_before_it_connected() {
    let mut d = Distributor::new();
    let mut cycle = Acquisition::new();
    let mut responder = Responder::new();
    responder.complete(Socket::Link(bring_link_up()), &mut d).unwrap();
    let mut corrupted = scratchpad();
    corrupted[0] ^= 0x40;
    for _ in 0..6 {
        acquire(&mut cycle, &mut d, corrupted);
    }
    assert_eq!(responder.complete(Socket::Accepted, &mut d), Ok(Serving::AwaitPublication));
    assert_eq!(responder.complete(Socket::Published, &mut d), Ok(Serving::AwaitPublication));
    acquire(&mut cycle, &mut d, scratchpad());
    assert_eq!(serve(&mut responder, &mut d), b"{\"temperature\":85.0}".to_vec());
}

#[test]
fn link_down_means_nobody_is_served() {
    let mut d = Distributor::new();
    let mut cycle = Acquisition::new();
    let mut responder = Responder::new();
    assert_eq!(responder.complete(Socket::Link(LinkState::Down), &mut d), Ok(Serving::Halt));
    acquire(&mut cycle, &mut d, scratchpad());
    assert!(responder.complete(Socket::Accepted, &mut d).is_err());
    assert!(responder.complete(Socket::Published, &mut d).is_err());
}

#[test]
fn reading_survives_the_whole_chain_exactly() {
    let mut d = Distributor::new();
    let mut cycle = Acquisition::new();
    let s = d.subscribe().unwrap();
    let payload = [0x5e, 0xff, 0, 0, 0, 0, 0, 0];
    let mut bytes = [0u8; 9];
    bytes[..8].copy_from_slice(&payload);
    bytes[8] = Ds18b20::crc8(&payload);
    acquire(&mut cycle, &mut d, bytes);
    let measurement = d.try_next(s).unwrap();
    assert_eq!(measurement, Some(Temperature { sixteenths: -162 }));
    assert_eq!(encode_response(measurement), b"{\"temperature\":-10.125}".to_vec());
    assert_eq!(label(measurement).as_str(), "-10.1");
}
