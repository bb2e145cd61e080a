use serde::ser::SerializeStruct;
use thermometer::sensor::Temperature;
use thermometer::wire::{encode_response, MAX_RESPONSE_LEN};

/// The record as a float-based serializer would be given it.
struct Message {
    temperature: Option<f32>,
}

impl serde::Serialize for Message {
    fn serialize<S: serde::Serializer>(&self, serializer: S) -> Result<S::Ok, S::Error> {
        let mut record = serializer.serialize_struct("Message", 1)?;
        record.serialize_field("temperature", &self.temperature)?;
        record.end()
    }
}

fn json_of(temperature: Option<f32>) -> Vec<u8> {
    let mut buffer = [0u8; 512];
    let len = serde_json_core::to_slice(&Message { temperature }, &mut buffer[..]).unwrap();
    buffer[..len].to_vec()
}

#[test]
fn response_for_a_reading() {
    let bytes = encode_response(Some(Temperature { sixteenths: 1360 }));
    assert_eq!(bytes, b"{\"temperature\":85.0}".to_vec());
}

#[test]
fn response_for_no_reading() {
    assert_eq!(encode_response(None), b"{\"temperature\":null}".to_vec());
}

#[test]
fn response_fractions_are_exact() {
    let cases: [(i16, &str); 8] = [
        (0, "0.0"),
        (1, "0.0625"),
        (-1, "-0.0625"),
        (-8, "-0.5"),
        (337, "21.0625"),
        (404, "25.25"),
        (32767, "2047.9375"),
        (-32768, "-2048.0"),
    ];
    for (sixteenths, number) in cases {
        let expected = format!("{{\"temperature\":{}}}", number);
        assert_eq!(encode_response(Some(Temperature { sixteenths })), expected.into_bytes());
    }
}

#[test]
fn response_never_exceeds_its_bound() {
    for sixteenths in i16::MIN..=i16::MAX {
        assert!(encode_response(Some(Temperature { sixteenths })).len() <= MAX_RESPONSE_LEN);
    }
    assert_eq!(encode_response(Some(Temperature { sixteenths: -32767 })).len(), MAX_RESPONSE_LEN);
}

#[test]
fn response_matches_json_serializer_for_every_reading() {
    assert_eq!(encode_response(None), json_of(None));
    for sixteenths in i16::MIN..=i16::MAX {
        let degrees = sixteenths as f32 / 16.0;
        assert_eq!(
            encode_response(Some(Temperature { sixteenths })),
            json_of(Some(degrees)),
            "at {} sixteenths",
            sixteenths
        );
    }
}
