use thermometer::sensor::{
    CrcError, Ds18b20, Temperature, CONVERT_T, READ_SCRATCHPAD, SCRATCHPAD_LEN, SKIP_ROM,
};

const POWER_ON_PAYLOAD: [u8; 8] = [0x50, 0x05, 0x4b, 0x46, 0x7f, 0xff, 0x0c, 0x10];

fn framed(payload: [u8; 8]) -> [u8; 9] {
    let mut scratchpad = [0u8; 9];
    scratchpad[..8].copy_from_slice(&payload);
    scratchpad[8] = Ds18b20::crc8(&payload);
    scratchpad
}

fn degrees(t: Temperature) -> f32 {
    t.sixteenths as f32 / 16.0
}

#[test]
fn commands_address_the_single_device() {
    assert_eq!(Ds18b20::start(), [0xCC, 0x44]);
    assert_eq!(Ds18b20::request(), [0xCC, 0xBE]);
    assert_eq!((SKIP_ROM, CONVERT_T, READ_SCRATCHPAD), (0xCC, 0x44, 0xBE));
    assert_eq!(SCRATCHPAD_LEN, 9);
}

#[test]
fn crc8_of_nothing_is_zero() {
    assert_eq!(Ds18b20::crc8(&[]), 0);
}

#[test]
fn crc8_check_value() {
    assert_eq!(Ds18b20::crc8(b"123456789"), 0xA1);
}

#[test]
fn crc8_of_single_bytes() {
    assert_eq!(Ds18b20::crc8(&[0x00]), 0x00);
    assert_eq!(Ds18b20::crc8(&[0x01]), 0x5E);
    assert_eq!(Ds18b20::crc8(&[0x80]), 0x8C);
}

#[test]
fn crc8_of_power_on_scratchpad() {
    assert_eq!(Ds18b20::crc8(&POWER_ON_PAYLOAD), 0x1C);
}

#[test]
fn crc8_of_payload_with_its_checksum_is_zero() {
    let payloads: [[u8; 8]; 4] = [
        POWER_ON_PAYLOAD,
        [0; 8],
        [0xff; 8],
        [0x91, 0x01, 0x4b, 0x46, 0x7f, 0xff, 0x0f, 0x10],
    ];
    for payload in payloads {
        assert_eq!(Ds18b20::crc8(&framed(payload)), 0);
    }
}

#[test]
fn crc8_detects_every_single_bit_flip() {
    let good = framed(POWER_ON_PAYLOAD);
    for byte in 0..9 {
        for bit in 0..8 {
            let mut bad = good;
            bad[byte] ^= 1 << bit;
            assert_ne!(Ds18b20::crc8(&bad), 0, "byte {} bit {}", byte, bit);
        }
    }
}

#[test]
fn crc8_detects_every_change_of_one_byte() {
    let good = framed(POWER_ON_PAYLOAD);
    for byte in 0..9 {
        for value in 0..=255u8 {
            if value != good[byte] {
                let mut bad = good;
                bad[byte] = value;
                assert_ne!(Ds18b20::crc8(&bad), 0);
            }
        }
    }
}

#[test]
fn power_on_scratchpad_decodes_to_85_degrees() {
    let t = Ds18b20::temperature(&framed(POWER_ON_PAYLOAD)).unwrap();
    assert_eq!(t.sixteenths, 5 * 256 + 0x50);
    assert_eq!(degrees(t), 85.0);
    assert_eq!((t.whole_degrees(), t.fraction_sixteenths()), (85, 0));
}

#[test]
fn temperature_is_little_endian_and_signed() {
    let cases: [(u8, u8, f32); 10] = [
        (0xD0, 0x07, 125.0),
        (0x50, 0x05, 85.0),
        (0x91, 0x01, 25.0625),
        (0xA2, 0x00, 10.125),
        (0x08, 0x00, 0.5),
        (0x00, 0x00, 0.0),
        (0xF8, 0xFF, -0.5),
        (0x5E, 0xFF, -10.125),
        (0x6F, 0xFE, -25.0625),
        (0x90, 0xFC, -55.0),
    ];
    for (low, high, expected) in cases {
        assert_eq!(degrees(Temperature::from_le_bytes(low, high)), expected);
    }
    assert_eq!(Temperature::from_le_bytes(0x00, 0x80).sixteenths, i16::MIN);
    assert_eq!(Temperature::from_le_bytes(0xFF, 0x7F).sixteenths, i16::MAX);
}

#[test]
fn temperature_uses_only_the_first_two_bytes() {
    let a = Ds18b20::temperature(&framed([0x91, 0x01, 0, 0, 0, 0, 0, 0])).unwrap();
    let b = Ds18b20::temperature(&framed([0x91, 0x01, 9, 8, 7, 6, 5, 4])).unwrap();
    assert_eq!(a, b);
    assert_eq!(a, Temperature { sixteenths: 0x0191 });
}

#[test]
fn whole_degrees_round_down() {
    let t = Temperature { sixteenths: -162 };
    assert_eq!((t.whole_degrees(), t.fraction_sixteenths()), (-11, 14));
    let t = Temperature { sixteenths: 401 };
    assert_eq!((t.whole_degrees(), t.fraction_sixteenths()), (25, 1));
    let t = Temperature { sixteenths: i16::MIN };
    assert_eq!((t.whole_degrees(), t.fraction_sixteenths()), (-2048, 0));
}

#[test]
fn corrupted_scratchpad_is_an_integrity_error() {
    let mut bad = framed(POWER_ON_PAYLOAD);
    bad[3] ^= 0x10;
    let residue = Ds18b20::crc8(&bad);
    assert_ne!(residue, 0);
    assert_eq!(Ds18b20::temperature(&bad), Err(CrcError { residue }));
}

#[test]
fn all_ones_scratchpad_is_rejected() {
    assert_eq!(Ds18b20::temperature(&[0xff; 9]), Err(CrcError { residue: Ds18b20::crc8(&[0xff; 9]) }));
}

#[test]
fn all_zero_scratchpad_passes_the_check() {
    assert_eq!(Ds18b20::temperature(&[0; 9]), Ok(Temperature { sixteenths: 0 }));
}
