//! DS18B20 one-wire protocol: bus commands, the CRC-8 integrity check and
//! the decoding of a scratchpad into a temperature.
//!
//! Nothing here touches the bus. The caller writes the command bytes this
//! module hands out, reads the scratchpad back, and passes the bytes in.

use vstd::prelude::*;

verus! {

/// Addresses the only device on the bus without sending its ROM code.
pub const SKIP_ROM: u8 = 0xCC;

/// Starts a temperature conversion.
pub const CONVERT_T: u8 = 0x44;

/// Asks the device to send its scratchpad.
pub const READ_SCRATCHPAD: u8 = 0xBE;

/// Number of bytes in a scratchpad: eight of payload and one checksum.
pub const SCRATCHPAD_LEN: usize = 9;

/// One shift of the CRC register for the lowest bit of `data`, with the
/// reflected Dallas/Maxim polynomial `0x8C`.
pub open spec fn crc8_shift(crc: u8, data: u8) -> u8 {
    if (crc ^ data) & 0x01 != 0 {
        (crc >> 1) ^ 0x8C
    } else {
        crc >> 1
    }
}

/// The register after the lowest `bits` bits of `data` went in, lowest first.
pub open spec fn crc8_bits(crc: u8, data: u8, bits: nat) -> u8
    decreases bits,
{
    if bits == 0 {
        crc
    } else {
        crc8_bits(crc8_shift(crc, data), data >> 1, (bits - 1) as nat)
    }
}

/// The register after one whole byte went in.
pub open spec fn crc8_byte(crc: u8, data: u8) -> u8 {
    crc8_bits(crc, data, 8)
}

/// The CRC-8 of a byte sequence: the register starts at zero and takes the
/// bytes in order.
pub open spec fn crc8_of(data: Seq<u8>) -> u8
    decreases data.len(),
{
    if data.len() == 0 {
        0
    } else {
        crc8_byte(crc8_of(data.drop_last()), data.last())
    }
}

/// The signed sixteenths of a degree that the first two scratchpad bytes
/// hold, low byte first, in two's complement.
pub open spec fn raw_reading(low: u8, high: u8) -> int {
    let unsigned = high as int * 256 + low as int;
    if unsigned >= 32768 {
        unsigned - 65536
    } else {
        unsigned
    }
}

/// What a scratchpad stands for: its temperature where the checksum holds,
/// nothing where it does not.
pub open spec fn reading_of(scratchpad: Seq<u8>) -> Option<Temperature>
    recommends
        scratchpad.len() >= 2,
{
    if crc8_of(scratchpad) == 0 {
        Some(Temperature { sixteenths: raw_reading(scratchpad[0], scratchpad[1]) as i16 })
    } else {
        None
    }
}

/// A temperature in sixteenths of a degree Celsius, the sensor's own unit.
#[derive(Clone, Copy, Debug, PartialEq, Eq, Structural)]
pub struct Temperature {
    pub sixteenths: i16,
}

/// One acquisition's outcome: a temperature, or nothing where the read failed.
pub type Measurement = Option<Temperature>;

/// The scratchpad's checksum did not come out as zero.
#[derive(Clone, Copy, Debug, PartialEq, Eq, Structural)]
pub struct CrcError {
    /// What the register held after all nine bytes.
    pub residue: u8,
}

impl Temperature {
    /// The temperature held by the two leading scratchpad bytes.
    pub fn from_le_bytes(low: u8, high: u8) -> (t: Temperature)
        ensures
            t.sixteenths == raw_reading(low, high),
    {
        let upper: i16 = if high >= 128 {
            high as i16 - 256
        } else {
            high as i16
        };
        Temperature { sixteenths: upper * 256 + low as i16 }
    }

    /// Whole degrees, rounded towards negative infinity.
    pub fn whole_degrees(&self) -> (d: i16)
        ensures
            d == self.sixteenths as int / 16,
    {
        let shifted: i32 = self.sixteenths as i32 + 32768;
        let floor: i32 = shifted / 16 - 2048;
        floor as i16
    }

    /// The sixteenths of a degree above `whole_degrees`.
    pub fn fraction_sixteenths(&self) -> (f: u8)
        ensures
            f == self.sixteenths as int % 16,
    {
        let shifted: i32 = self.sixteenths as i32 + 32768;
        let f: i32 = shifted % 16;
        f as u8
    }
}

/// The DS18B20's side of the conversation, for a bus with this one device.
pub struct Ds18b20;

impl Ds18b20 {
    /// The bytes that start a conversion. The result may be read once the
    /// sensor's settling time has passed.
    pub fn start() -> (command: [u8; 2])
        ensures
            command@ == seq![SKIP_ROM, CONVERT_T],
    {
        let command: [u8; 2] = [SKIP_ROM, CONVERT_T];
        assert(command@ =~= seq![SKIP_ROM, CONVERT_T]);
        command
    }

    /// The bytes that ask for the scratchpad; `SCRATCHPAD_LEN` bytes are to
    /// be read after them.
    pub fn request() -> (command: [u8; 2])
        ensures
            command@ == seq![SKIP_ROM, READ_SCRATCHPAD],
    {
        let command: [u8; 2] = [SKIP_ROM, READ_SCRATCHPAD];
        assert(command@ =~= seq![SKIP_ROM, READ_SCRATCHPAD]);
        command
    }

    /// CRC-8 of `data`, Dallas/Maxim variant: register zero at the start,
    /// each byte taken lowest bit first.
    pub fn crc8(data: &[u8]) -> (crc: u8)
        ensures
            crc == crc8_of(data@),
    {
        let mut crc: u8 = 0;
        let mut i: usize = 0;
        while i < data.len()
            invariant
                i <= data.len(),
                crc == crc8_of(data@.subrange(0, i as int)),
            decreases data.len() - i,
        {
            let byte: u8 = data[i];
            let ghost before: u8 = crc;
            let mut data_byte: u8 = byte;
            let mut bit: u8 = 0;
            while bit < 8
                invariant
                    bit <= 8,
                    crc8_bits(crc, data_byte, (8 - bit) as nat) == crc8_byte(before, byte),
                decreases 8 - bit,
            {
                let mix: u8 = (crc ^ data_byte) & 0x01;
                crc = crc >> 1;
                if mix != 0 {
                    crc = crc ^ 0x8C;
                }
                data_byte = data_byte >> 1;
                bit = bit + 1;
            }
            proof {
                let taken = data@.subrange(0, i as int + 1);
                assert(taken.drop_last() =~= data@.subrange(0, i as int));
                assert(taken.last() == byte);
            }
            i = i + 1;
        }
        assert(data@.subrange(0, i as int) =~= data@);
        crc
    }

    /// Checks a scratchpad and decodes it. The temperature comes back
    /// exactly when the CRC-8 over all nine bytes is zero; otherwise the
    /// error carries what the register held.
    pub fn temperature(scratchpad: &[u8; 9]) -> (result: Result<Temperature, CrcError>)
        ensures
            match result {
                Ok(t) => reading_of(scratchpad@) == Some(t),
                Err(e) => reading_of(scratchpad@) is None && e.residue == crc8_of(scratchpad@),
            },
    {
        let residue: u8 = Self::crc8(scratchpad.as_slice());
        if residue == 0 {
            Ok(Temperature::from_le_bytes(scratchpad[0], scratchpad[1]))
        } else {
            Err(CrcError { residue })
        }
    }
}

/// The eight shifts of `crc8_byte`, written out.
spec fn crc8_byte_unrolled(crc: u8, data: u8) -> u8 {
    let c1 = crc8_shift(crc, data);
    let c2 = crc8_shift(c1, data >> 1);
    let c3 = crc8_shift(c2, data >> 2);
    let c4 = crc8_shift(c3, data >> 3);
    let c5 = crc8_shift(c4, data >> 4);
    let c6 = crc8_shift(c5, data >> 5);
    let c7 = crc8_shift(c6, data >> 6);
    crc8_shift(c7, data >> 7)
}

proof fn lemma_crc8_byte_unrolled(crc: u8, data: u8)
    ensures
        crc8_byte(crc, data) == crc8_byte_unrolled(crc, data),
{
    reveal_with_fuel(crc8_bits, 9);
    assert((data >> 1) >> 1 == data >> 2) by (bit_vector);
    assert((data >> 2) >> 1 == data >> 3) by (bit_vector);
    assert((data >> 3) >> 1 == data >> 4) by (bit_vector);
    assert((data >> 4) >> 1 == data >> 5) by (bit_vector);
    assert((data >> 5) >> 1 == data >> 6) by (bit_vector);
    assert((data >> 6) >> 1 == data >> 7) by (bit_vector);
}

/// A byte equal to the register clears it.
proof fn lemma_crc8_byte_cancels(crc: u8)
    ensures
        crc8_byte(crc, crc) == 0,
{
    lemma_crc8_byte_unrolled(crc, crc);
    assert(crc8_byte_unrolled(crc, crc) == 0) by (bit_vector);
}

/// Two different bytes leave one register in two different states, and one
/// byte leaves two different registers in two different states.
proof fn lemma_crc8_byte_injective(c1: u8, d1: u8, c2: u8, d2: u8)
    requires
        (c1 == c2 && d1 != d2) || (c1 != c2 && d1 == d2),
    ensures
        crc8_byte(c1, d1) != crc8_byte(c2, d2),
{
    lemma_crc8_byte_unrolled(c1, d1);
    lemma_crc8_byte_unrolled(c2, d2);
    assert(d1 != d2 ==> crc8_byte_unrolled(c1, d1) != crc8_byte_unrolled(c1, d2)) by (bit_vector);
    assert(c1 != c2 ==> crc8_byte_unrolled(c1, d1) != crc8_byte_unrolled(c2, d1)) by (bit_vector);
}

/// A payload followed by its own CRC-8 has CRC-8 zero.
pub proof fn lemma_crc8_of_checked_payload(payload: Seq<u8>)
    ensures
        crc8_of(payload.push(crc8_of(payload))) == 0,
{
    let framed = payload.push(crc8_of(payload));
    assert(framed.drop_last() =~= payload);
    lemma_crc8_byte_cancels(crc8_of(payload));
}

/// Changing one byte of a sequence, in any way, changes its CRC-8.
pub proof fn lemma_crc8_detects_changed_byte(data: Seq<u8>, at: int, value: u8)
    requires
        0 <= at < data.len(),
        value != data[at],
    ensures
        crc8_of(data.update(at, value)) != crc8_of(data),
    decreases data.len(),
{
    let changed = data.update(at, value);
    if at == data.len() - 1 {
        assert(changed.drop_last() =~= data.drop_last());
        lemma_crc8_byte_injective(
            crc8_of(data.drop_last()),
            value,
            crc8_of(data.drop_last()),
            data.last(),
        );
    } else {
        assert(changed.drop_last() =~= data.drop_last().update(at, value));
        lemma_crc8_detects_changed_byte(data.drop_last(), at, value);
        lemma_crc8_byte_injective(
            crc8_of(changed.drop_last()),
            data.last(),
            crc8_of(data.drop_last()),
            data.last(),
        );
    }
}

/// Flipping any single bit of a sequence changes its CRC-8. A scratchpad
/// that passed the check therefore fails it after any one-bit corruption,
/// in the payload or in the checksum byte.
pub proof fn lemma_crc8_detects_flipped_bit(data: Seq<u8>, at: int, bit: u8)
    requires
        0 <= at < data.len(),
        bit < 8,
    ensures
        crc8_of(data.update(at, data[at] ^ (1u8 << bit))) != crc8_of(data),
{
    let byte = data[at];
    assert(bit < 8 ==> byte ^ (1u8 << bit) != byte) by (bit_vector);
    lemma_crc8_detects_changed_byte(data, at, byte ^ (1u8 << bit));
}

} // verus!
