//! The responder's wire format: one JSON object per connection,
//! `{"temperature":<number>}` for a reading and `{"temperature":null}`
//! where there is none, in ASCII and without white space.
//!
//! The number is the temperature in degrees, written exactly: an optional
//! minus sign, the whole degrees, a point, and the fraction with one to
//! four digits (sixteenths never need more) and no trailing zero beyond
//! the first digit. `85.0`, `-0.5`, `21.0625`.

use vstd::prelude::*;
use crate::decimal::{
    decimal, digit, lemma_decimal_injective, lemma_decimal_is_digits, lemma_decimal_len, magnitude,
    sign, MINUS, POINT, ZERO,
};
use crate::sensor::Measurement;

verus! {

/// No response is longer than this many bytes.
pub const MAX_RESPONSE_LEN: usize = 26;

/// `{"temperature":` in ASCII.
pub open spec fn opening() -> Seq<u8> {
    seq![
        0x7Bu8, 0x22, 0x74, 0x65, 0x6D, 0x70, 0x65, 0x72, 0x61, 0x74, 0x75, 0x72, 0x65, 0x22, 0x3A,
    ]
}

/// `null` in ASCII.
pub open spec fn null() -> Seq<u8> {
    seq![0x6Eu8, 0x75, 0x6C, 0x6C]
}

/// `}` in ASCII.
pub open spec fn closing() -> Seq<u8> {
    seq![0x7Du8]
}

/// `digits` without its trailing zeros, but never without its first digit.
pub open spec fn trimmed(digits: Seq<u8>) -> Seq<u8>
    decreases digits.len(),
{
    if digits.len() > 1 && digits.last() == ZERO {
        trimmed(digits.drop_last())
    } else {
        digits
    }
}

/// The digits after the point for `sixteenths` sixteenths of a degree:
/// the four digits of that many times 0.0625, trimmed.
pub open spec fn fraction(sixteenths: nat) -> Seq<u8> {
    let parts = sixteenths * 625;
    trimmed(
        seq![
            digit(parts as int / 1000),
            digit(parts as int / 100 % 10),
            digit(parts as int / 10 % 10),
            digit(parts as int % 10),
        ],
    )
}

/// The JSON number for a temperature of `sixteenths` sixteenths of a degree.
pub open spec fn number_text(sixteenths: int) -> Seq<u8> {
    sign(sixteenths) + decimal(magnitude(sixteenths) / 16).push(POINT) + fraction(
        magnitude(sixteenths) % 16,
    )
}

/// The JSON value for a measurement.
pub open spec fn value_text(measurement: Measurement) -> Seq<u8> {
    match measurement {
        Some(t) => number_text(t.sixteenths as int),
        None => null(),
    }
}

/// The whole response for a measurement.
pub open spec fn response_text(measurement: Measurement) -> Seq<u8> {
    opening() + value_text(measurement) + closing()
}

/// Appends the digit `d`.
fn push_digit(out: &mut Vec<u8>, d: u8)
    requires
        d < 10,
    ensures
        final(out)@ == old(out)@.push(digit(d as int)),
{
    out.push(ZERO + d);
}

/// Appends the decimal numeral of `n`.
fn push_decimal(out: &mut Vec<u8>, n: u16)
    ensures
        final(out)@ == old(out)@ + decimal(n as nat),
    decreases n,
{
    if n >= 10 {
        push_decimal(out, n / 10);
    }
    push_digit(out, (n % 10) as u8);
    assert(out@ =~= old(out)@ + decimal(n as nat));
}

/// Appends a minus sign where `v` is negative, and returns `v`'s absolute
/// value.
fn push_sign(out: &mut Vec<u8>, v: i16) -> (size: u16)
    ensures
        final(out)@ == old(out)@ + sign(v as int),
        size == magnitude(v as int),
{
    if v < 0 {
        out.push(MINUS);
        assert(out@ =~= old(out)@ + sign(v as int));
        (-(v as i32)) as u16
    } else {
        assert(out@ =~= old(out)@ + sign(v as int));
        v as u16
    }
}

/// Appends `bytes`.
fn push_all(out: &mut Vec<u8>, bytes: &[u8])
    ensures
        final(out)@ == old(out)@ + bytes@,
{
    let mut i: usize = 0;
    while i < bytes.len()
        invariant
            i <= bytes.len(),
            out@ == old(out)@ + bytes@.subrange(0, i as int),
        decreases bytes.len() - i,
    {
        out.push(bytes[i]);
        assert(out@ =~= old(out)@ + bytes@.subrange(0, i as int + 1));
        i = i + 1;
    }
    assert(bytes@.subrange(0, i as int) =~= bytes@);
}

/// Appends the digits after the point for `sixteenths` sixteenths.
fn push_fraction(out: &mut Vec<u8>, sixteenths: u16)
    requires
        sixteenths < 16,
    ensures
        final(out)@ == old(out)@ + fraction(sixteenths as nat),
        1 <= fraction(sixteenths as nat).len() <= 4,
{
    let parts: u16 = sixteenths * 625;
    let d3: u8 = (parts / 1000) as u8;
    let d2: u8 = (parts / 100 % 10) as u8;
    let d1: u8 = (parts / 10 % 10) as u8;
    let d0: u8 = (parts % 10) as u8;
    proof {
        lemma_trimmed_four(digit(d3 as int), digit(d2 as int), digit(d1 as int), digit(d0 as int));
    }
    push_digit(out, d3);
    if d0 != 0 {
        push_digit(out, d2);
        push_digit(out, d1);
        push_digit(out, d0);
    } else if d1 != 0 {
        push_digit(out, d2);
        push_digit(out, d1);
    } else if d2 != 0 {
        push_digit(out, d2);
    }
    assert(out@ =~= old(out)@ + fraction(sixteenths as nat));
}

/// Serializes a measurement for the wire.
pub fn encode_response(measurement: Measurement) -> (bytes: Vec<u8>)
    ensures
        bytes@ == response_text(measurement),
        bytes@.len() <= MAX_RESPONSE_LEN,
{
    let mut out: Vec<u8> = Vec::new();
    let opening_bytes: [u8; 15] = [
        0x7B, 0x22, 0x74, 0x65, 0x6D, 0x70, 0x65, 0x72, 0x61, 0x74, 0x75, 0x72, 0x65, 0x22, 0x3A,
    ];
    push_all(&mut out, opening_bytes.as_slice());
    assert(out@ =~= opening());
    match measurement {
        Some(t) => {
            let size: u16 = push_sign(&mut out, t.sixteenths);
            push_decimal(&mut out, size / 16);
            out.push(POINT);
            push_fraction(&mut out, size % 16);
            proof {
                lemma_decimal_len(size as nat / 16);
                assert(out@ =~= opening() + number_text(t.sixteenths as int));
            }
        },
        None => {
            let null_bytes: [u8; 4] = [0x6E, 0x75, 0x6C, 0x6C];
            push_all(&mut out, null_bytes.as_slice());
            assert(out@ =~= opening() + null());
        },
    }
    out.push(0x7D);
    assert(out@ =~= response_text(measurement));
    out
}

/// The ten-thousandths that the digits after a point stand for.
spec fn parts_of(digits: Seq<u8>) -> int {
    (if digits.len() > 0 {
        (digits[0] - ZERO) * 1000
    } else {
        0
    }) + (if digits.len() > 1 {
        (digits[1] - ZERO) * 100
    } else {
        0
    }) + (if digits.len() > 2 {
        (digits[2] - ZERO) * 10
    } else {
        0
    }) + (if digits.len() > 3 {
        digits[3] - ZERO
    } else {
        0
    })
}

/// What `trimmed` leaves of four digits.
proof fn lemma_trimmed_four(d3: u8, d2: u8, d1: u8, d0: u8)
    ensures
        trimmed(seq![d3, d2, d1, d0]) == if d0 != ZERO {
            seq![d3, d2, d1, d0]
        } else if d1 != ZERO {
            seq![d3, d2, d1]
        } else if d2 != ZERO {
            seq![d3, d2]
        } else {
            seq![d3]
        },
{
    reveal_with_fuel(trimmed, 4);
    assert(seq![d3, d2, d1, d0].drop_last() =~= seq![d3, d2, d1]);
    assert(seq![d3, d2, d1].drop_last() =~= seq![d3, d2]);
    assert(seq![d3, d2].drop_last() =~= seq![d3]);
}

/// The digits after the point stand for the sixteenths they were made of.
proof fn lemma_fraction_value(sixteenths: nat)
    requires
        sixteenths < 16,
    ensures
        parts_of(fraction(sixteenths)) == sixteenths * 625,
        1 <= fraction(sixteenths).len() <= 4,
{
    if sixteenths == 0 {
        lemma_trimmed_four(digit(0), digit(0), digit(0), digit(0));
    } else if sixteenths == 1 {
        lemma_trimmed_four(digit(0), digit(6), digit(2), digit(5));
    } else if sixteenths == 2 {
        lemma_trimmed_four(digit(1), digit(2), digit(5), digit(0));
    } else if sixteenths == 3 {
        lemma_trimmed_four(digit(1), digit(8), digit(7), digit(5));
    } else if sixteenths == 4 {
        lemma_trimmed_four(digit(2), digit(5), digit(0), digit(0));
    } else if sixteenths == 5 {
        lemma_trimmed_four(digit(3), digit(1), digit(2), digit(5));
    } else if sixteenths == 6 {
        lemma_trimmed_four(digit(3), digit(7), digit(5), digit(0));
    } else if sixteenths == 7 {
        lemma_trimmed_four(digit(4), digit(3), digit(7), digit(5));
    } else if sixteenths == 8 {
        lemma_trimmed_four(digit(5), digit(0), digit(0), digit(0));
    } else if sixteenths == 9 {
        lemma_trimmed_four(digit(5), digit(6), digit(2), digit(5));
    } else if sixteenths == 10 {
        lemma_trimmed_four(digit(6), digit(2), digit(5), digit(0));
    } else if sixteenths == 11 {
        lemma_trimmed_four(digit(6), digit(8), digit(7), digit(5));
    } else if sixteenths == 12 {
        lemma_trimmed_four(digit(7), digit(5), digit(0), digit(0));
    } else if sixteenths == 13 {
        lemma_trimmed_four(digit(8), digit(1), digit(2), digit(5));
    } else if sixteenths == 14 {
        lemma_trimmed_four(digit(8), digit(7), digit(5), digit(0));
    } else {
        lemma_trimmed_four(digit(9), digit(3), digit(7), digit(5));
    }
}

/// Two temperatures with the same JSON number are the same temperature.
pub proof fn lemma_number_determines_temperature(a: int, b: int)
    requires
        number_text(a) == number_text(b),
    ensures
        a == b,
{
    let (whole_a, whole_b) = (magnitude(a) / 16, magnitude(b) / 16);
    let (rest_a, rest_b) = (magnitude(a) % 16, magnitude(b) % 16);
    let (digits_a, digits_b) = (decimal(whole_a), decimal(whole_b));
    let tail_a = digits_a.push(POINT) + fraction(rest_a);
    let tail_b = digits_b.push(POINT) + fraction(rest_b);
    lemma_decimal_is_digits(whole_a);
    lemma_decimal_is_digits(whole_b);
    lemma_fraction_value(rest_a);
    lemma_fraction_value(rest_b);
    assert(number_text(a)[0] == if a < 0 {
        MINUS
    } else {
        digits_a[0]
    });
    assert(number_text(b)[0] == if b < 0 {
        MINUS
    } else {
        digits_b[0]
    });
    assert((a < 0) == (b < 0));
    assert(tail_a =~= number_text(a).subrange(sign(a).len() as int, number_text(a).len() as int));
    assert(tail_b =~= number_text(b).subrange(sign(b).len() as int, number_text(b).len() as int));
    assert(tail_a == tail_b);
    let (len_a, len_b) = (digits_a.len() as int, digits_b.len() as int);
    assert(tail_a[len_a] == POINT);
    assert(tail_b[len_b] == POINT);
    if len_a < len_b {
        assert(tail_b[len_a] == digits_b[len_a]);
    }
    if len_b < len_a {
        assert(tail_a[len_b] == digits_a[len_b]);
    }
    assert(digits_a =~= tail_a.subrange(0, len_a));
    assert(digits_b =~= tail_b.subrange(0, len_b));
    lemma_decimal_injective(whole_a, whole_b);
    assert(fraction(rest_a) =~= tail_a.subrange(len_a + 1, tail_a.len() as int));
    assert(fraction(rest_b) =~= tail_b.subrange(len_b + 1, tail_b.len() as int));
    assert(rest_a * 625 == rest_b * 625);
}

/// Nothing is lost on the wire: two measurements with the same response
/// are the same measurement, to the sixteenth of a degree.
pub proof fn lemma_response_determines_measurement(a: Measurement, b: Measurement)
    requires
        response_text(a) == response_text(b),
    ensures
        a == b,
{
    let start = opening().len() as int;
    assert(value_text(a) =~= response_text(a).subrange(start, response_text(a).len() - 1));
    assert(value_text(b) =~= response_text(b).subrange(start, response_text(b).len() - 1));
    assert(value_text(a) == value_text(b));
    match (a, b) {
        (Some(x), Some(y)) => {
            lemma_number_determines_temperature(x.sixteenths as int, y.sixteenths as int);
        },
        (Some(x), None) => {
            lemma_decimal_is_digits(magnitude(x.sixteenths as int) / 16);
            assert(number_text(x.sixteenths as int)[0] != null()[0]);
        },
        (None, Some(y)) => {
            lemma_decimal_is_digits(magnitude(y.sixteenths as int) / 16);
            assert(number_text(y.sixteenths as int)[0] != null()[0]);
        },
        (None, None) => {},
    }
}

} // verus!
