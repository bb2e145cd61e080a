//! What the display shows for a measurement: the temperature to one
//! decimal, or a placeholder where there is no reading.
//!
//! The text is built in a `heapless::String`, so that drawing it needs no
//! allocation. Verus does not look into that type: what a label holds is
//! named by `label_bytes`, and the two calls into `heapless` that fill one
//! are believed to do what their contracts below say.

use vstd::prelude::*;
use crate::decimal::{decimal, digit, lemma_decimal_len, magnitude, sign, MINUS, POINT, ZERO};
use crate::sensor::Measurement;

verus! {

/// No label is longer than this many bytes.
pub const MAX_LABEL_LEN: usize = 7;

/// `heapless::String`, a string of fixed capacity. Verus takes it as
/// opaque.
#[verifier::external_type_specification]
#[verifier::external_body]
pub struct ExString<const N: usize>(heapless::String<N>);

/// A label: ASCII text of up to `MAX_LABEL_LEN` bytes.
pub type Label = heapless::String<7>;

/// The bytes of a label, as `heapless::String::as_bytes` returns them.
pub uninterp spec fn label_bytes(text: heapless::String<7>) -> Seq<u8>;

/// `heapless::String::new`: a string without content.
#[verifier::external_body]
fn blank() -> (text: Label)
    ensures
        label_bytes(text) == Seq::<u8>::empty(),
{
    heapless::String::new()
}

/// `heapless::String::push` with an ASCII character. A string with room
/// for one more byte takes the character as that byte, at its end; a
/// string that is full stays as it is. The result says which.
#[verifier::external_body]
fn push_ascii(text: &mut Label, byte: u8) -> (pushed: bool)
    requires
        byte < 128,
    ensures
        pushed <==> label_bytes(*old(text)).len() < 7,
        label_bytes(*final(text)) == if pushed {
            label_bytes(*old(text)).push(byte)
        } else {
            label_bytes(*old(text))
        },
{
    text.push(byte as char).is_ok()
}

/// `size` sixteenths in tenths, rounded to the nearest tenth; a value
/// half way between two tenths goes to the even one.
pub open spec fn tenths(size: nat) -> nat {
    let below = size * 10 / 16;
    let rest = size * 10 % 16;
    if rest > 8 || (rest == 8 && below % 2 == 1) {
        below + 1
    } else {
        below
    }
}

/// The placeholder for a missing reading: `--`.
pub open spec fn placeholder() -> Seq<u8> {
    seq![MINUS, MINUS]
}

/// The label for a measurement, in ASCII.
pub open spec fn label_text(measurement: Measurement) -> Seq<u8> {
    match measurement {
        Some(t) => {
            let rounded = tenths(magnitude(t.sixteenths as int));
            sign(t.sixteenths as int) + decimal(rounded / 10).push(POINT).push(
                digit(rounded as int % 10),
            )
        },
        None => placeholder(),
    }
}

/// Appends one byte to a label that has room for it.
fn put(text: &mut Label, byte: u8)
    requires
        byte < 128,
        label_bytes(*old(text)).len() < 7,
    ensures
        label_bytes(*final(text)) == label_bytes(*old(text)).push(byte),
{
    let pushed: bool = push_ascii(text, byte);
    assert(pushed);
}

/// Appends the decimal numeral of `n` to a label that has room for it.
fn put_decimal(text: &mut Label, n: u16)
    requires
        label_bytes(*old(text)).len() + decimal(n as nat).len() <= 7,
    ensures
        label_bytes(*final(text)) == label_bytes(*old(text)) + decimal(n as nat),
    decreases n,
{
    if n >= 10 {
        put_decimal(text, n / 10);
    }
    put(text, ZERO + (n % 10) as u8);
    assert(label_bytes(*text) =~= label_bytes(*old(text)) + decimal(n as nat));
}

/// Renders a measurement for the display: `--` for a missing reading,
/// otherwise the degrees with one decimal, rounded to the nearest tenth.
pub fn label(measurement: Measurement) -> (text: Label)
    ensures
        label_bytes(text) == label_text(measurement),
        label_bytes(text).len() <= MAX_LABEL_LEN,
{
    let mut text: Label = blank();
    match measurement {
        Some(t) => {
            let size: u16 = if t.sixteenths < 0 {
                put(&mut text, MINUS);
                (-(t.sixteenths as i32)) as u16
            } else {
                t.sixteenths as u16
            };
            assert(label_bytes(text) =~= sign(t.sixteenths as int));
            let scaled: u32 = size as u32 * 10;
            let below: u32 = scaled / 16;
            let rest: u32 = scaled % 16;
            let rounded: u32 = if rest > 8 || (rest == 8 && below % 2 == 1) {
                below + 1
            } else {
                below
            };
            proof {
                lemma_decimal_len(rounded as nat / 10);
            }
            put_decimal(&mut text, (rounded / 10) as u16);
            put(&mut text, POINT);
            put(&mut text, ZERO + (rounded % 10) as u8);
            assert(label_bytes(text) =~= label_text(measurement));
        },
        None => {
            put(&mut text, MINUS);
            put(&mut text, MINUS);
            assert(label_bytes(text) =~= placeholder());
        },
    }
    text
}

} // verus!
