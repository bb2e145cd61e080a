//! Decimal digits in ASCII, shared by the wire encoding and the readout.

use vstd::prelude::*;

verus! {

/// ASCII `0`.
pub const ZERO: u8 = 0x30;

/// ASCII `-`.
pub const MINUS: u8 = 0x2D;

/// ASCII `.`.
pub const POINT: u8 = 0x2E;

/// The ASCII code of the decimal digit `d`.
pub open spec fn digit(d: int) -> u8 {
    (ZERO + d) as u8
}

/// The decimal numeral of `n`, without leading zeros.
pub open spec fn decimal(n: nat) -> Seq<u8>
    decreases n,
{
    if n < 10 {
        seq![digit(n as int)]
    } else {
        decimal(n / 10).push(digit(n as int % 10))
    }
}

/// A minus sign for a negative number, nothing otherwise.
pub open spec fn sign(v: int) -> Seq<u8> {
    if v < 0 {
        seq![MINUS]
    } else {
        Seq::empty()
    }
}

/// The absolute value.
pub open spec fn magnitude(v: int) -> nat {
    if v < 0 {
        (-v) as nat
    } else {
        v as nat
    }
}

/// A numeral of `n` has one digit for each power of ten up to `n`.
pub proof fn lemma_decimal_len(n: nat)
    ensures
        decimal(n).len() >= 1,
        n < 10 ==> decimal(n).len() == 1,
        n < 100 ==> decimal(n).len() <= 2,
        n < 1000 ==> decimal(n).len() <= 3,
        n < 10000 ==> decimal(n).len() <= 4,
        n < 100000 ==> decimal(n).len() <= 5,
{
    reveal_with_fuel(decimal, 6);
}

/// A numeral consists of digits, at least one.
pub proof fn lemma_decimal_is_digits(n: nat)
    ensures
        decimal(n).len() >= 1,
        n >= 10 ==> decimal(n).len() >= 2,
        forall|i: int| 0 <= i < decimal(n).len() ==> ZERO <= #[trigger] decimal(n)[i] <= ZERO + 9,
    decreases n,
{
    if n >= 10 {
        lemma_decimal_is_digits(n / 10);
    }
}

/// Two numbers with the same numeral are the same number.
pub proof fn lemma_decimal_injective(a: nat, b: nat)
    requires
        decimal(a) == decimal(b),
    ensures
        a == b,
    decreases a,
{
    lemma_decimal_is_digits(a);
    lemma_decimal_is_digits(b);
    if a >= 10 {
        assert(decimal(a).drop_last() =~= decimal(a / 10));
        assert(decimal(b).drop_last() =~= decimal(b / 10));
        assert(decimal(a).last() == digit(a as int % 10));
        assert(decimal(b).last() == digit(b as int % 10));
        lemma_decimal_injective(a / 10, b / 10);
    } else {
        assert(decimal(a)[0] == digit(a as int));
        assert(decimal(b)[0] == digit(b as int));
    }
}

} // verus!
