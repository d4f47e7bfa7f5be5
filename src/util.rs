//! Bit positions inside a byte.
use vstd::prelude::*;

verus! {

/// A bit position inside a byte; `Zero` is the least significant bit.
#[derive(Debug, Clone, Copy, PartialEq, Eq, Structural)]
pub enum Bit {
    Zero,
    One,
    Two,
    Three,
    Four,
    Five,
    Six,
    Seven,
}

/// The most significant bit of a byte.
pub const MOST_SIG: Bit = Bit::Seven;

/// The index of a bit position, from 0 to 7.
pub open spec fn bit_index(b: Bit) -> u8 {
    match b {
        Bit::Zero => 0,
        Bit::One => 1,
        Bit::Two => 2,
        Bit::Three => 3,
        Bit::Four => 4,
        Bit::Five => 5,
        Bit::Six => 6,
        Bit::Seven => 7,
    }
}

impl From<Bit> for u8 {
    fn from(b: Bit) -> u8 {
        match b {
            Bit::Zero => 0,
            Bit::One => 1,
            Bit::Two => 2,
            Bit::Three => 3,
            Bit::Four => 4,
            Bit::Five => 5,
            Bit::Six => 6,
            Bit::Seven => 7,
        }
    }
}

impl vstd::std_specs::convert::FromSpecImpl<Bit> for u8 {
    open spec fn obeys_from_spec() -> bool {
        true
    }

    open spec fn from_spec(v: Bit) -> u8 {
        bit_index(v)
    }
}

/// Gets the bit of `byte` at position `bit`.
pub fn get_bit(byte: u8, bit: Bit) -> (r: bool)
    ensures
        r == ((byte >> bit_index(bit)) & 1u8 == 1u8),
{
    let i = u8::from(bit);
    assert(((byte >> i) & 1u8 != 0u8) == ((byte >> i) & 1u8 == 1u8)) by (bit_vector);
    ((byte >> i) & 1) != 0
}

/// The most significant bit of a byte is set exactly from 128 up.
pub proof fn lemma_most_sig(byte: u8)
    ensures
        ((byte >> bit_index(MOST_SIG)) & 1u8 == 1u8) == (byte >= 128),
{
    assert(((byte >> 7u8) & 1u8 == 1u8) == (byte >= 128u8)) by (bit_vector);
}

} // verus!
