//! Little-endian encoding of 16-bit numbers.

use vstd::prelude::*;

verus! {

/// The two little-endian bytes of a number below `65536`.
pub open spec fn le_bytes(value: nat) -> Seq<u8> {
    seq![(value % 256) as u8, (value / 256) as u8]
}

/// The number that two little-endian bytes stand for.
pub open spec fn le_value(low: u8, high: u8) -> nat {
    (low + 256 * high) as nat
}

/// The bytes of a number, low byte first.
pub fn to_le_bytes(value: u16) -> (bytes: (u8, u8))
    ensures
        seq![bytes.0, bytes.1] == le_bytes(value as nat),
{
    assert(value as u8 == value % 256) by (bit_vector);
    assert((value >> 8) as u8 == value / 256) by (bit_vector);
    (value as u8, (value >> 8) as u8)
}

/// The number that two bytes stand for, low byte first.
pub fn from_le_bytes(low: u8, high: u8) -> (value: u16)
    ensures
        value == le_value(low, high),
{
    let wide_low: u16 = low as u16;
    let wide_high: u16 = high as u16;
    assert((wide_low | (wide_high << 8)) == wide_low + 256 * wide_high) by (bit_vector)
        requires
            wide_low < 256,
            wide_high < 256,
    ;
    wide_low | (wide_high << 8)
}

/// The low byte comes first: the number is the low byte and 256 times the high byte.
pub proof fn law_low_byte_first(value: u16, low: u8, high: u8)
    ensures
        le_bytes(value as nat).len() == 2,
        le_bytes(value as nat)[0] + 256 * le_bytes(value as nat)[1] == value,
        le_value(low, high) == low + 256 * high,
{
}

/// Decoding the two bytes of a number gives the number back.
pub proof fn law_le_round_trip(value: u16)
    ensures
        le_value(le_bytes(value as nat)[0], le_bytes(value as nat)[1]) == value,
{
}

} // verus!
