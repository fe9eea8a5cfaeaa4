//! Page markers: how a marker is told apart from erased flash.

use vstd::prelude::*;

verus! {

/// The biggest wordsize we support.
///
/// Stm32 internal flash has 256-bit words, so 32 bytes.
/// Many flashes have 4-byte or 1-byte words.
pub const MAX_WORD_SIZE: usize = 32;

/// The marker being used for page states.
pub const MARKER: u8 = 0;

/// What an erased byte reads as.
pub const ERASED: u8 = 0xFF;

/// We only care about the data in the first byte to aid shutdown/cancellation.
/// But we also don't want it to be too definitive because we want to survive the occasional bitflip.
/// So only half of the byte needs to be zero.
pub const MARKER_SET_BITS: u32 = 4;

/// One where the bit is zero, else nothing.
pub open spec fn zero_bit(value: u8, bit: u8) -> nat {
    if (value >> bit) & 1 == 0 {
        1
    } else {
        0
    }
}

/// How many of a byte's bits are zero.
pub open spec fn zero_bits(value: u8) -> nat {
    zero_bit(value, 0) + zero_bit(value, 1) + zero_bit(value, 2) + zero_bit(value, 3) + zero_bit(
        value,
        4,
    ) + zero_bit(value, 5) + zero_bit(value, 6) + zero_bit(value, 7)
}

/// A byte that reads as a written marker.
pub open spec fn is_marker_byte(value: u8) -> bool {
    zero_bits(value) >= MARKER_SET_BITS
}

/// A flash word that reads as a written marker: its first byte does, whatever stands behind it.
pub open spec fn is_marker_word(word: Seq<u8>) -> bool {
    word.len() > 0 && is_marker_byte(word[0])
}

/// Bytes that are all erased.
pub open spec fn is_erased(bytes: Seq<u8>) -> bool {
    forall|i: int| 0 <= i < bytes.len() ==> bytes[i] == ERASED
}

/// Bytes that all hold the marker.
pub open spec fn marker_bytes(len: nat) -> Seq<u8> {
    Seq::new(len, |i: int| MARKER)
}

/// Count the zero bits of a byte.
fn count_zeros(value: u8) -> (count: u32)
    ensures
        count == zero_bits(value),
{
    let mut count: u32 = 0;
    if (value >> 0) & 1 == 0 {
        count = count + 1;
    }
    if (value >> 1) & 1 == 0 {
        count = count + 1;
    }
    if (value >> 2) & 1 == 0 {
        count = count + 1;
    }
    if (value >> 3) & 1 == 0 {
        count = count + 1;
    }
    if (value >> 4) & 1 == 0 {
        count = count + 1;
    }
    if (value >> 5) & 1 == 0 {
        count = count + 1;
    }
    if (value >> 6) & 1 == 0 {
        count = count + 1;
    }
    if (value >> 7) & 1 == 0 {
        count = count + 1;
    }
    count
}

/// Whether a byte reads as a written marker.
pub fn marker_byte_is_set(value: u8) -> (set: bool)
    ensures
        set == is_marker_byte(value),
{
    count_zeros(value) >= MARKER_SET_BITS
}

/// Whether a flash word, as read from the place of a marker, reads as a written marker.
pub fn marker_is_set(word: &[u8]) -> (set: bool)
    requires
        word@.len() <= MAX_WORD_SIZE,
    ensures
        set == (word@.len() > 0 && is_marker_byte(word@[0])),
{
    word.len() > 0 && marker_byte_is_set(word[0])
}

/// Whether all the bytes of `bytes[from..to]` are erased.
pub fn range_is_erased(bytes: &[u8], from: usize, to: usize) -> (erased: bool)
    requires
        from <= to <= bytes@.len(),
    ensures
        erased == is_erased(bytes@.subrange(from as int, to as int)),
{
    let mut i: usize = from;
    while i < to
        invariant
            from <= i <= to <= bytes@.len(),
            forall|j: int| from <= j < i ==> bytes@[j] == ERASED,
        decreases to - i,
    {
        if bytes[i] != ERASED {
            assert(bytes@.subrange(from as int, to as int)[i - from] != ERASED);
            return false;
        }
        i = i + 1;
    }
    true
}

/// All bits of a marker are zero, and none of an erased byte.
pub proof fn lemma_zero_bits_of_marker_and_erased()
    ensures
        zero_bits(MARKER) == 8,
        zero_bits(ERASED) == 0,
{
    assert((0u8 >> 0) & 1 == 0 && (0u8 >> 1) & 1 == 0 && (0u8 >> 2) & 1 == 0 && (0u8 >> 3) & 1 == 0
        && (0u8 >> 4) & 1 == 0 && (0u8 >> 5) & 1 == 0 && (0u8 >> 6) & 1 == 0 && (0u8 >> 7) & 1 == 0)
        by (bit_vector);
    assert((0xFFu8 >> 0) & 1 == 1 && (0xFFu8 >> 1) & 1 == 1 && (0xFFu8 >> 2) & 1 == 1 && (0xFFu8
        >> 3) & 1 == 1 && (0xFFu8 >> 4) & 1 == 1 && (0xFFu8 >> 5) & 1 == 1 && (0xFFu8 >> 6) & 1 == 1
        && (0xFFu8 >> 7) & 1 == 1) by (bit_vector);
}

/// An erased word never reads as a marker, whatever its size.
pub proof fn law_erased_word_is_not_marker(word: Seq<u8>)
    requires
        is_erased(word),
    ensures
        !is_marker_word(word),
{
    lemma_zero_bits_of_marker_and_erased();
}

/// A word whose first byte is a written marker reads as a marker, whatever the other bytes are: a
/// write that was cut short behind its first byte still counts.
pub proof fn law_word_with_marker_byte_is_marker(word: Seq<u8>)
    requires
        word.len() > 0,
        is_marker_byte(word[0]),
    ensures
        is_marker_word(word),
{
}

/// A word survives bit flips as its first byte does. With up to four bits of a marker flipped there
/// it still reads as a marker, and with up to three bits of an erased byte it still does not,
/// whatever stands behind.
pub proof fn law_marker_word_survives_bit_flips(word: Seq<u8>, flips: u8)
    requires
        word.len() > 0,
    ensures
        word[0] == MARKER ^ flips && zero_bits(flips) >= 4 ==> is_marker_word(word),
        word[0] == ERASED ^ flips && zero_bits(flips) >= 5 ==> !is_marker_word(word),
{
    law_marker_survives_bit_flips(flips);
}

/// A marker byte survives bit flips: with up to four of its bits flipped it still reads as a
/// marker, and an erased byte with up to three of its bits flipped still does not.
pub proof fn law_marker_survives_bit_flips(flips: u8)
    ensures
        zero_bits(flips) >= 4 ==> is_marker_byte(MARKER ^ flips),
        zero_bits(flips) >= 5 ==> !is_marker_byte(ERASED ^ flips),
{
    assert(0u8 ^ flips == flips) by (bit_vector);
    assert(((0xFFu8 ^ flips) >> 0) & 1 == 1 - ((flips >> 0) & 1) && ((0xFFu8 ^ flips) >> 1) & 1 == 1
        - ((flips >> 1) & 1) && ((0xFFu8 ^ flips) >> 2) & 1 == 1 - ((flips >> 2) & 1) && ((0xFFu8
        ^ flips) >> 3) & 1 == 1 - ((flips >> 3) & 1) && ((0xFFu8 ^ flips) >> 4) & 1 == 1 - ((flips
        >> 4) & 1) && ((0xFFu8 ^ flips) >> 5) & 1 == 1 - ((flips >> 5) & 1) && ((0xFFu8 ^ flips)
        >> 6) & 1 == 1 - ((flips >> 6) & 1) && ((0xFFu8 ^ flips) >> 7) & 1 == 1 - ((flips >> 7) & 1))
        by (bit_vector);
}

/// A marker is all zero bytes, and erased bytes are all ones.
pub proof fn law_marker_and_erased_bytes(len: nat, bytes: Seq<u8>)
    ensures
        marker_bytes(len).len() == len,
        forall|i: int| 0 <= i < len ==> #[trigger] marker_bytes(len)[i] == 0,
        is_erased(bytes) <==> forall|i: int| 0 <= i < bytes.len() ==> #[trigger] bytes[i] == 255,
{
}

} // verus!
