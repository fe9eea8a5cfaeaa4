//! The sizes of a flash, and rounding to its word size.

use vstd::pervasive::runtime_assert;
use vstd::prelude::*;

use crate::flash_layout::FlashLayout;
use crate::marker::MAX_WORD_SIZE;

verus! {

/// The minimal sizes, in bytes, of a flash's operations.
#[derive(Debug, Clone, Copy, PartialEq, Eq, Structural)]
pub struct FlashGeometry {
    /// The minimum number of bytes the flash can read.
    pub read_size: usize,
    /// The minimum number of bytes the flash can write.
    pub write_size: usize,
    /// The minimum number of bytes the flash can erase: the size of a page.
    pub erase_size: usize,
}

/// Whether a number is a multiple of another. Of zero, zero alone is a multiple.
pub open spec fn is_multiple(value: nat, of: nat) -> bool {
    if of == 0 {
        value == 0
    } else {
        value % of == 0
    }
}

/// The smallest multiple of `of` that is not below `value`.
pub open spec fn rounded_up(value: int, of: int) -> int {
    if value % of == 0 {
        value
    } else {
        value + (of - value % of)
    }
}

/// The biggest multiple of `of` that is not above `value`.
pub open spec fn rounded_down(value: int, of: int) -> int {
    value - value % of
}

/// The read and write sizes are multiples of each other.
pub open spec fn sizes_supported(write_size: nat, read_size: nat) -> bool {
    is_multiple(write_size, read_size) || is_multiple(read_size, write_size)
}

impl FlashGeometry {
    /// The read and write sizes are multiples of each other.
    pub open spec fn compatible(&self) -> bool {
        sizes_supported(self.write_size as nat, self.read_size as nat)
    }

    /// A word fits in the buffers that markers are read to and written from.
    pub open spec fn bufferable(&self) -> bool {
        self.word() <= MAX_WORD_SIZE
    }

    /// The largest of the write and read size.
    pub open spec fn word(&self) -> nat {
        if self.write_size > self.read_size {
            self.write_size as nat
        } else {
            self.read_size as nat
        }
    }

    /// The overall word size, which is the largest of the write and read word size.
    pub fn word_size(&self) -> (size: usize)
        requires
            self.compatible(),
        ensures
            size == self.word(),
    {
        if self.write_size > self.read_size {
            self.write_size
        } else {
            self.read_size
        }
    }

    /// Round up the given number to align with the wordsize of the flash.
    /// If the number is already aligned, it is not changed.
    pub fn round_up_to_alignment(&self, value: u32) -> (rounded: u32)
        requires
            self.compatible(),
            0 < self.word() <= u32::MAX,
            rounded_up(value as int, self.word() as int) <= u32::MAX,
        ensures
            rounded == rounded_up(value as int, self.word() as int),
    {
        let alignment: u32 = self.word_size() as u32;
        let rest: u32 = value % alignment;
        if rest == 0 {
            value
        } else {
            value + (alignment - rest)
        }
    }

    /// Round up the given number to align with the wordsize of the flash.
    /// If the number is already aligned, it is not changed.
    pub fn round_up_to_alignment_usize(&self, value: usize) -> (rounded: usize)
        requires
            self.compatible(),
            0 < self.word(),
            rounded_up(value as int, self.word() as int) <= usize::MAX,
        ensures
            rounded == rounded_up(value as int, self.word() as int),
    {
        let alignment: usize = self.word_size();
        let rest: usize = value % alignment;
        if rest == 0 {
            value
        } else {
            value + (alignment - rest)
        }
    }

    /// Round down the given number to align with the wordsize of the flash.
    /// If the number is already aligned, it is not changed.
    pub fn round_down_to_alignment(&self, value: u32) -> (rounded: u32)
        requires
            self.compatible(),
            0 < self.word() <= u32::MAX,
        ensures
            rounded == rounded_down(value as int, self.word() as int),
    {
        let alignment: u32 = self.word_size() as u32;
        proof {
            lemma_quotient_times_divisor(value as int, alignment as int);
        }
        (value / alignment) * alignment
    }

    /// Round down the given number to align with the wordsize of the flash.
    /// If the number is already aligned, it is not changed.
    pub fn round_down_to_alignment_usize(&self, value: usize) -> (rounded: usize)
        requires
            self.compatible(),
            0 < self.word(),
        ensures
            rounded == rounded_down(value as int, self.word() as int),
    {
        let alignment: usize = self.word_size();
        proof {
            lemma_quotient_times_divisor(value as int, alignment as int);
        }
        (value / alignment) * alignment
    }

    /// The bytes of a page that are left for items.
    pub fn calculate_page_size(&self) -> (size: usize)
        requires
            self.compatible(),
            self.start_marker() + self.word() <= self.erase_size,
        ensures
            size == self.erase_size - self.start_marker() - self.word(),
    {
        FlashLayout { start: 0, end: 0, geometry: *self }.page_data_size()
    }
}

/// Whether flash with these sizes is supported: one is a multiple of the other.
pub fn read_write_sizes_are_supported(write_size: usize, read_size: usize) -> (supported: bool)
    ensures
        supported == sizes_supported(write_size as nat, read_size as nat),
{
    let write_multiple: bool = if read_size == 0 {
        write_size == 0
    } else {
        write_size % read_size == 0
    };
    let read_multiple: bool = if write_size == 0 {
        read_size == 0
    } else {
        read_size % write_size == 0
    };
    write_multiple || read_multiple
}

/// Only flash with read and write sizes that are multiple of each other are supported.
pub fn assert_read_write_sizes(write_size: usize, read_size: usize)
    requires
        sizes_supported(write_size as nat, read_size as nat),
{
    runtime_assert(read_write_sizes_are_supported(write_size, read_size));
}

proof fn lemma_quotient_times_divisor(value: int, of: int)
    requires
        0 <= value,
        0 < of,
    ensures
        (value / of) * of == rounded_down(value, of),
        0 <= rounded_down(value, of) <= value,
{
    assert((value / of) * of == value - value % of && 0 <= value % of <= value) by (nonlinear_arith)
        requires
            0 <= value,
            0 < of,
    ;
}

/// Rounding up gives a multiple that is not below the number, an aligned number is not changed,
/// and no smaller multiple would do.
pub proof fn law_rounded_up(value: int, of: int, multiple: int)
    requires
        0 < of,
    ensures
        rounded_up(value, of) % of == 0,
        value <= rounded_up(value, of) < value + of,
        value % of == 0 ==> rounded_up(value, of) == value,
        multiple % of == 0 && value <= multiple ==> rounded_up(value, of) <= multiple,
{
    let up = rounded_up(value, of);
    assert(0 <= value % of < of) by (nonlinear_arith)
        requires
            0 < of,
    ;
    if value % of != 0 {
        assert(up % of == 0) by (nonlinear_arith)
            requires
                0 < of,
                up == value + (of - value % of),
        ;
    }
    if multiple % of == 0 && value <= multiple && multiple < up {
        assert(false) by (nonlinear_arith)
            requires
                0 < of,
                multiple % of == 0,
                up % of == 0,
                up - of < multiple < up,
        ;
    }
}

/// Rounding down gives a multiple that is not above the number, an aligned number is not changed,
/// and no bigger multiple would do.
pub proof fn law_rounded_down(value: int, of: int, multiple: int)
    requires
        0 < of,
    ensures
        rounded_down(value, of) % of == 0,
        rounded_down(value, of) <= value < rounded_down(value, of) + of,
        value % of == 0 ==> rounded_down(value, of) == value,
        multiple % of == 0 && multiple <= value ==> multiple <= rounded_down(value, of),
{
    let down = rounded_down(value, of);
    assert(0 <= value % of < of && (value - value % of) % of == 0) by (nonlinear_arith)
        requires
            0 < of,
    ;
    if multiple % of == 0 && multiple <= value && down < multiple {
        assert(false) by (nonlinear_arith)
            requires
                0 < of,
                multiple % of == 0,
                down % of == 0,
                down < multiple < down + of,
        ;
    }
}

/// A word is as long as the longer of what the flash reads and writes at least.
pub proof fn law_word(geometry: FlashGeometry)
    ensures
        geometry.word() >= geometry.read_size,
        geometry.word() >= geometry.write_size,
        geometry.word() == geometry.read_size || geometry.word() == geometry.write_size,
{
}

/// Sizes are supported if one of them is so many times the other.
pub proof fn law_sizes_supported(write_size: nat, read_size: nat)
    ensures
        sizes_supported(write_size, read_size) <==> (exists|times: nat|
            write_size == #[trigger] (times * read_size)) || (exists|times: nat|
            read_size == #[trigger] (times * write_size)),
{
    lemma_multiple_is_product(write_size, read_size);
    lemma_multiple_is_product(read_size, write_size);
}

proof fn lemma_multiple_is_product(value: nat, of: nat)
    ensures
        is_multiple(value, of) <==> exists|times: nat| value == #[trigger] (times * of),
{
    if is_multiple(value, of) {
        if of == 0 {
            assert(value == 0nat * of) by (nonlinear_arith)
                requires
                    of == 0,
                    value == 0,
            ;
        } else {
            let times = value / of;
            assert(value == times * of) by (nonlinear_arith)
                requires
                    of > 0,
                    value % of == 0,
                    times == value / of,
            ;
        }
    }
    if exists|times: nat| value == #[trigger] (times * of) {
        let times = choose|times: nat| value == #[trigger] (times * of);
        if of == 0 {
            assert(value == 0) by (nonlinear_arith)
                requires
                    of == 0,
                    value == times * of,
            ;
        } else {
            assert(value % of == 0) by (nonlinear_arith)
                requires
                    of > 0,
                    value == times * of,
            ;
        }
    }
}

} // verus!
