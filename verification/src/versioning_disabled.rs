//! Start markers without a version: a word that is marked or not.

use vstd::prelude::*;

use crate::geometry::FlashGeometry;
use crate::marker;
use crate::marker::{MARKER, MAX_WORD_SIZE};

verus! {

/// No version.
#[derive(Debug, Clone, Copy, PartialEq, Eq, Structural)]
pub struct State;

impl State {
    /// No version.
    pub fn new() -> (state: Self)
        ensures
            state == State,
    {
        Self
    }

    /// The bytes of which a page's start marker takes as many as it is long: all of them markers.
    pub fn page_start_buffer(&self) -> (buffer: [u8; MAX_WORD_SIZE])
        ensures
            buffer@ == marker::marker_bytes(MAX_WORD_SIZE as nat),
    {
        let buffer: [u8; MAX_WORD_SIZE] = [MARKER; MAX_WORD_SIZE];
        assert(buffer@ =~= marker::marker_bytes(MAX_WORD_SIZE as nat));
        buffer
    }
}

impl Default for State {
    fn default() -> (state: Self)
        ensures
            state == State,
    {
        Self::new()
    }
}

/// The size of a page's start marker.
pub fn page_start_size(geometry: &FlashGeometry) -> (size: usize)
    requires
        geometry.compatible(),
    ensures
        size == geometry.word(),
{
    geometry.word_size()
}

/// Whether a page's start marker is set, given the word that stands in its place.
pub fn page_start_is_marked(word: &[u8]) -> (marked: bool)
    requires
        word@.len() <= MAX_WORD_SIZE,
    ensures
        marked == marker::is_marker_word(word@),
{
    marker::marker_is_set(word)
}

/// A start marker that was written is set, an erased one is not.
pub proof fn law_written_start_is_marked(len: nat, erased: Seq<u8>)
    requires
        0 < len,
        marker::is_erased(erased),
    ensures
        marker::is_marker_word(marker::marker_bytes(len)),
        !marker::is_marker_word(erased),
{
    marker::lemma_zero_bits_of_marker_and_erased();
    marker::law_word_with_marker_byte_is_marker(marker::marker_bytes(len));
    marker::law_erased_word_is_not_marker(erased);
}

} // verus!
