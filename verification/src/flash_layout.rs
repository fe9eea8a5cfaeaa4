//! Where the pages of a flash range lie, and what stands in their markers.

use vstd::prelude::*;
use vstd::string::*;

use core::ops::Range;

use crate::error::Error;
use crate::geometry::FlashGeometry;
use crate::le;
use crate::marker;
use crate::marker::{ERASED, MARKER, MAX_WORD_SIZE};
use crate::text;

verus! {

/// The place of the marker in a page's start header.
pub const PAGE_START_HEADER_MARKER_INDEX: usize = 0;

/// The place of the flash format version in a page's start header.
pub const PAGE_START_HEADER_INTERNAL_VERSION_INDEX: usize = 1;

/// The place of the user's version in a page's start header.
pub const PAGE_START_HEADER_USER_VERSION_INDEX: usize = 2;

/// The size of a page's start header.
pub const PAGE_START_HEADER_SIZE: usize = 4;

/// The version of the flash format.
///
/// The lowest bit says whether items carry a tombstone word.
pub const FLASH_FORMAT_VERSION: u8 = 2;

/// The version of the flash format in which items carry a tombstone word.
pub const TOMBSTONE_FLASH_FORMAT_VERSION: u8 = 3;

/// The low 32 bits of a size: what is left of it in an address.
pub open spec fn low_u32(size: int) -> int {
    size % 0x1_0000_0000
}

fn address_offset(size: usize) -> (offset: u32)
    ensures
        offset == low_u32(size as int),
{
    let wide: u64 = size as u64;
    assert(wide as u32 == wide % 0x1_0000_0000) by (bit_vector);
    wide as u32
}

/// A range of flash, divided in pages.
#[derive(Debug, Clone, Copy, PartialEq, Eq, Structural)]
pub struct FlashLayout {
    /// The first address of the range.
    pub start: u32,
    /// The first address behind the range.
    pub end: u32,
    /// The sizes of the flash.
    pub geometry: FlashGeometry,
}

impl FlashGeometry {
    /// The size of a page's start marker: the header, on flash with big words a whole word.
    pub open spec fn start_marker(&self) -> nat {
        if self.word() < PAGE_START_HEADER_SIZE {
            PAGE_START_HEADER_SIZE as nat
        } else {
            self.word()
        }
    }

    /// The size of a page's start marker.
    pub fn start_marker_size(&self) -> (size: usize)
        requires
            self.compatible(),
        ensures
            size == self.start_marker(),
    {
        if self.word_size() < PAGE_START_HEADER_SIZE {
            PAGE_START_HEADER_SIZE
        } else {
            self.word_size()
        }
    }

    /// The size of a page's end marker.
    pub fn end_marker_size(&self) -> (size: usize)
        requires
            self.compatible(),
        ensures
            size == self.word(),
    {
        self.word_size()
    }
}

impl FlashLayout {
    /// The range is not reversed and a page is not empty, so that pages can be counted.
    pub open spec fn countable(&self) -> bool {
        self.start <= self.end && self.geometry.erase_size > 0
    }

    /// How many pages the range has: as many as fit, but at least one.
    pub open spec fn pages(&self) -> nat {
        let whole = (self.end - self.start) / self.geometry.erase_size as int;
        if whole < 1 {
            1
        } else {
            whole as nat
        }
    }

    /// The page with the given index.
    pub open spec fn at(&self, page_index: int) -> FlashPage {
        FlashPage { layout: *self, index: page_index as usize }
    }

    /// The page indices in the order in which they are visited from a page on.
    pub open spec fn page_order(&self, start_page_index: int) -> Seq<usize> {
        Seq::new(
            self.pages(),
            |k: int| ((k + start_page_index) % self.pages() as int) as usize,
        )
    }

    /// The layout of a flash range.
    pub fn new(flash_range: Range<u32>, geometry: FlashGeometry) -> (layout: Self)
        ensures
            layout == (FlashLayout { start: flash_range.start, end: flash_range.end, geometry }),
    {
        Self { start: flash_range.start, end: flash_range.end, geometry }
    }

    /// The number of pages.
    pub fn page_count(self) -> (count: usize)
        requires
            self.countable(),
        ensures
            count == self.pages(),
            count > 0,
    {
        let whole: usize = (self.end - self.start) as usize / self.geometry.erase_size;
        if whole < 1 {
            1
        } else {
            whole
        }
    }

    /// The index of the page that is visited as the `k`th, from a page on.
    pub fn page_from(self, start_page_index: usize, k: usize) -> (page_index: usize)
        requires
            self.countable(),
            k < self.pages(),
            start_page_index + self.pages() - 1 <= usize::MAX,
        ensures
            page_index == self.page_order(start_page_index as int)[k as int],
            page_index < self.pages(),
    {
        let page_count: usize = self.page_count();
        (k + start_page_index) % page_count
    }

    /// All pages from the given start to the last, and from the first back to the start.
    pub fn pages_from(self, start_page_index: usize) -> (page_indices: Vec<usize>)
        requires
            self.countable(),
            start_page_index + self.pages() - 1 <= usize::MAX,
        ensures
            page_indices@ == self.page_order(start_page_index as int),
    {
        let page_count: usize = self.page_count();
        let mut page_indices: Vec<usize> = Vec::new();
        let mut k: usize = 0;
        while k < page_count
            invariant
                self.countable(),
                page_count == self.pages(),
                start_page_index + self.pages() - 1 <= usize::MAX,
                k <= page_count,
                page_indices@ == self.page_order(start_page_index as int).take(k as int),
            decreases page_count - k,
        {
            page_indices.push(self.page_from(start_page_index, k));
            k = k + 1;
            assert(page_indices@ =~= self.page_order(start_page_index as int).take(k as int));
        }
        assert(page_indices@ =~= self.page_order(start_page_index as int));
        page_indices
    }

    /// The page with the given index.
    pub fn page(self, index: usize) -> (page: FlashPage)
        ensures
            page == (FlashPage { layout: self, index }),
    {
        FlashPage { layout: self, index }
    }

    /// The index of the page that holds an address.
    pub fn page_index(self, address: u32) -> (index: usize)
        requires
            self.start <= address,
            self.geometry.erase_size > 0,
        ensures
            index == (address - self.start) / self.geometry.erase_size as int,
    {
        (address - self.start) as usize / self.geometry.erase_size
    }

    /// The index of the next page, around to the first.
    pub open spec fn next_index(&self, page_index: int) -> int {
        (page_index + 1) % self.pages() as int
    }

    /// The index of the previous page, around to the last.
    pub open spec fn previous_index(&self, page_index: int) -> int {
        if page_index == 0 {
            self.pages() - 1
        } else {
            page_index - 1
        }
    }

    /// Get the next page index (wrapping around to 0 if required).
    pub fn next_page_index(self, page_index: usize) -> (next: usize)
        requires
            self.countable(),
            page_index < usize::MAX,
        ensures
            next == self.next_index(page_index as int),
    {
        (page_index + 1) % self.page_count()
    }

    /// Get the previous page index (wrapping around to the biggest page if required).
    pub fn previous_page_index(self, page_index: usize) -> (previous: usize)
        requires
            page_index == 0 ==> self.countable(),
        ensures
            previous == self.previous_index(page_index as int),
    {
        match page_index.checked_sub(1) {
            Some(new_page_index) => new_page_index,
            None => self.page_count() - 1,
        }
    }

    /// The bytes of a page that are left between its markers.
    pub fn page_data_size(self) -> (size: usize)
        requires
            self.geometry.compatible(),
            self.geometry.start_marker() + self.geometry.word() <= self.geometry.erase_size,
        ensures
            size == self.geometry.erase_size - self.geometry.start_marker() - self.geometry.word(),
    {
        self.geometry.erase_size - self.geometry.start_marker_size() - self.geometry.word_size()
    }
}

/// One page of a layout.
#[derive(Debug, Clone, Copy, PartialEq, Eq, Structural)]
pub struct FlashPage {
    /// The layout that the page is one of.
    pub layout: FlashLayout,
    /// Which of the layout's pages this is.
    pub index: usize,
}

impl FlashPage {
    /// The first address of the page.
    pub open spec fn from(&self) -> int {
        self.layout.start + low_u32(self.layout.geometry.erase_size * self.index)
    }

    /// The first address behind the page.
    pub open spec fn to(&self) -> int {
        self.layout.start + low_u32(self.layout.geometry.erase_size * (self.index + 1))
    }

    /// The first address has 32 bits, as an address has.
    pub open spec fn start_fits(&self) -> bool {
        self.layout.geometry.erase_size * self.index <= usize::MAX && self.from() <= u32::MAX
    }

    /// The first address behind the page has 32 bits, as an address has.
    pub open spec fn end_fits(&self) -> bool {
        self.index < usize::MAX && self.layout.geometry.erase_size * (self.index + 1) <= usize::MAX
            && self.to() <= u32::MAX
    }

    /// The first address of the page.
    pub fn start_address(&self) -> (address: u32)
        requires
            self.start_fits(),
        ensures
            address == self.from(),
    {
        self.layout.start + address_offset(self.layout.geometry.erase_size * self.index)
    }

    /// The first address behind the page.
    pub fn end_address(&self) -> (address: u32)
        requires
            self.end_fits(),
        ensures
            address == self.to(),
    {
        self.layout.start + address_offset(self.layout.geometry.erase_size * (self.index + 1))
    }

    /// The address of the start marker.
    pub fn start_marker_address(&self) -> (address: u32)
        requires
            self.start_fits(),
        ensures
            address == self.from(),
    {
        self.start_address()
    }

    /// The size of the start marker.
    pub fn start_marker_size(&self) -> (size: usize)
        requires
            self.layout.geometry.compatible(),
        ensures
            size == self.layout.geometry.start_marker(),
    {
        self.layout.geometry.start_marker_size()
    }

    /// The address of the end marker.
    pub fn end_marker_address(&self) -> (address: u32)
        requires
            self.layout.geometry.compatible(),
            self.end_fits(),
            self.layout.geometry.word() <= self.to(),
        ensures
            address == self.to() - self.layout.geometry.word(),
    {
        self.end_address() - self.end_marker_size() as u32
    }

    /// The size of the end marker.
    pub fn end_marker_size(&self) -> (size: usize)
        requires
            self.layout.geometry.compatible(),
        ensures
            size == self.layout.geometry.word(),
    {
        self.layout.geometry.end_marker_size()
    }

    /// The first address behind the start marker.
    pub fn data_start_address(&self) -> (address: u32)
        requires
            self.layout.geometry.compatible(),
            self.start_fits(),
            self.from() + self.layout.geometry.start_marker() <= u32::MAX,
        ensures
            address == self.from() + self.layout.geometry.start_marker(),
    {
        self.start_address() + self.start_marker_size() as u32
    }

    /// The first address behind the data: that of the end marker.
    pub fn data_end_address(&self) -> (address: u32)
        requires
            self.layout.geometry.compatible(),
            self.end_fits(),
            self.layout.geometry.word() <= self.to(),
        ensures
            address == self.to() - self.layout.geometry.word(),
    {
        self.end_address() - self.end_marker_size() as u32
    }

    /// Whether the start marker is set, given the bytes that stand in its place.
    pub fn start_is_marked<S, V>(&self, written: &[u8]) -> (marked: Result<bool, Error<S, V>>)
        requires
            self.layout.geometry.compatible(),
            written@.len() == self.layout.geometry.start_marker(),
        ensures
            marked == (match page_start_status(written@) {
                Ok(version) => Ok(version is Some),
                Err(()) => Err(Error::<S, V>::Corrupted),
            }),
    {
        match self.get_page_start_status(written) {
            Err(error) => Err(error),
            Ok(None) => Ok(false),
            Ok(Some(_)) => Ok(true),
        }
    }

    /// Whether the end marker is set, given the word that stands in its place.
    pub fn end_is_marked(&self, word: &[u8]) -> (marked: bool)
        requires
            word@.len() == self.layout.geometry.read_size,
            self.layout.geometry.bufferable(),
        ensures
            marked == marker::is_marker_word(word@),
    {
        marker::marker_is_set(word)
    }

    /// Parses version information from the page start marker, given the bytes that stand in its
    /// place.
    ///
    /// Returns `Ok(None)` if the marker is still erased, `Ok(Some(StorageVersion))` if parsed
    /// successfully, otherwise [`Error::Corrupted`].
    pub fn get_page_start_status<S, V>(&self, written: &[u8]) -> (status: Result<
        Option<StorageVersion>,
        Error<S, V>,
    >)
        requires
            self.layout.geometry.compatible(),
            written@.len() == self.layout.geometry.start_marker(),
        ensures
            status == (match page_start_status(written@) {
                Ok(version) => Ok(version),
                Err(()) => Err(Error::<S, V>::Corrupted),
            }),
    {
        proof {
            marker::lemma_zero_bits_of_marker_and_erased();
            lemma_erased_header(written@);
        }
        if marker::range_is_erased(written, 0, written.len()) {
            return Ok(None);
        }
        let marker_written: bool = marker::marker_byte_is_set(
            written[PAGE_START_HEADER_MARKER_INDEX],
        );
        let version_bytes_erased: bool = marker::range_is_erased(
            written,
            PAGE_START_HEADER_INTERNAL_VERSION_INDEX,
            PAGE_START_HEADER_SIZE,
        );
        let padding_erased: bool = marker::range_is_erased(
            written,
            PAGE_START_HEADER_SIZE,
            written.len(),
        );

        if !marker_written {
            return if version_bytes_erased && padding_erased {
                Ok(None)
            } else {
                Err(Error::Corrupted)
            };
        }
        if !padding_erased {
            return Err(Error::Corrupted);
        }
        Ok(
            Some(
                StorageVersion {
                    internal: written[PAGE_START_HEADER_INTERNAL_VERSION_INDEX],
                    user: le::from_le_bytes(
                        written[PAGE_START_HEADER_USER_VERSION_INDEX],
                        written[PAGE_START_HEADER_USER_VERSION_INDEX + 1],
                    ),
                },
            ),
        )
    }
}

/// What the bytes in the place of a page's start marker say: nothing, where the marker is not set
/// and all behind it is erased; the version that the page was written under, where the marker is
/// set and all behind the header is erased. Anything else is corrupted.
pub open spec fn page_start_status(written: Seq<u8>) -> Result<Option<StorageVersion>, ()> {
    if marker::is_marker_byte(written[0]) {
        if marker::is_erased(written.skip(PAGE_START_HEADER_SIZE as int)) {
            Ok(
                Some(
                    StorageVersion {
                        internal: written[1],
                        user: le::le_value(written[2], written[3]) as u16,
                    },
                ),
            )
        } else {
            Err(())
        }
    } else if marker::is_erased(written.skip(1)) {
        Ok(None)
    } else {
        Err(())
    }
}

/// All behind the marker is erased where the version's bytes and the padding are.
proof fn lemma_erased_header(written: Seq<u8>)
    requires
        written.len() >= PAGE_START_HEADER_SIZE,
    ensures
        marker::is_erased(written.skip(1)) <==> marker::is_erased(
            written.subrange(1, PAGE_START_HEADER_SIZE as int),
        ) && marker::is_erased(
            written.subrange(PAGE_START_HEADER_SIZE as int, written.len() as int),
        ),
        marker::is_erased(written.subrange(0, written.len() as int)) ==> written[0] == ERASED
            && marker::is_erased(written.skip(1)),
        written.skip(PAGE_START_HEADER_SIZE as int) == written.subrange(
            PAGE_START_HEADER_SIZE as int,
            written.len() as int,
        ),
{
    let whole = written.subrange(0, written.len() as int);
    let behind = written.skip(1);
    let version = written.subrange(1, PAGE_START_HEADER_SIZE as int);
    let padding = written.subrange(PAGE_START_HEADER_SIZE as int, written.len() as int);
    assert(whole =~= written);
    assert(behind =~= version + padding);
    if marker::is_erased(behind) {
        assert forall|i: int| 0 <= i < version.len() implies version[i] == ERASED by {
            assert(behind[i] == version[i]);
        }
        assert forall|i: int| 0 <= i < padding.len() implies padding[i] == ERASED by {
            assert(behind[i + version.len()] == padding[i]);
        }
    }
    if marker::is_erased(whole) {
        assert forall|i: int| 0 <= i < behind.len() implies behind[i] == ERASED by {
            assert(whole[i + 1] == behind[i]);
        }
    }
}

/// The version that a page's start marker records: that of the flash format, and the user's.
#[derive(Debug, Clone, Copy, PartialEq, Eq, Structural)]
pub struct StorageVersion {
    /// The version of the flash format.
    pub internal: u8,
    /// The version that the user gave.
    pub user: u16,
}

impl StorageVersion {
    /// The version in words.
    pub open spec fn words(&self) -> Seq<char> {
        "StorageVersion { internal: "@ + text::decimal(self.internal as nat) + ", user: "@
            + text::decimal(self.user as nat) + " }"@
    }

    /// The start header of a page that was written under this version.
    pub open spec fn header(&self) -> Seq<u8> {
        seq![MARKER, self.internal] + le::le_bytes(self.user as nat)
    }

    /// The start marker of a page that was written under this version: its header, then erased
    /// bytes.
    pub open spec fn start_marker(&self, len: nat) -> Seq<u8> {
        self.header() + Seq::new((len - PAGE_START_HEADER_SIZE) as nat, |i: int| ERASED)
    }

    /// The version in words.
    pub fn message(&self) -> (message: String)
        ensures
            message@ == self.words(),
    {
        let mut message = String::from_str("StorageVersion { internal: ");
        text::append_decimal(&mut message, self.internal as u64);
        message.append(", user: ");
        text::append_decimal(&mut message, self.user as u64);
        message.append(" }");
        message
    }

    /// The user's version, under the current flash format.
    pub fn new(user: u16) -> (version: Self)
        ensures
            version == (StorageVersion { internal: FLASH_FORMAT_VERSION, user }),
    {
        Self { internal: FLASH_FORMAT_VERSION, user }
    }

    /// The user's version, under the flash format in which items carry a tombstone word.
    pub fn new_with_tombstones(user: u16) -> (version: Self)
        ensures
            version == (StorageVersion { internal: TOMBSTONE_FLASH_FORMAT_VERSION, user }),
    {
        Self { internal: TOMBSTONE_FLASH_FORMAT_VERSION, user }
    }

    /// The user's version, under any flash format.
    pub fn with_internal_version(internal: u8, user: u16) -> (version: Self)
        ensures
            version == (StorageVersion { internal, user }),
    {
        Self { internal, user }
    }

    /// The bytes of which a page's start marker takes as many as it is long: the header, then
    /// erased bytes.
    pub fn page_start_buffer(&self) -> (buffer: [u8; MAX_WORD_SIZE])
        ensures
            buffer@ == self.start_marker(MAX_WORD_SIZE as nat),
    {
        let (low, high) = le::to_le_bytes(self.user);
        let mut buffer: [u8; MAX_WORD_SIZE] = [0u8; MAX_WORD_SIZE];
        let mut i: usize = PAGE_START_HEADER_SIZE;
        while i < MAX_WORD_SIZE
            invariant
                PAGE_START_HEADER_SIZE <= i <= MAX_WORD_SIZE,
                forall|j: int| PAGE_START_HEADER_SIZE <= j < i ==> buffer@[j] == ERASED,
            decreases MAX_WORD_SIZE - i,
        {
            buffer[i] = ERASED;
            i = i + 1;
        }
        buffer[PAGE_START_HEADER_MARKER_INDEX] = MARKER;
        buffer[PAGE_START_HEADER_INTERNAL_VERSION_INDEX] = self.internal;
        buffer[PAGE_START_HEADER_USER_VERSION_INDEX] = low;
        buffer[PAGE_START_HEADER_USER_VERSION_INDEX + 1] = high;
        assert(self.header() =~= seq![MARKER, self.internal, low, high]) by {
            assert(seq![low, high][0] == low && seq![low, high][1] == high);
        }
        assert(buffer@ =~= self.start_marker(MAX_WORD_SIZE as nat));
        buffer
    }
}

/// What a start marker says of the version is what was written there, whatever its size.
pub proof fn law_version_round_trip(version: StorageVersion, len: nat)
    requires
        PAGE_START_HEADER_SIZE <= len,
    ensures
        page_start_status(version.start_marker(len)) == Ok::<_, ()>(Some(version)),
{
    let bytes = version.start_marker(len);
    marker::lemma_zero_bits_of_marker_and_erased();
    assert(bytes[0] == MARKER);
    assert(bytes[1] == version.internal);
    assert(bytes[2] == le::le_bytes(version.user as nat)[0]);
    assert(bytes[3] == le::le_bytes(version.user as nat)[1]);
    le::law_le_round_trip(version.user);
    assert(marker::is_erased(bytes.skip(PAGE_START_HEADER_SIZE as int)));
}

/// An erased start marker says that the page is empty.
pub proof fn law_erased_start_is_empty(written: Seq<u8>)
    requires
        PAGE_START_HEADER_SIZE <= written.len(),
        marker::is_erased(written),
    ensures
        page_start_status(written) == Ok::<Option<StorageVersion>, ()>(None),
{
    marker::lemma_zero_bits_of_marker_and_erased();
}

/// Flash that was written in one flash format is never taken for flash of the other.
pub proof fn law_formats_differ(user: u16, other_user: u16)
    ensures
        (StorageVersion { internal: FLASH_FORMAT_VERSION, user }) != (StorageVersion {
            internal: TOMBSTONE_FLASH_FORMAT_VERSION,
            user: other_user,
        }),
{
}

/// From any page on, every page is visited exactly once, the pages from the start on in
/// ascending order, then those from the first on.
pub proof fn law_every_page_visited_once(layout: FlashLayout, start_page_index: int)
    requires
        layout.countable(),
        0 <= start_page_index,
    ensures
        layout.page_order(start_page_index).len() == layout.pages(),
        layout.page_order(start_page_index).no_duplicates(),
        forall|i: usize|
            i < layout.pages() <==> #[trigger] layout.page_order(start_page_index).contains(i),
        start_page_index < layout.pages() ==> forall|k: int|
            0 <= k < layout.pages() ==> #[trigger] layout.page_order(start_page_index)[k] == if k
                + start_page_index < layout.pages() {
                k + start_page_index
            } else {
                k + start_page_index - layout.pages()
            },
{
    let n = layout.pages() as int;
    let order = layout.page_order(start_page_index);
    lemma_pages_fit(layout);
    let s = start_page_index % n;
    assert(0 <= s < n) by (nonlinear_arith)
        requires
            0 < n,
            s == start_page_index % n,
    ;
    assert forall|k: int| 0 <= k < n implies #[trigger] order[k] == if k + s < n {
        k + s
    } else {
        k + s - n
    } by {
        lemma_shifted_remainder(k, start_page_index, n);
    }
    if start_page_index < n {
        assert(s == start_page_index) by (nonlinear_arith)
            requires
                0 <= start_page_index < n,
                s == start_page_index % n,
        ;
    }
    assert forall|i: usize| i < n <==> #[trigger] order.contains(i) by {
        if i < n {
            let k = if i >= s {
                i - s
            } else {
                i - s + n
            };
            assert(order[k] == i);
        }
    }
}

/// There are no more pages than addresses.
pub proof fn lemma_pages_fit(layout: FlashLayout)
    requires
        layout.countable(),
    ensures
        0 < layout.pages() <= u32::MAX,
{
    let size = layout.end - layout.start;
    let page = layout.geometry.erase_size as int;
    assert(0 <= size / page <= size) by (nonlinear_arith)
        requires
            0 <= size,
            0 < page,
    ;
}

proof fn lemma_shifted_remainder(k: int, start: int, n: int)
    requires
        0 <= k < n,
        0 <= start,
    ensures
        (k + start) % n == if k + start % n < n {
            k + start % n
        } else {
            k + start % n - n
        },
{
    let s = start % n;
    let q = start / n;
    assert(start == n * q + s && 0 <= s < n) by (nonlinear_arith)
        requires
            0 < n,
            s == start % n,
            q == start / n,
    ;
    if k + s < n {
        assert((k + start) % n == k + s) by (nonlinear_arith)
            requires
                start == n * q + s,
                0 <= k + s < n,
        ;
    } else {
        assert((k + start) % n == k + s - n) by (nonlinear_arith)
            requires
                start == n * q + s,
                0 <= k + s - n < n,
        ;
    }
}

/// The page before the next page, and the page behind the previous one, is the page itself.
pub proof fn law_next_and_previous_are_inverse(layout: FlashLayout, page_index: int)
    requires
        layout.countable(),
        0 <= page_index < layout.pages(),
    ensures
        0 <= layout.next_index(page_index) < layout.pages(),
        0 <= layout.previous_index(page_index) < layout.pages(),
        layout.previous_index(layout.next_index(page_index)) == page_index,
        layout.next_index(layout.previous_index(page_index)) == page_index,
{
    let n = layout.pages() as int;
    assert(n % n == 0) by (nonlinear_arith)
        requires
            0 < n,
    ;
    assert(forall|i: int| 0 <= i < n ==> #[trigger] (i % n) == i) by {
        assert forall|i: int| 0 <= i < n implies #[trigger] (i % n) == i by {
            assert(i % n == i) by (nonlinear_arith)
                requires
                    0 <= i < n,
            ;
        }
    }
    assert(page_index + 1 < n ==> (page_index + 1) % n == page_index + 1);
}

/// Pages that lie whole in the range lie one behind the other in it, and hold their markers and
/// between them as much data as a page is said to hold.
pub proof fn law_pages_tile_the_range(layout: FlashLayout, page_index: int)
    requires
        layout.countable(),
        0 <= page_index,
        layout.geometry.erase_size * (page_index + 1) <= layout.end - layout.start,
    ensures
        page_index < layout.pages(),
        layout.at(page_index).index == page_index,
        layout.at(page_index).start_fits(),
        layout.at(page_index).end_fits(),
        layout.at(page_index).from() == layout.start + layout.geometry.erase_size * page_index,
        layout.at(page_index).to() == layout.at(page_index).from() + layout.geometry.erase_size,
        layout.at(page_index).to() <= layout.end,
        (layout.at(page_index).to() - layout.geometry.word()) - (layout.at(page_index).from()
            + layout.geometry.start_marker()) == layout.geometry.erase_size
            - layout.geometry.start_marker() - layout.geometry.word(),
        layout.at(0).from() == layout.start,
        page_index > 0 ==> layout.at(page_index - 1).to() == layout.at(page_index).from(),
{
    let size = layout.end - layout.start;
    let page = layout.geometry.erase_size as int;
    assert(page_index < size / page && page_index + 1 <= size && 0 <= page * page_index <= size
        && page * (page_index + 1) == page * page_index + page) by (nonlinear_arith)
        requires
            0 <= page_index,
            0 < page,
            page * (page_index + 1) <= size,
    ;
    assert(page * 0 == 0) by (nonlinear_arith);
}

/// An address belongs to the page between whose first and last address it lies.
pub proof fn law_address_is_in_its_page(layout: FlashLayout, address: int)
    requires
        layout.countable(),
        layout.start <= address < layout.end,
    ensures
        ({
            let page_index = (address - layout.start) / layout.geometry.erase_size as int;
            &&& 0 <= page_index
            &&& layout.start + layout.geometry.erase_size * page_index <= address < layout.start
                + layout.geometry.erase_size * (page_index + 1)
        }),
{
    let offset = address - layout.start;
    let page = layout.geometry.erase_size as int;
    assert(0 <= offset / page && page * (offset / page) <= offset < page * (offset / page + 1))
        by (nonlinear_arith)
        requires
            0 <= offset,
            0 < page,
    ;
}

/// All bytes from a place on are erased.
pub open spec fn erased_from(bytes: Seq<u8>, from: int) -> bool {
    forall|i: int| from <= i < bytes.len() ==> #[trigger] bytes[i] == 0xFF
}

/// A start marker says a version exactly if its first byte is a marker and all behind the four bytes
/// of the header is erased: that which stands in the second byte, and in the next two, the low one
/// first. It says nothing exactly if its first byte is no marker and all behind that is erased. Else
/// it is corrupted.
pub proof fn law_page_start_status(written: Seq<u8>)
    requires
        4 <= written.len(),
    ensures
        page_start_status(written) matches Ok(Some(version)) ==> version.internal == written[1]
            && version.user == written[2] + 256 * written[3],
        page_start_status(written) matches Ok(Some(_)) <==> marker::is_marker_byte(written[0])
            && erased_from(written, 4),
        page_start_status(written) matches Ok(None) <==> !marker::is_marker_byte(written[0])
            && erased_from(written, 1),
{
    assert(marker::is_erased(written.skip(4)) <==> erased_from(written, 4)) by {
        lemma_skipped_is_erased(written, 4);
    }
    assert(marker::is_erased(written.skip(1)) <==> erased_from(written, 1)) by {
        lemma_skipped_is_erased(written, 1);
    }
}

proof fn lemma_skipped_is_erased(bytes: Seq<u8>, from: int)
    requires
        0 <= from <= bytes.len(),
    ensures
        marker::is_erased(bytes.skip(from)) <==> erased_from(bytes, from),
{
    if marker::is_erased(bytes.skip(from)) {
        assert forall|i: int| from <= i < bytes.len() implies #[trigger] bytes[i] == 0xFF by {
            assert(bytes.skip(from)[i - from] == bytes[i]);
        }
    }
}

/// A start marker holds zero, the flash format's version, and the user's version, low byte first;
/// all behind is erased.
pub proof fn law_start_marker_bytes(version: StorageVersion, len: nat)
    requires
        4 <= len,
    ensures
        version.start_marker(len).len() == len,
        version.start_marker(len)[0] == 0,
        version.start_marker(len)[1] == version.internal,
        version.start_marker(len)[2] + 256 * version.start_marker(len)[3] == version.user,
        erased_from(version.start_marker(len), 4),
{
    le::law_low_byte_first(version.user, 0, 0);
    assert(version.start_marker(len)[2] == le::le_bytes(version.user as nat)[0]);
    assert(version.start_marker(len)[3] == le::le_bytes(version.user as nat)[1]);
}

/// A version in words names the flash format's version before the user's.
pub proof fn law_version_in_words(version: StorageVersion)
    ensures
        version.words() == "StorageVersion { internal: "@ + text::decimal(
            version.internal as nat,
        ) + ", user: "@ + text::decimal(version.user as nat) + " }"@,
{
}

/// A start marker is a word, or the four bytes of the header if a word is shorter.
pub proof fn law_start_marker_size(geometry: FlashGeometry)
    ensures
        geometry.start_marker() >= 4,
        geometry.start_marker() >= geometry.word(),
        geometry.start_marker() == 4 || geometry.start_marker() == geometry.word(),
{
}

/// There are as many pages as fit in the range whole, but at least one.
pub proof fn law_page_count(layout: FlashLayout)
    requires
        layout.countable(),
    ensures
        layout.pages() >= 1,
        layout.pages() == 1 || layout.pages() * layout.geometry.erase_size <= layout.end
            - layout.start,
        layout.end - layout.start < (layout.pages() + 1) * layout.geometry.erase_size,
{
    let size = layout.end - layout.start;
    let page = layout.geometry.erase_size as int;
    let whole = size / page;
    assert(whole * page <= size < (whole + 1) * page && 0 <= whole) by (nonlinear_arith)
        requires
            0 <= size,
            0 < page,
            whole == size / page,
    ;
    if whole < 1 {
        assert(size < 2 * page) by (nonlinear_arith)
            requires
                size < (whole + 1) * page,
                0 <= whole < 1,
                0 < page,
        ;
    }
}

/// A page is one of its layout, and starts and ends as many page sizes behind the layout's start as
/// there are pages before it and up to it.
pub proof fn law_page_addresses(layout: FlashLayout, page_index: int)
    requires
        0 <= page_index < usize::MAX,
    ensures
        layout.at(page_index).layout == layout,
        layout.at(page_index).index == page_index,
        layout.geometry.erase_size * page_index < 0x1_0000_0000 ==> layout.at(page_index).from()
            == layout.start + layout.geometry.erase_size * page_index,
        layout.geometry.erase_size * (page_index + 1) < 0x1_0000_0000 ==> layout.at(page_index).to()
            == layout.start + layout.geometry.erase_size * (page_index + 1),
{
    let page = layout.geometry.erase_size as int;
    assert(0 <= page * page_index && 0 <= page * (page_index + 1)) by (nonlinear_arith)
        requires
            0 <= page,
            0 <= page_index,
    ;
}

/// An address keeps the low 32 bits of a size.
pub proof fn law_low_bits_of_a_size(size: int)
    ensures
        0 <= size < 0x1_0000_0000 ==> low_u32(size) == size,
        low_u32(size + 0x1_0000_0000) == low_u32(size),
        0 <= low_u32(size) < 0x1_0000_0000,
{
}

/// The next page has the next index, or is the first behind the last; the previous page has the
/// previous index, or is the last before the first.
pub proof fn law_next_and_previous(layout: FlashLayout, page_index: int)
    requires
        layout.countable(),
        0 <= page_index < layout.pages(),
    ensures
        page_index + 1 < layout.pages() ==> layout.next_index(page_index) == page_index + 1,
        page_index + 1 == layout.pages() ==> layout.next_index(page_index) == 0,
        page_index > 0 ==> layout.previous_index(page_index) == page_index - 1,
        page_index == 0 ==> layout.previous_index(page_index) == layout.pages() - 1,
{
    let n = layout.pages() as int;
    if page_index + 1 < n {
        assert((page_index + 1) % n == page_index + 1) by (nonlinear_arith)
            requires
                0 <= page_index + 1 < n,
        ;
    } else {
        assert(n % n == 0) by (nonlinear_arith)
            requires
                0 < n,
        ;
    }
}

/// From an index that is none of a page on, the next page and the order of the pages are those of
/// the index that is whole rounds of pages before it; the previous page is one before.
pub proof fn law_indices_go_round(layout: FlashLayout, index: int)
    requires
        layout.countable(),
        0 <= index,
    ensures
        layout.next_index(index + layout.pages()) == layout.next_index(index),
        layout.page_order(index + layout.pages()) == layout.page_order(index),
        index > 0 ==> layout.previous_index(index) == index - 1,
{
    let n = layout.pages() as int;
    assert forall|i: int| 0 <= i implies #[trigger] ((i + n) % n) == i % n by {
        assert((i + n) % n == i % n) by (nonlinear_arith)
            requires
                0 < n,
        ;
    }
    assert((index + 1 + n) % n == (index + 1) % n);
    assert forall|k: int| 0 <= k < n implies layout.page_order(index + n)[k] == layout.page_order(
        index,
    )[k] by {
        assert((k + index + n) % n == (k + index) % n);
    }
    assert(layout.page_order(index + n) =~= layout.page_order(index));
}

} // verus!
