//! What holds of a storage's operations when they are driven to their end on a flash that does
//! not fail, with a cache that tells the truth.

use vstd::prelude::*;

use crate::device;
use crate::device::Device;
use crate::error::Error;
use crate::flash_layout;
use crate::flash_layout::{FlashLayout, FlashPage, StorageVersion};
use crate::marker;
use crate::marker::{ERASED, MARKER};
use crate::operation::{Operation, Step};
use crate::page_state;
use crate::page_state::PageState;
use crate::storage::pages::{
    ClosePage, ClosePagePhase, GetPageState, OpenPage, PartialClosePage, PartialClosePagePhase,
};

verus! {

/// The pages of a layout that divides the flash can be used and lie one behind the other.
pub proof fn lemma_pages_usable(layout: FlashLayout, flash: Seq<u8>)
    requires
        layout.divides(flash),
    ensures
        layout.usable(),
        forall|i: int|
            #![trigger layout.at(i)]
            0 <= i < layout.pages() ==> {
                &&& layout.at(i).index == i
                &&& layout.at(i).from() == layout.start + layout.geometry.erase_size * i
                &&& layout.at(i).to() == layout.at(i).from() + layout.geometry.erase_size
                &&& layout.at(i).to() <= flash.len()
                &&& layout.holds_pages() ==> layout.at(i).to() <= layout.end
            },
{
    let size = layout.end - layout.start;
    let page = layout.geometry.erase_size as int;
    let n = layout.pages() as int;
    flash_layout::law_page_count(layout);
    flash_layout::lemma_pages_fit(layout);
    assert forall|i: int|
        #![trigger layout.at(i)]
        0 <= i < layout.pages() implies {
        &&& layout.at(i).usable()
        &&& layout.at(i).index == i
        &&& layout.at(i).from() == layout.start + layout.geometry.erase_size * i
        &&& layout.at(i).to() == layout.at(i).from() + layout.geometry.erase_size
        &&& layout.at(i).to() <= flash.len()
        &&& layout.holds_pages() ==> layout.at(i).to() <= layout.end
    } by {
        assert(0 <= page * i && page * i + page == page * (i + 1) && page * (i + 1) <= page * n)
            by (nonlinear_arith)
            requires
                0 <= i < n,
                0 < page,
        ;
        assert(page * n == n * page) by (nonlinear_arith);
        assert(n == 1 ==> page * n == page) by (nonlinear_arith);
        flash_layout::law_page_addresses(layout, i);
    }
}

/// The flash reads as erased between two addresses.
pub open spec fn reads_erased(flash: Seq<u8>, from: int, to: int) -> bool {
    forall|address: int| from <= address < to ==> #[trigger] flash[address] == 0xFF
}

/// What the flash says of a page stands in its markers. The start marker lies at the page's first
/// address and is as long as a word, but four bytes at least: the first is the marker, then come the
/// flash format's version and the user's version, low byte first, and the rest is erased. The end
/// marker is the first byte of the page's last word. A page with both markers is closed, one with
/// the start marker alone is partially open, and one with none and nothing else in the place of the
/// start marker is open. Any other page is corrupted.
pub proof fn law_page_state_stands_in_markers(layout: FlashLayout, page_index: int, flash: Seq<u8>)
    requires
        layout.divides(flash),
        0 <= page_index < layout.pages(),
    ensures
        ({
            let page = layout.at(page_index);
            let start = layout.start + layout.geometry.erase_size * page_index;
            let word = if layout.geometry.read_size < layout.geometry.write_size {
                layout.geometry.write_size as int
            } else {
                layout.geometry.read_size as int
            };
            let behind_start = start + if word < 4 {
                4
            } else {
                word
            };
            let end = start + layout.geometry.erase_size - word;
            let started = marker::is_marker_byte(flash[start]);
            let ended = marker::is_marker_byte(flash[end]);
            let sound = if started {
                reads_erased(flash, start + 4, behind_start)
            } else {
                reads_erased(flash, start + 1, behind_start)
            };
            &&& device::version_in(flash, page) is Ok <==> sound
            &&& device::version_in(flash, page) matches Ok(Some(version)) ==> version.internal
                == flash[start + 1] && version.user == flash[start + 2] + 256 * flash[start + 3]
            &&& sound ==> (device::version_in(flash, page)->Ok_0 is Some <==> started)
            &&& device::page_state_in(flash, page) == Some(PageState::Closed) <==> sound && started
                && ended
            &&& device::page_state_in(flash, page) == Some(PageState::PartialOpen) <==> sound
                && started && !ended
            &&& device::page_state_in(flash, page) == Some(PageState::Open) <==> sound && !started
                && !ended
            &&& device::page_state_in(flash, page) is None <==> !sound || !started && ended
        }),
{
    lemma_pages_usable(layout, flash);
    lemma_page_bytes_apart(layout, page_index, flash);
    let page = layout.at(page_index);
    let start = page.from();
    let len = layout.geometry.start_marker() as int;
    let bytes = flash.subrange(start, start + len);
    let end_marker = page.to() - layout.geometry.word();
    let word = flash.subrange(end_marker, end_marker + layout.geometry.read_size);
    flash_layout::law_page_start_status(bytes);
    assert(word[0] == flash[end_marker]);
    lemma_erased_in_marker(flash, start, len, 1);
    lemma_erased_in_marker(flash, start, len, 4);
}

proof fn lemma_erased_in_marker(flash: Seq<u8>, start: int, len: int, from: int)
    requires
        0 <= start,
        0 <= from <= len,
        start + len <= flash.len(),
    ensures
        flash_layout::erased_from(flash.subrange(start, start + len), from) <==> reads_erased(
            flash,
            start + from,
            start + len,
        ),
{
    let bytes = flash.subrange(start, start + len);
    if flash_layout::erased_from(bytes, from) {
        assert forall|address: int|
            start + from <= address < start + len implies #[trigger] flash[address] == 0xFF by {
            assert(bytes[address - start] == flash[address]);
        }
    }
}

/// A state that the cache holds is taken as it is: neither the flash nor the cache is touched.
pub proof fn law_cached_page_state<E>(page: FlashPage, device: Device)
    requires
        page.usable(),
        device.cache.dom().contains(page.index as int),
    ensures
        device::run::<E, GetPageState>(GetPageState::begun(page), device) == (
            device,
            Ok::<PageState, Error<E>>(device.cache[page.index as int]),
        ),
{
    reveal_with_fuel(device::run, 2);
}

/// What the cache holds once it was told the state of a page: that state, if it holds any of it.
pub open spec fn cache_told(device: Device, page_index: int, state: PageState) -> Map<int, PageState> {
    if device.cached_pages.contains(page_index) {
        device.cache.insert(page_index, state)
    } else {
        device.cache
    }
}

/// Getting a page's state gives what its markers say, or the corrupted error if they say nothing.
/// The flash is not changed. The cache was told the state, and goes on telling the truth.
pub proof fn law_get_page_state<E>(layout: FlashLayout, page_index: int, device: Device)
    requires
        layout.divides(device.flash),
        0 <= page_index < layout.pages(),
        device.consistent(layout),
    ensures
        ({
            let (after, result) = device::run::<E, GetPageState>(
                GetPageState::begun(layout.at(page_index)),
                device,
            );
            &&& after.flash == device.flash
            &&& after.consistent(layout)
            &&& after.dirty == device.dirty
            &&& after.cached_pages == device.cached_pages
            &&& after.cache == match device::page_state_in(device.flash, layout.at(page_index)) {
                Some(state) => cache_told(device, page_index, state),
                None => device.cache,
            }
            &&& result == match device::page_state_in(device.flash, layout.at(page_index)) {
                Some(state) => Ok(state),
                None => Err(Error::<E>::Corrupted),
            }
        }),
{
    lemma_pages_usable(layout, device.flash);
    assert(layout.at(page_index).index == page_index);
    reveal_with_fuel(device::run, 5);
    if device.cache.dom().contains(page_index) {
        assert(device.cache.insert(page_index, device.cache[page_index]) =~= device.cache);
    }
}

/// What the flash says of a page depends on the bytes of the page alone.
proof fn lemma_page_is_its_bytes(layout: FlashLayout, i: int, flash: Seq<u8>, other: Seq<u8>)
    requires
        layout.divides(flash),
        0 <= i < layout.pages(),
        flash.len() == other.len(),
        forall|a: int| layout.at(i).from() <= a < layout.at(i).to() ==> flash[a] == other[a],
    ensures
        device::version_in(flash, layout.at(i)) == device::version_in(other, layout.at(i)),
        device::page_state_in(flash, layout.at(i)) == device::page_state_in(other, layout.at(i)),
{
    lemma_pages_usable(layout, flash);
    let page = layout.at(i);
    let end_marker = page.to() - layout.geometry.word();
    assert(page.from() >= 0);
    assert(flash.subrange(page.from(), page.from() + layout.geometry.start_marker())
        =~= other.subrange(page.from(), page.from() + layout.geometry.start_marker()));
    assert(flash.subrange(end_marker, end_marker + layout.geometry.read_size) =~= other.subrange(
        end_marker,
        end_marker + layout.geometry.read_size,
    ));
}

/// A change of the flash that stays inside one page leaves what the flash says of the others.
proof fn lemma_other_pages_unchanged(
    layout: FlashLayout,
    page_index: int,
    flash: Seq<u8>,
    other: Seq<u8>,
)
    requires
        layout.divides(flash),
        0 <= page_index < layout.pages(),
        flash.len() == other.len(),
        forall|a: int|
            0 <= a < flash.len() && !(layout.at(page_index).from() <= a < layout.at(
                page_index,
            ).to()) ==> flash[a] == other[a],
    ensures
        device::same_elsewhere(layout, page_index, flash, other),
{
    lemma_pages_usable(layout, flash);
    lemma_page_bytes_apart(layout, page_index, flash);
    assert forall|i: int|
        #![trigger layout.at(i)]
        0 <= i < layout.pages() && i != page_index implies device::version_in(flash, layout.at(i))
        == device::version_in(other, layout.at(i)) && device::page_state_in(flash, layout.at(i))
        == device::page_state_in(other, layout.at(i)) by {
        lemma_page_is_its_bytes(layout, i, flash, other);
    }
}

/// The bytes of a page are apart from those of the others.
pub proof fn lemma_page_bytes_apart(layout: FlashLayout, page_index: int, flash: Seq<u8>)
    requires
        layout.divides(flash),
        0 <= page_index < layout.pages(),
    ensures
        forall|i: int|
            #![trigger layout.at(i)]
            0 <= i < layout.pages() && i != page_index ==> layout.at(i).to() <= layout.at(
                page_index,
            ).from() || layout.at(page_index).to() <= layout.at(i).from(),
        forall|i: int|
            #![trigger layout.at(i)]
            0 <= i < layout.pages() ==> 0 <= layout.at(i).from() <= layout.at(i).to()
                <= flash.len(),
{
    lemma_pages_usable(layout, flash);
    let size = layout.geometry.erase_size as int;
    assert(layout.at(page_index).index == page_index);
    assert forall|i: int| #![trigger layout.at(i)] 0 <= i < layout.pages() implies 0 <= layout.at(
        i,
    ).from() <= layout.at(i).to() <= flash.len() && (i != page_index ==> layout.at(i).to()
        <= layout.at(page_index).from() || layout.at(page_index).to() <= layout.at(i).from()) by {
        assert(0 <= size * i) by (nonlinear_arith)
            requires
                0 < size,
                0 <= i,
        ;
        if i != page_index {
            assert(size * i + size <= size * page_index || size * page_index + size <= size * i)
                by (nonlinear_arith)
                requires
                    0 < size,
                    i != page_index,
            ;
        }
    }
}

proof fn lemma_and_with_erased_and_marker()
    ensures
        forall|byte: u8| #[trigger] (byte & MARKER) == MARKER,
        forall|byte: u8| #[trigger] (ERASED & byte) == byte,
{
    assert(forall|byte: u8| #[trigger] (byte & 0) == 0) by (bit_vector);
    assert(forall|byte: u8| #[trigger] (0xFF & byte) == byte) by (bit_vector);
}

/// The flash after the page was erased says that it is open, and says the same of the other pages
/// as before.
pub proof fn lemma_erased_page_is_open(layout: FlashLayout, page_index: int, flash: Seq<u8>)
    requires
        layout.divides(flash),
        0 <= page_index < layout.pages(),
    ensures
        ({
            let page = layout.at(page_index);
            let after = device::erased(flash, page.from(), page.to());
            &&& layout.divides(after)
            &&& device::version_in(after, page) == Ok::<Option<StorageVersion>, ()>(None)
            &&& device::page_state_in(after, page) == Some(PageState::Open)
            &&& device::same_elsewhere(layout, page_index, flash, after)
        }),
{
    lemma_pages_usable(layout, flash);
    let page = layout.at(page_index);
    let after = device::erased(flash, page.from(), page.to());
    lemma_page_bytes_apart(layout, page_index, flash);
    lemma_other_pages_unchanged(layout, page_index, flash, after);
    let end_marker = page.to() - layout.geometry.word();
    flash_layout::law_erased_start_is_empty(
        after.subrange(page.from(), page.from() + layout.geometry.start_marker()),
    );
    marker::law_erased_word_is_not_marker(
        after.subrange(end_marker, end_marker + layout.geometry.read_size),
    );
}

/// The flash after the start marker of an open page was written says that the page is partially
/// open and under which version it was written, and says the same of the other pages as before.
proof fn lemma_started_page_is_partial_open(
    layout: FlashLayout,
    page_index: int,
    version: StorageVersion,
    flash: Seq<u8>,
)
    requires
        layout.divides(flash),
        0 <= page_index < layout.pages(),
        device::page_state_in(flash, layout.at(page_index)) == Some(PageState::Open),
    ensures
        ({
            let page = layout.at(page_index);
            let after = device::written(
                flash,
                page.from(),
                version.start_marker(layout.geometry.start_marker()),
            );
            &&& layout.divides(after)
            &&& device::version_in(after, page) == Ok::<_, ()>(Some(version))
            &&& device::page_state_in(after, page) == Some(PageState::PartialOpen)
            &&& device::same_elsewhere(layout, page_index, flash, after)
        }),
{
    lemma_pages_usable(layout, flash);
    lemma_and_with_erased_and_marker();
    let page = layout.at(page_index);
    let len = layout.geometry.start_marker();
    let start_marker = version.start_marker(len);
    let after = device::written(flash, page.from(), start_marker);
    lemma_page_bytes_apart(layout, page_index, flash);
    lemma_other_pages_unchanged(layout, page_index, flash, after);
    flash_layout::law_version_round_trip(version, len);
    let before = flash.subrange(page.from(), page.from() + len);
    assert(start_marker[0] == MARKER);
    assert forall|i: int| 0 <= i < len implies after.subrange(page.from(), page.from() + len)[i]
        == start_marker[i] by {
        if i > 0 {
            assert(before.skip(1)[i - 1] == ERASED);
            assert(flash[page.from() + i] == before[i]);
        }
    }
    assert(after.subrange(page.from(), page.from() + len) =~= start_marker);
    let end_marker = page.to() - layout.geometry.word();
    assert(after.subrange(end_marker, end_marker + layout.geometry.read_size) =~= flash.subrange(
        end_marker,
        end_marker + layout.geometry.read_size,
    ));
}

/// The flash after the end marker of a partially open page was written says that the page is
/// closed and of its version what it said before, and says the same of the other pages as before.
proof fn lemma_ended_page_is_closed(layout: FlashLayout, page_index: int, flash: Seq<u8>)
    requires
        layout.divides(flash),
        0 <= page_index < layout.pages(),
        device::page_state_in(flash, layout.at(page_index)) == Some(PageState::PartialOpen),
    ensures
        ({
            let page = layout.at(page_index);
            let after = device::written(
                flash,
                page.to() - layout.geometry.word(),
                marker::marker_bytes(layout.geometry.word()),
            );
            &&& layout.divides(after)
            &&& device::version_in(after, page) == device::version_in(flash, page)
            &&& device::page_state_in(after, page) == Some(PageState::Closed)
            &&& device::same_elsewhere(layout, page_index, flash, after)
        }),
{
    lemma_pages_usable(layout, flash);
    lemma_and_with_erased_and_marker();
    marker::lemma_zero_bits_of_marker_and_erased();
    let page = layout.at(page_index);
    let end_marker = page.to() - layout.geometry.word();
    let after = device::written(flash, end_marker, marker::marker_bytes(layout.geometry.word()));
    lemma_page_bytes_apart(layout, page_index, flash);
    lemma_other_pages_unchanged(layout, page_index, flash, after);
    assert(after.subrange(page.from(), page.from() + layout.geometry.start_marker())
        =~= flash.subrange(page.from(), page.from() + layout.geometry.start_marker()));
    let word = after.subrange(end_marker, end_marker + layout.geometry.read_size);
    assert(word[0] == MARKER);
    marker::law_word_with_marker_byte_is_marker(word);
}

/// The flash holds the same bytes outside two addresses.
pub open spec fn same_outside(flash: Seq<u8>, other: Seq<u8>, from: int, to: int) -> bool {
    forall|address: int|
        0 <= address < flash.len() && !(from <= address < to) ==> #[trigger] other[address]
            == flash[address]
}

/// Opening a page erases it and nothing else: the page is open then and the others are as before.
/// The cache was told before that the flash is about to be changed, and goes on telling the truth.
pub proof fn law_open_page<E>(layout: FlashLayout, page_index: int, device: Device)
    requires
        layout.divides(device.flash),
        0 <= page_index < layout.pages(),
        device.consistent(layout),
    ensures
        ({
            let page = layout.at(page_index);
            let (after, result) = device::run::<E, OpenPage>(OpenPage::begun(page), device);
            &&& result == Ok::<(), Error<E>>(())
            &&& after.flash == device::erased(device.flash, page.from(), page.to())
            &&& after.flash.len() == device.flash.len()
            &&& reads_erased(after.flash, page.from(), page.to())
            &&& same_outside(device.flash, after.flash, page.from(), page.to())
            &&& after.cache == cache_told(device, page_index, PageState::Open)
            &&& device::page_state_in(after.flash, page) == Some(PageState::Open)
            &&& device::same_elsewhere(layout, page_index, device.flash, after.flash)
            &&& after.consistent(layout)
            &&& after.dirty
        }),
{
    lemma_pages_usable(layout, device.flash);
    assert(layout.at(page_index).index == page_index);
    reveal_with_fuel(device::run, 3);
    lemma_erased_page_is_open(layout, page_index, device.flash);
}

/// Partially closing a page is getting its state, then as that asks for.
proof fn lemma_partial_close_after_get_state<E>(partial: PartialClosePage, device: Device)
    requires
        partial.phase is GetState,
        Operation::<E>::wf(&partial),
    ensures
        ({
            let get = partial.phase->GetState_0;
            let (between, result) = device::run::<E, GetPageState>(get, device);
            device::run::<E, PartialClosePage>(partial, device) == match result {
                Ok(PageState::Open) => device::run::<E, PartialClosePage>(
                    PartialClosePage { phase: PartialClosePagePhase::Notice, ..partial },
                    between,
                ),
                result => (between, result),
            }
        }),
    decreases Operation::<E>::remaining(&partial),
{
    let get = partial.phase->GetState_0;
    let (next_device, reply) = device.answer::<E>(Operation::<E>::asks(&get));
    Operation::<E>::progress(get, reply);
    Operation::<E>::progress(partial, reply);
    match get.after(reply) {
        Step::Pending(next) => lemma_partial_close_after_get_state::<E>(
            PartialClosePage { phase: PartialClosePagePhase::GetState(next), ..partial },
            next_device,
        ),
        Step::Finished(_) => {},
    }
}

/// Partially closing an open page writes its start marker and nothing else: the page is partially
/// open then and records the storage's version. A page in another state is left as it is, and its
/// state reported; a corrupted one is reported as corrupted.
pub proof fn law_partial_close_page<E>(
    layout: FlashLayout,
    page_index: int,
    version: StorageVersion,
    device: Device,
)
    requires
        layout.divides(device.flash),
        0 <= page_index < layout.pages(),
        device.consistent(layout),
    ensures
        ({
            let page = layout.at(page_index);
            let (after, result) = device::run::<E, PartialClosePage>(
                PartialClosePage::begun(page, version),
                device,
            );
            &&& device::same_elsewhere(layout, page_index, device.flash, after.flash)
            &&& after.consistent(layout)
            &&& after.cached_pages == device.cached_pages
            &&& match device::page_state_in(device.flash, page) {
                Some(PageState::Open) => {
                    &&& result == Ok::<_, Error<E>>(PageState::PartialOpen)
                    &&& after.flash == device::written(
                        device.flash,
                        page.from(),
                        version.start_marker(layout.geometry.start_marker()),
                    )
                    &&& device::page_state_in(after.flash, page) == Some(PageState::PartialOpen)
                    &&& device::version_in(after.flash, page) == Ok::<_, ()>(Some(version))
                    &&& after.dirty
                    &&& after.cache == cache_told(device, page_index, PageState::PartialOpen)
                },
                Some(state) => result == Ok::<_, Error<E>>(state) && after.flash == device.flash
                    && after.dirty == device.dirty && after.cache == cache_told(
                    device,
                    page_index,
                    state,
                ),
                None => result == Err::<PageState, _>(Error::<E>::Corrupted) && after.flash
                    == device.flash,
            }
        }),
{
    lemma_pages_usable(layout, device.flash);
    law_get_page_state::<E>(layout, page_index, device);
    lemma_partial_close_after_get_state::<E>(
        PartialClosePage::begun(layout.at(page_index), version),
        device,
    );
    reveal_with_fuel(device::run, 3);
    if device::page_state_in(device.flash, layout.at(page_index)) == Some(PageState::Open) {
        lemma_started_page_is_partial_open(layout, page_index, version, device.flash);
        assert(layout.at(page_index).index == page_index);
        assert(device.cache.insert(page_index, PageState::Open).insert(
            page_index,
            PageState::PartialOpen,
        ) =~= device.cache.insert(page_index, PageState::PartialOpen));
    }
}

/// Closing a page is partially closing it, then as its state asks for.
proof fn lemma_close_after_partial_close<E>(close: ClosePage, device: Device)
    requires
        close.phase is PartialClose,
        Operation::<E>::wf(&close),
    ensures
        ({
            let partial = close.phase->PartialClose_0;
            let (between, result) = device::run::<E, PartialClosePage>(partial, device);
            device::run::<E, ClosePage>(close, device) == match result {
                Ok(PageState::PartialOpen) => device::run::<E, ClosePage>(
                    ClosePage { phase: ClosePagePhase::Notice, ..close },
                    between,
                ),
                Ok(_) => (between, Ok(())),
                Err(error) => (between, Err(error)),
            }
        }),
    decreases Operation::<E>::remaining(&close),
{
    let partial = close.phase->PartialClose_0;
    let (next_device, reply) = device.answer::<E>(Operation::<E>::asks(&partial));
    Operation::<E>::progress(partial, reply);
    Operation::<E>::progress(close, reply);
    match partial.after(reply) {
        Step::Pending(next) => lemma_close_after_partial_close::<E>(
            ClosePage { phase: ClosePagePhase::PartialClose(next), ..close },
            next_device,
        ),
        Step::Finished(_) => {},
    }
}

/// Once a page is partially open, closing it tells the cache and writes the end marker.
proof fn lemma_end_marker_is_written<E>(close: ClosePage, device: Device)
    requires
        close.phase == ClosePagePhase::Notice,
        Operation::<E>::wf(&close),
    ensures
        device::run::<E, ClosePage>(close, device) == (
            Device {
                flash: device::written(
                    device.flash,
                    close.page.to() - close.page.layout.geometry.word(),
                    marker::marker_bytes(close.page.layout.geometry.word()),
                ),
                cache: cache_told(device, close.page.index as int, PageState::Closed),
                dirty: true,
                ..device
            },
            Ok::<(), Error<E>>(()),
        ),
{
    reveal_with_fuel(device::run, 3);
}

/// The flash after a page in the given state was closed: the markers that it lacks were written,
/// and nothing else.
pub open spec fn closed(
    flash: Seq<u8>,
    page: FlashPage,
    version: StorageVersion,
    state: PageState,
) -> Seq<u8> {
    let geometry = page.layout.geometry;
    let end_marker = page.to() - geometry.word();
    match state {
        PageState::Open => device::written(
            device::written(flash, page.from(), version.start_marker(geometry.start_marker())),
            end_marker,
            marker::marker_bytes(geometry.word()),
        ),
        PageState::PartialOpen => device::written(
            flash,
            end_marker,
            marker::marker_bytes(geometry.word()),
        ),
        PageState::Closed => flash,
    }
}

/// Closing a page seals it, from whatever state, by writing the markers that it lacks and nothing
/// else: the page is closed then, under the version that it was written under before, or the
/// storage's version if it was open. A closed page is left as it is; a corrupted one too, and it is
/// reported as corrupted.
pub proof fn law_close_page<E>(
    layout: FlashLayout,
    page_index: int,
    version: StorageVersion,
    device: Device,
)
    requires
        layout.divides(device.flash),
        0 <= page_index < layout.pages(),
        device.consistent(layout),
    ensures
        ({
            let page = layout.at(page_index);
            let (after, result) = device::run::<E, ClosePage>(
                ClosePage::begun(page, version),
                device,
            );
            &&& device::same_elsewhere(layout, page_index, device.flash, after.flash)
            &&& after.consistent(layout)
            &&& match device::page_state_in(device.flash, page) {
                Some(state) => {
                    &&& result == Ok::<(), Error<E>>(())
                    &&& after.flash == closed(device.flash, page, version, state)
                    &&& device::page_state_in(after.flash, page) == Some(PageState::Closed)
                    &&& state == PageState::Open ==> device::version_in(after.flash, page) == Ok::<
                        _,
                        (),
                    >(Some(version))
                    &&& state != PageState::Open ==> device::version_in(after.flash, page)
                        == device::version_in(device.flash, page)
                    &&& state != PageState::Closed ==> after.dirty
                    &&& state == PageState::Closed ==> after.dirty == device.dirty
                    &&& after.cache == cache_told(device, page_index, PageState::Closed)
                },
                None => result == Err::<(), _>(Error::<E>::Corrupted) && after.flash
                    == device.flash,
            }
        }),
{
    let page = layout.at(page_index);
    let begun = ClosePage::begun(page, version);
    let ending = ClosePage { phase: ClosePagePhase::Notice, ..begun };
    let state = device::page_state_in(device.flash, page);
    lemma_pages_usable(layout, device.flash);
    assert(page.index == page_index);
    law_partial_close_page::<E>(layout, page_index, version, device);
    lemma_close_after_partial_close::<E>(begun, device);
    let between = device::run::<E, PartialClosePage>(
        PartialClosePage::begun(page, version),
        device,
    ).0;
    lemma_end_marker_is_written::<E>(ending, between);
    assert(device.cache.insert(page_index, PageState::PartialOpen).insert(
        page_index,
        PageState::Closed,
    ) =~= device.cache.insert(page_index, PageState::Closed));
    if state == Some(PageState::Open) {
        lemma_started_page_is_partial_open(layout, page_index, version, device.flash);
        lemma_ended_page_is_closed(layout, page_index, between.flash);
    } else if state == Some(PageState::PartialOpen) {
        lemma_ended_page_is_closed(layout, page_index, device.flash);
    }
}

/// Closing a page changes no byte but those of its markers. All bytes of the page's last word are
/// zero then, unless the page was closed before; the start marker of an open page is that of the
/// storage's version then, and any other start marker is as before.
pub proof fn law_close_page_writes_markers<E>(
    layout: FlashLayout,
    page_index: int,
    version: StorageVersion,
    device: Device,
)
    requires
        layout.divides(device.flash),
        0 <= page_index < layout.pages(),
        device.consistent(layout),
    ensures
        ({
            let page = layout.at(page_index);
            let behind_start = page.from() + layout.geometry.start_marker();
            let end = page.to() - layout.geometry.word();
            let state = device::page_state_in(device.flash, page);
            let flash = device::run::<E, ClosePage>(ClosePage::begun(page, version), device).0.flash;
            &&& flash.len() == device.flash.len()
            &&& forall|address: int|
                0 <= address < flash.len() && !(page.from() <= address < behind_start) && !(end
                    <= address < page.to()) ==> #[trigger] flash[address] == device.flash[address]
            &&& forall|address: int|
                end <= address < page.to() ==> #[trigger] flash[address] == if state is None
                    || state == Some(PageState::Closed) {
                    device.flash[address]
                } else {
                    0
                }
            &&& if state == Some(PageState::Open) {
                flash.subrange(page.from(), behind_start) == version.start_marker(
                    layout.geometry.start_marker(),
                )
            } else {
                flash.subrange(page.from(), behind_start) == device.flash.subrange(
                    page.from(),
                    behind_start,
                )
            }
        }),
{
    let page = layout.at(page_index);
    let len = layout.geometry.start_marker();
    let end = page.to() - layout.geometry.word();
    let state = device::page_state_in(device.flash, page);
    let flash = device::run::<E, ClosePage>(ClosePage::begun(page, version), device).0.flash;
    law_close_page::<E>(layout, page_index, version, device);
    lemma_pages_usable(layout, device.flash);
    lemma_page_bytes_apart(layout, page_index, device.flash);
    lemma_and_with_erased_and_marker();
    assert(0 <= page.from() && page.from() + len <= end && page.to() <= device.flash.len());
    if state == Some(PageState::Open) {
        law_partial_close_page::<E>(layout, page_index, version, device);
        lemma_open_page_takes_start_marker(layout, page_index, version, device.flash);
        let started = device::written(device.flash, page.from(), version.start_marker(len));
        assert(flash.subrange(page.from(), page.from() + len) =~= started.subrange(
            page.from(),
            page.from() + len,
        ));
    } else {
        assert(flash.subrange(page.from(), page.from() + len) =~= device.flash.subrange(
            page.from(),
            page.from() + len,
        ));
    }
}

/// The start marker that is written to an open page stands there as it was written.
proof fn lemma_open_page_takes_start_marker(
    layout: FlashLayout,
    page_index: int,
    version: StorageVersion,
    flash: Seq<u8>,
)
    requires
        layout.divides(flash),
        0 <= page_index < layout.pages(),
        device::page_state_in(flash, layout.at(page_index)) == Some(PageState::Open),
    ensures
        ({
            let page = layout.at(page_index);
            let len = layout.geometry.start_marker();
            device::written(flash, page.from(), version.start_marker(len)).subrange(
                page.from(),
                page.from() + len,
            ) == version.start_marker(len)
        }),
{
    let page = layout.at(page_index);
    let len = layout.geometry.start_marker();
    let start_marker = version.start_marker(len);
    let after = device::written(flash, page.from(), start_marker);
    lemma_pages_usable(layout, flash);
    lemma_page_bytes_apart(layout, page_index, flash);
    lemma_and_with_erased_and_marker();
    law_page_state_stands_in_markers(layout, page_index, flash);
    assert(start_marker[0] == MARKER);
    assert forall|i: int| 0 <= i < len implies after.subrange(page.from(), page.from() + len)[i]
        == start_marker[i] by {
        if i > 0 {
            assert(flash[page.from() + i] == 0xFF);
        }
    }
    assert(after.subrange(page.from(), page.from() + len) =~= start_marker);
}

} // verus!
