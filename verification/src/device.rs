//! A flash and a cache that answer requests faithfully, as operations are meant to find them.

use vstd::prelude::*;

use crate::error::Error;
use crate::flash_layout;
use crate::flash_layout::{FlashLayout, FlashPage, StorageVersion};
use crate::marker;
use crate::marker::ERASED;
use crate::operation::{Operation, ReplyView, RequestView, Step};
use crate::page_state;
use crate::page_state::PageState;

verus! {

/// What an operation works on.
pub struct Device {
    /// The bytes of the flash.
    pub flash: Seq<u8>,
    /// The page states that the cache holds.
    pub cache: Map<int, PageState>,
    /// The pages whose state the cache holds once it was told.
    pub cached_pages: Set<int>,
    /// Whether the cache was told that the flash is about to be changed.
    pub dirty: bool,
}

/// The flash after an erase.
pub open spec fn erased(flash: Seq<u8>, from: int, to: int) -> Seq<u8> {
    Seq::new(
        flash.len(),
        |address: int|
            if from <= address < to {
                ERASED
            } else {
                flash[address]
            },
    )
}

/// The flash after a write, which can only change one bits to zero bits.
pub open spec fn written(flash: Seq<u8>, offset: int, data: Seq<u8>) -> Seq<u8> {
    Seq::new(
        flash.len(),
        |address: int|
            if offset <= address < offset + data.len() {
                flash[address] & data[address - offset]
            } else {
                flash[address]
            },
    )
}

impl Device {
    /// What comes of a request where nothing fails.
    pub open spec fn answer<E>(self, request: RequestView) -> (Device, ReplyView<E>) {
        match request {
            RequestView::LookupPageState { page_index } => (
                self,
                ReplyView::CachedPageState(
                    if self.cache.dom().contains(page_index as int) {
                        Some(self.cache[page_index as int])
                    } else {
                        None
                    },
                ),
            ),
            RequestView::NoticePageState { page_index, state, dirty } => (
                Device {
                    cache: if self.cached_pages.contains(page_index as int) {
                        self.cache.insert(page_index as int, state)
                    } else {
                        self.cache
                    },
                    dirty: self.dirty || dirty,
                    ..self
                },
                ReplyView::Noted,
            ),
            RequestView::InvalidateCacheState => (
                Device { cache: Map::empty(), dirty: false, ..self },
                ReplyView::Noted,
            ),
            RequestView::Read { offset, len } => (
                self,
                ReplyView::Read(Ok(self.flash.subrange(offset, offset + len))),
            ),
            RequestView::Write { offset, data } => (
                Device { flash: written(self.flash, offset, data), ..self },
                ReplyView::Changed(Ok(())),
            ),
            RequestView::Erase { from, to } => (
                Device { flash: erased(self.flash, from, to), ..self },
                ReplyView::Changed(Ok(())),
            ),
        }
    }

    /// What the cache holds is what the flash says.
    pub open spec fn consistent(self, layout: FlashLayout) -> bool {
        forall|i: int|
            0 <= i < layout.pages() && #[trigger] self.cache.dom().contains(i)
                ==> self.cached_pages.contains(i) && page_state_in(self.flash, layout.at(i))
                == Some(self.cache[i])
    }
}

impl Device {
    /// The cache tells the truth, or knows that it might not.
    pub open spec fn trustworthy(self, layout: FlashLayout) -> bool {
        self.dirty || self.consistent(layout)
    }
}

/// How an operation leaves the device that is stopped after some replies, if it is not done by
/// then.
pub open spec fn stopped<E, M: Operation<E>>(operation: M, device: Device, replies: nat) -> Device
    decreases replies,
{
    if replies == 0 {
        device
    } else {
        let (next_device, reply) = device.answer::<E>(operation.asks());
        match operation.after(reply) {
            Step::Finished(_) => next_device,
            Step::Pending(next) => stopped::<E, M>(next, next_device, (replies - 1) as nat),
        }
    }
}

/// What comes of an operation that is driven to its end, and how it leaves the device.
pub open spec fn run<E, M: Operation<E>>(operation: M, device: Device) -> (
    Device,
    Result<M::Value, Error<E>>,
)
    decreases operation.remaining(),
    when operation.wf()
{
    let (next_device, reply) = device.answer::<E>(operation.asks());
    proof {
        operation.progress(reply);
    }
    match operation.after(reply) {
        Step::Finished(result) => (next_device, result),
        Step::Pending(next) => run(next, next_device),
    }
}

/// What the flash says of the version that a page was written under.
pub open spec fn version_in(flash: Seq<u8>, page: FlashPage) -> Result<Option<StorageVersion>, ()> {
    flash_layout::page_start_status(
        flash.subrange(page.from(), page.from() + page.layout.geometry.start_marker()),
    )
}

/// Whether the flash says that a page's end marker is set.
pub open spec fn end_marked_in(flash: Seq<u8>, page: FlashPage) -> bool {
    let end_marker = page.to() - page.layout.geometry.word();
    marker::is_marker_word(flash.subrange(end_marker, end_marker + page.layout.geometry.read_size))
}

/// What the flash says of a page's state; nothing, if the page is corrupted.
pub open spec fn page_state_in(flash: Seq<u8>, page: FlashPage) -> Option<PageState> {
    match version_in(flash, page) {
        Ok(version) => page_state::state_of_markers(version is Some, end_marked_in(flash, page)),
        Err(()) => None,
    }
}

/// The flash says the same of all pages but one.
pub open spec fn same_elsewhere(
    layout: FlashLayout,
    page_index: int,
    flash: Seq<u8>,
    other: Seq<u8>,
) -> bool {
    forall|i: int|
        #![trigger layout.at(i)]
        0 <= i < layout.pages() && i != page_index ==> version_in(flash, layout.at(i))
            == version_in(other, layout.at(i)) && page_state_in(flash, layout.at(i))
            == page_state_in(other, layout.at(i))
}

impl FlashLayout {
    /// The layout divides a part of the flash in whole pages whose markers do not overlap and can
    /// be read. Its one page may reach beyond the range, if the range is shorter than a page.
    pub open spec fn divides(&self, flash: Seq<u8>) -> bool {
        &&& self.geometry.compatible()
        &&& self.geometry.bufferable()
        &&& self.geometry.read_size > 0
        &&& self.geometry.start_marker() + self.geometry.word() <= self.geometry.erase_size
        &&& self.start <= self.end <= flash.len()
        &&& self.start + self.geometry.erase_size * self.pages() <= flash.len()
        &&& self.start + self.geometry.erase_size * self.pages() <= u32::MAX
    }

    /// The range holds a whole page at least, so that all pages lie whole in it.
    pub open spec fn holds_pages(&self) -> bool {
        self.start + self.geometry.erase_size <= self.end
    }
}

/// An operation is done after as many replies as it says at most.
pub proof fn law_operation_ends<E, M: Operation<E>>(operation: M, device: Device, replies: nat)
    requires
        operation.wf(),
        operation.remaining() <= replies,
    ensures
        stopped::<E, M>(operation, device, replies) == run::<E, M>(operation, device).0,
    decreases replies,
{
    let (next_device, reply) = device.answer::<E>(operation.asks());
    operation.progress(reply);
    if let Step::Pending(next) = operation.after(reply) {
        law_operation_ends::<E, M>(next, next_device, (replies - 1) as nat);
    }
}

} // verus!
