//! The storage that queues and maps are built on: its pages and their states.

use vstd::prelude::*;

use core::ops::Range;

use crate::flash_layout;
use crate::flash_layout::{FlashLayout, StorageVersion};
use crate::geometry::FlashGeometry;
use crate::operation::Operation;
use crate::page_state::PageState;
use crate::storage::pages::{
    ClosePage, ClosePagePhase, GetPageState, GetPageStatePhase, OpenPage, OpenPagePhase,
    PartialClosePage, PartialClosePagePhase,
};
use crate::storage::report::{PrintItems, ReportView};
use crate::storage::search::{FindFirstPage, TryGeneralRepair, TryGeneralRepairPhase};
use crate::storage::verify::{EraseAll, Verify, VerifyPhase, VersionPolicy};

pub mod auto_repair;
pub mod fault_laws;
pub mod page_laws;
pub mod pages;
pub mod report;
pub mod report_laws;
pub mod request_laws;
pub mod search;
pub mod search_laws;
pub mod stop_laws;
pub mod verify;
pub mod verify_laws;

verus! {

/// Flash capability required for logically deleting stored items.
///
/// In the flash format without tombstones, deletion rewrites an existing item header: only flash
/// whose words can be written twice is like that. In the format with tombstones every flash is,
/// because deletion writes a reserved, previously-erased tombstone word.
pub trait DeletableFlash {

}

/// The generic object that manages the flash.
///
/// Its operations do not touch the flash and the cache: they say, step by step, what is to be
/// done with them (see [`Operation`](crate::operation::Operation)).
///
/// You can [`Self::destroy`] this type to get back the flash and the cache.
#[derive(Debug)]
pub struct GenericStorage<F, C> {
    pub flash: F,
    /// The sizes of the flash.
    pub geometry: FlashGeometry,
    pub flash_range: Range<u32>,
    pub cache: C,
    pub version: StorageVersion,
}

impl<F, C> GenericStorage<F, C> {
    /// The layout of the flash range.
    pub open spec fn pages_layout(&self) -> FlashLayout {
        FlashLayout {
            start: self.flash_range.start,
            end: self.flash_range.end,
            geometry: self.geometry,
        }
    }

    /// Resets the flash in the entire given flash range.
    pub fn erase_all(&self) -> (operation: EraseAll)
        ensures
            operation == (EraseAll { layout: self.pages_layout() }),
    {
        EraseAll { layout: self.layout() }
    }

    /// Erase again the pages that are corrupted.
    pub fn try_general_repair(&self) -> (operation: TryGeneralRepair)
        ensures
            operation == TryGeneralRepair::begun(self.pages_layout()),
    {
        let layout = self.layout();
        TryGeneralRepair {
            layout,
            page_index: 0,
            phase: TryGeneralRepairPhase::GetState(
                GetPageState { page: layout.page(0), phase: GetPageStatePhase::Lookup },
            ),
        }
    }

    /// Find the first page that is in the given page state.
    ///
    /// The search starts at `starting_page_index` (and wraps around back to 0 if required).
    pub fn find_first_page(&self, starting_page_index: usize, page_state: PageState) -> (operation:
        FindFirstPage)
        requires
            self.pages_layout().countable(),
            starting_page_index + self.pages_layout().pages() - 1 <= usize::MAX,
        ensures
            operation == FindFirstPage::begun(
                self.pages_layout(),
                starting_page_index,
                page_state,
            ),
    {
        let layout = self.layout();
        let page_index: usize = layout.page_from(starting_page_index, 0);
        FindFirstPage {
            layout,
            starting_page_index,
            page_state,
            visited: 0,
            get: GetPageState { page: layout.page(page_index), phase: GetPageStatePhase::Lookup },
        }
    }

    /// The layout of the flash range.
    pub fn layout(&self) -> (layout: FlashLayout)
        ensures
            layout == self.pages_layout(),
    {
        FlashLayout::new(self.flash_range.start..self.flash_range.end, self.geometry)
    }

    /// Get all pages in the flash range from the given start to end (that might wrap back to 0).
    pub fn get_pages(&self, starting_page_index: usize) -> (page_indices: Vec<usize>)
        requires
            self.pages_layout().countable(),
            starting_page_index + self.pages_layout().pages() - 1 <= usize::MAX,
        ensures
            page_indices@ == self.pages_layout().page_order(starting_page_index as int),
    {
        self.layout().pages_from(starting_page_index)
    }

    /// Get the next page index (wrapping around to 0 if required).
    pub fn next_page(&self, page_index: usize) -> (next: usize)
        requires
            self.pages_layout().countable(),
            page_index < usize::MAX,
        ensures
            next == self.pages_layout().next_index(page_index as int),
    {
        self.layout().next_page_index(page_index)
    }

    /// Get the previous page index (wrapping around to the biggest page if required).
    pub fn previous_page(&self, page_index: usize) -> (previous: usize)
        requires
            page_index == 0 ==> self.pages_layout().countable(),
        ensures
            previous == self.pages_layout().previous_index(page_index as int),
    {
        self.layout().previous_page_index(page_index)
    }

    /// Get the state of the page located at the given index.
    pub fn get_page_state(&self, page_index: usize) -> (operation: GetPageState)
        ensures
            operation == GetPageState::begun(self.pages_layout().at(page_index as int)),
    {
        GetPageState { page: self.layout().page(page_index), phase: GetPageStatePhase::Lookup }
    }

    /// Erase the page to open it again.
    pub fn open_page(&self, page_index: usize) -> (operation: OpenPage)
        ensures
            operation == OpenPage::begun(self.pages_layout().at(page_index as int)),
    {
        OpenPage { page: self.layout().page(page_index), phase: OpenPagePhase::Notice }
    }

    /// Fully closes a page by writing both the start and end marker.
    pub fn close_page(&self, page_index: usize) -> (operation: ClosePage)
        ensures
            operation == ClosePage::begun(self.pages_layout().at(page_index as int), self.version),
    {
        ClosePage {
            page: self.layout().page(page_index),
            phase: ClosePagePhase::PartialClose(self.partial_close_page(page_index)),
        }
    }

    /// Partially close a page by writing the start marker.
    pub fn partial_close_page(&self, page_index: usize) -> (operation: PartialClosePage)
        ensures
            operation == PartialClosePage::begun(
                self.pages_layout().at(page_index as int),
                self.version,
            ),
    {
        PartialClosePage {
            page: self.layout().page(page_index),
            version: self.version,
            phase: PartialClosePagePhase::GetState(self.get_page_state(page_index)),
        }
    }

    /// Verify that all pages that are not erased were written under the storage's version.
    pub fn verify(&self, policy: VersionPolicy) -> (operation: Verify)
        ensures
            operation == Verify::begun(self.pages_layout(), self.version, policy),
    {
        Verify {
            layout: self.layout(),
            version: self.version,
            policy,
            phase: VerifyPhase::Invalidate,
        }
    }

    /// Print all items in flash to a string.
    pub fn print_items(&self) -> (report: PrintItems)
        ensures
            report@ == (ReportView {
                layout: self.pages_layout(),
                page: 0,
                text: report::first_line(),
            }),
    {
        PrintItems::begin(self.layout())
    }

    /// Destroy the instance to get back the flash and the cache.
    ///
    /// The cache can be passed to a new storage instance, but only for the same flash region and if nothing has changed in flash.
    pub fn destroy(self) -> (parts: (F, C))
        ensures
            parts == (self.flash, self.cache),
    {
        (self.flash, self.cache)
    }

    /// Get a reference to the flash. Mutating the memory is at your own risk.
    pub fn flash(&mut self) -> (flash: &mut F)
        ensures
            *flash == old(self).flash,
            *final(self) == (GenericStorage { flash: *final(flash), ..*old(self) }),
    {
        &mut self.flash
    }

    /// Get the flash range being used.
    pub fn flash_range(&self) -> (range: Range<u32>)
        ensures
            range == self.flash_range,
    {
        self.flash_range.start..self.flash_range.end
    }
}

/// A storage lies in its flash range, on flash of its sizes.
pub proof fn law_layout_of_a_storage<F, C>(storage: GenericStorage<F, C>)
    ensures
        storage.pages_layout().start == storage.flash_range.start,
        storage.pages_layout().end == storage.flash_range.end,
        storage.pages_layout().geometry == storage.geometry,
{
}

/// All operations on a storage whose pages can be used can be begun.
pub proof fn law_operations_can_begin<E>(
    layout: FlashLayout,
    page_index: int,
    starting_page_index: usize,
    page_state: PageState,
    version: StorageVersion,
    policy: VersionPolicy,
)
    requires
        layout.usable(),
        0 <= page_index < layout.pages(),
        starting_page_index + layout.pages() - 1 <= usize::MAX,
    ensures
        Operation::<E>::wf(&GetPageState::begun(layout.at(page_index))),
        Operation::<E>::wf(&OpenPage::begun(layout.at(page_index))),
        Operation::<E>::wf(&PartialClosePage::begun(layout.at(page_index), version)),
        Operation::<E>::wf(&ClosePage::begun(layout.at(page_index), version)),
        Operation::<E>::wf(&FindFirstPage::begun(layout, starting_page_index, page_state)),
        Operation::<E>::wf(&TryGeneralRepair::begun(layout)),
        Operation::<E>::wf(&Verify::begun(layout, version, policy)),
        Operation::<E>::wf(&EraseAll { layout }),
{
    let order = layout.page_order(starting_page_index as int);
    flash_layout::law_every_page_visited_once(layout, starting_page_index as int);
    assert(order.contains(order[0]));
    assert(layout.at(order[0] as int).usable());
    assert(layout.at(0).usable());
}

} // verus!
