//! What holds of a storage's operations that are stopped between any two requests.
//!
//! An operation may be cancelled. The cache is never left to tell something else than the flash
//! without knowing: it was told before that the flash is about to be changed.

use vstd::prelude::*;

use crate::device;
use crate::device::Device;
use crate::flash_layout;
use crate::flash_layout::{FlashLayout, StorageVersion};
use crate::operation::{Operation, Step};
use crate::page_state::PageState;
use crate::storage::page_laws;
use crate::storage::pages::{
    ClosePage, ClosePagePhase, GetPageState, GetPageStatePhase, OpenPage, PartialClosePage,
    PartialClosePagePhase,
};
use crate::storage::search::{FindFirstPage, TryGeneralRepair, TryGeneralRepairPhase};
use crate::storage::verify::{Verify, VersionPolicy};

verus! {

/// What getting a page's state has learnt is what the flash says.
spec fn get_informed(get: GetPageState, layout: FlashLayout, device: Device) -> bool {
    &&& layout.divides(device.flash)
    &&& 0 <= get.page.index < layout.pages()
    &&& get.page == layout.at(get.page.index as int)
    &&& match get.phase {
        GetPageStatePhase::Lookup | GetPageStatePhase::ReadStart => true,
        GetPageStatePhase::ReadEnd { start_marked } => device::version_in(
            device.flash,
            get.page,
        ) matches Ok(version) && (version is Some) == start_marked,
        GetPageStatePhase::Notice { state } => device::page_state_in(device.flash, get.page)
            == Some(state),
    }
}

proof fn lemma_get_step<E>(get: GetPageState, layout: FlashLayout, device: Device)
    requires
        get_informed(get, layout, device),
        device.trustworthy(layout),
    ensures
        ({
            let (next_device, reply) = device.answer::<E>(Operation::<E>::asks(&get));
            &&& next_device.flash == device.flash
            &&& next_device.trustworthy(layout)
            &&& next_device.dirty == device.dirty
            &&& get.after(reply) matches Step::Pending(next) ==> next.page == get.page
                && get_informed(next, layout, next_device)
        }),
{
    page_laws::lemma_pages_usable(layout, device.flash);
}

/// Where opening a page has come to, the flash may only be changed once the cache is told.
spec fn open_announced(open: OpenPage, layout: FlashLayout, device: Device) -> bool {
    &&& layout.divides(device.flash)
    &&& 0 <= open.page.index < layout.pages()
    &&& open.page == layout.at(open.page.index as int)
    &&& device.trustworthy(layout)
    &&& open.phase is Erase ==> device.dirty
}

proof fn lemma_open_step<E>(open: OpenPage, layout: FlashLayout, device: Device)
    requires
        open_announced(open, layout, device),
    ensures
        ({
            let (next_device, reply) = device.answer::<E>(Operation::<E>::asks(&open));
            &&& layout.divides(next_device.flash)
            &&& next_device.trustworthy(layout)
            &&& device.dirty ==> next_device.dirty
            &&& open.after(reply) matches Step::Pending(next) ==> next.page == open.page
                && open_announced(next, layout, next_device)
        }),
{
}

/// Where partially closing a page has come to, the flash may only be changed once the cache is
/// told.
spec fn partial_announced(partial: PartialClosePage, layout: FlashLayout, device: Device) -> bool {
    &&& layout.divides(device.flash)
    &&& 0 <= partial.page.index < layout.pages()
    &&& partial.page == layout.at(partial.page.index as int)
    &&& device.trustworthy(layout)
    &&& match partial.phase {
        PartialClosePagePhase::GetState(get) => get.page == partial.page && get_informed(
            get,
            layout,
            device,
        ),
        PartialClosePagePhase::Notice => true,
        PartialClosePagePhase::WriteStart => device.dirty,
    }
}

proof fn lemma_partial_step<E>(partial: PartialClosePage, layout: FlashLayout, device: Device)
    requires
        partial_announced(partial, layout, device),
    ensures
        ({
            let (next_device, reply) = device.answer::<E>(Operation::<E>::asks(&partial));
            &&& layout.divides(next_device.flash)
            &&& next_device.trustworthy(layout)
            &&& partial.after(reply) matches Step::Pending(next) ==> next.page == partial.page
                && partial_announced(next, layout, next_device)
        }),
{
    if let PartialClosePagePhase::GetState(get) = partial.phase {
        lemma_get_step::<E>(get, layout, device);
    }
}

/// Where closing a page has come to, the flash may only be changed once the cache is told.
spec fn close_announced(close: ClosePage, layout: FlashLayout, device: Device) -> bool {
    &&& layout.divides(device.flash)
    &&& 0 <= close.page.index < layout.pages()
    &&& close.page == layout.at(close.page.index as int)
    &&& device.trustworthy(layout)
    &&& match close.phase {
        ClosePagePhase::PartialClose(partial) => partial.page == close.page && partial_announced(
            partial,
            layout,
            device,
        ),
        ClosePagePhase::Notice => true,
        ClosePagePhase::WriteEnd => device.dirty,
    }
}

proof fn lemma_close_step<E>(close: ClosePage, layout: FlashLayout, device: Device)
    requires
        close_announced(close, layout, device),
    ensures
        ({
            let (next_device, reply) = device.answer::<E>(Operation::<E>::asks(&close));
            &&& layout.divides(next_device.flash)
            &&& next_device.trustworthy(layout)
            &&& close.after(reply) matches Step::Pending(next) ==> close_announced(
                next,
                layout,
                next_device,
            )
        }),
{
    if let ClosePagePhase::PartialClose(partial) = close.phase {
        lemma_partial_step::<E>(partial, layout, device);
    }
}

proof fn lemma_close_stopped<E>(
    close: ClosePage,
    layout: FlashLayout,
    device: Device,
    replies: nat,
)
    requires
        close_announced(close, layout, device),
    ensures
        device::stopped::<E, ClosePage>(close, device, replies).trustworthy(layout),
    decreases replies,
{
    if replies > 0 {
        lemma_close_step::<E>(close, layout, device);
        let (next_device, reply) = device.answer::<E>(Operation::<E>::asks(&close));
        if let Step::Pending(next) = close.after(reply) {
            lemma_close_stopped::<E>(next, layout, next_device, (replies - 1) as nat);
        }
    }
}

proof fn lemma_partial_stopped<E>(
    partial: PartialClosePage,
    layout: FlashLayout,
    device: Device,
    replies: nat,
)
    requires
        partial_announced(partial, layout, device),
    ensures
        device::stopped::<E, PartialClosePage>(partial, device, replies).trustworthy(layout),
    decreases replies,
{
    if replies > 0 {
        lemma_partial_step::<E>(partial, layout, device);
        let (next_device, reply) = device.answer::<E>(Operation::<E>::asks(&partial));
        if let Step::Pending(next) = partial.after(reply) {
            lemma_partial_stopped::<E>(next, layout, next_device, (replies - 1) as nat);
        }
    }
}

proof fn lemma_open_stopped<E>(open: OpenPage, layout: FlashLayout, device: Device, replies: nat)
    requires
        open_announced(open, layout, device),
    ensures
        device::stopped::<E, OpenPage>(open, device, replies).trustworthy(layout),
    decreases replies,
{
    if replies > 0 {
        lemma_open_step::<E>(open, layout, device);
        let (next_device, reply) = device.answer::<E>(Operation::<E>::asks(&open));
        if let Step::Pending(next) = open.after(reply) {
            lemma_open_stopped::<E>(next, layout, next_device, (replies - 1) as nat);
        }
    }
}

proof fn lemma_get_stopped<E>(
    get: GetPageState,
    layout: FlashLayout,
    device: Device,
    replies: nat,
)
    requires
        get_informed(get, layout, device),
        device.trustworthy(layout),
    ensures
        device::stopped::<E, GetPageState>(get, device, replies).trustworthy(layout),
        device::stopped::<E, GetPageState>(get, device, replies).flash == device.flash,
    decreases replies,
{
    if replies > 0 {
        lemma_get_step::<E>(get, layout, device);
        let (next_device, reply) = device.answer::<E>(Operation::<E>::asks(&get));
        if let Step::Pending(next) = get.after(reply) {
            lemma_get_stopped::<E>(next, layout, next_device, (replies - 1) as nat);
        }
    }
}

/// Wherever getting a page's state is stopped, the flash is as before and the cache can be
/// trusted.
pub proof fn law_stopped_get_page_state<E>(
    layout: FlashLayout,
    page_index: int,
    device: Device,
    replies: nat,
)
    requires
        layout.divides(device.flash),
        0 <= page_index < layout.pages(),
        device.trustworthy(layout),
    ensures
        ({
            let stopped = device::stopped::<E, GetPageState>(
                GetPageState::begun(layout.at(page_index)),
                device,
                replies,
            );
            stopped.trustworthy(layout) && stopped.flash == device.flash
        }),
{
    page_laws::lemma_pages_usable(layout, device.flash);
    assert(layout.at(page_index).index == page_index);
    lemma_get_stopped::<E>(
        GetPageState::begun(layout.at(page_index)),
        layout,
        device,
        replies,
    );
}

/// Wherever opening or closing a page is stopped, the cache can be trusted.
pub proof fn law_stopped_change_of_page<E>(
    layout: FlashLayout,
    page_index: int,
    version: StorageVersion,
    device: Device,
    replies: nat,
)
    requires
        layout.divides(device.flash),
        0 <= page_index < layout.pages(),
        device.trustworthy(layout),
    ensures
        device::stopped::<E, OpenPage>(
            OpenPage::begun(layout.at(page_index)),
            device,
            replies,
        ).trustworthy(layout),
        device::stopped::<E, PartialClosePage>(
            PartialClosePage::begun(layout.at(page_index), version),
            device,
            replies,
        ).trustworthy(layout),
        device::stopped::<E, ClosePage>(
            ClosePage::begun(layout.at(page_index), version),
            device,
            replies,
        ).trustworthy(layout),
{
    let page = layout.at(page_index);
    page_laws::lemma_pages_usable(layout, device.flash);
    assert(page.index == page_index);
    lemma_open_stopped::<E>(OpenPage::begun(page), layout, device, replies);
    lemma_partial_stopped::<E>(PartialClosePage::begun(page, version), layout, device, replies);
    lemma_close_stopped::<E>(ClosePage::begun(page, version), layout, device, replies);
}

/// Where a repair has come to, the flash may only be changed once the cache is told.
spec fn repair_announced(repair: TryGeneralRepair, device: Device) -> bool {
    let layout = repair.layout;
    &&& layout.divides(device.flash)
    &&& repair.page_index < layout.pages()
    &&& device.trustworthy(layout)
    &&& match repair.phase {
        TryGeneralRepairPhase::GetState(get) => get_informed(get, layout, device),
        TryGeneralRepairPhase::Open(open) => open_announced(open, layout, device),
    }
}

proof fn lemma_repair_stopped<E>(repair: TryGeneralRepair, device: Device, replies: nat)
    requires
        repair_announced(repair, device),
    ensures
        device::stopped::<E, TryGeneralRepair>(repair, device, replies).trustworthy(
            repair.layout,
        ),
    decreases replies,
{
    if replies > 0 {
        let layout = repair.layout;
        let (next_device, reply) = device.answer::<E>(Operation::<E>::asks(&repair));
        page_laws::lemma_pages_usable(layout, device.flash);
        match repair.phase {
            TryGeneralRepairPhase::GetState(get) => lemma_get_step::<E>(get, layout, device),
            TryGeneralRepairPhase::Open(open) => lemma_open_step::<E>(open, layout, device),
        }
        if let Step::Pending(next) = repair.after(reply) {
            if repair.page_index + 1 < layout.pages() {
                assert(layout.at(repair.page_index + 1).index == repair.page_index + 1);
            }
            lemma_repair_stopped::<E>(next, next_device, (replies - 1) as nat);
        }
    }
}

/// Wherever a repair is stopped, the cache can be trusted.
pub proof fn law_stopped_repair<E>(layout: FlashLayout, device: Device, replies: nat)
    requires
        layout.divides(device.flash),
        device.trustworthy(layout),
    ensures
        device::stopped::<E, TryGeneralRepair>(
            TryGeneralRepair::begun(layout),
            device,
            replies,
        ).trustworthy(layout),
{
    page_laws::lemma_pages_usable(layout, device.flash);
    assert(layout.at(0).index == 0);
    lemma_repair_stopped::<E>(TryGeneralRepair::begun(layout), device, replies);
}

proof fn lemma_search_stopped<E>(search: FindFirstPage, device: Device, replies: nat)
    requires
        Operation::<E>::wf(&search),
        get_informed(search.get, search.layout, device),
        device.trustworthy(search.layout),
    ensures
        device::stopped::<E, FindFirstPage>(search, device, replies).trustworthy(search.layout),
        device::stopped::<E, FindFirstPage>(search, device, replies).flash == device.flash,
    decreases replies,
{
    if replies > 0 {
        let layout = search.layout;
        let start = search.starting_page_index as int;
        let (next_device, reply) = device.answer::<E>(Operation::<E>::asks(&search));
        page_laws::lemma_pages_usable(layout, device.flash);
        lemma_get_step::<E>(search.get, layout, device);
        Operation::<E>::progress(search, reply);
        if let Step::Pending(next) = search.after(reply) {
            flash_layout::law_every_page_visited_once(layout, start);
            assert(layout.page_order(start).contains(
                layout.page_order(start)[next.visited as int],
            ));
            lemma_search_stopped::<E>(next, next_device, (replies - 1) as nat);
        }
    }
}

/// Wherever a search is stopped, the flash is as before and the cache can be trusted.
pub proof fn law_stopped_search<E>(
    layout: FlashLayout,
    starting_page_index: usize,
    page_state: PageState,
    device: Device,
    replies: nat,
)
    requires
        layout.divides(device.flash),
        starting_page_index + layout.pages() - 1 <= usize::MAX,
        device.trustworthy(layout),
    ensures
        ({
            let stopped = device::stopped::<E, FindFirstPage>(
                FindFirstPage::begun(layout, starting_page_index, page_state),
                device,
                replies,
            );
            stopped.trustworthy(layout) && stopped.flash == device.flash
        }),
{
    let order = layout.page_order(starting_page_index as int);
    page_laws::lemma_pages_usable(layout, device.flash);
    flash_layout::law_every_page_visited_once(layout, starting_page_index as int);
    assert(order.contains(order[0]));
    assert(layout.at(order[0] as int).usable());
    lemma_search_stopped::<E>(
        FindFirstPage::begun(layout, starting_page_index, page_state),
        device,
        replies,
    );
}

proof fn lemma_verify_stopped<E>(verify: Verify, device: Device, replies: nat)
    requires
        verify.phase is Invalidate ==> device.trustworthy(verify.layout),
        !(verify.phase is Invalidate) ==> device.cache.dom() == Set::<int>::empty(),
    ensures
        device::stopped::<E, Verify>(verify, device, replies).trustworthy(verify.layout),
    decreases replies,
{
    if replies > 0 {
        let (next_device, reply) = device.answer::<E>(Operation::<E>::asks(&verify));
        assert(next_device.cache.dom() =~= Set::<int>::empty());
        if let Step::Pending(next) = verify.after(reply) {
            lemma_verify_stopped::<E>(next, next_device, (replies - 1) as nat);
        }
    }
}

/// Wherever a verification is stopped, the cache can be trusted.
pub proof fn law_stopped_verify<E>(
    layout: FlashLayout,
    version: StorageVersion,
    policy: VersionPolicy,
    device: Device,
    replies: nat,
)
    requires
        device.trustworthy(layout),
    ensures
        device::stopped::<E, Verify>(
            Verify::begun(layout, version, policy),
            device,
            replies,
        ).trustworthy(layout),
{
    lemma_verify_stopped::<E>(Verify::begun(layout, version, policy), device, replies);
}

} // verus!
