//! What holds of the search for a page and of the repair of pages, when they are driven to their
//! end on a flash that does not fail, with a cache that tells the truth.

use vstd::prelude::*;

use crate::device;
use crate::device::Device;
use crate::error::Error;
use crate::flash_layout;
use crate::flash_layout::FlashLayout;
use crate::marker;
use crate::operation::{Operation, Step};
use crate::page_state::PageState;
use crate::storage::page_laws;
use crate::storage::pages::{GetPageState, OpenPage};
use crate::storage::search::{FindFirstPage, TryGeneralRepair, TryGeneralRepairPhase};

verus! {

/// What the flash says of the page that a search visits as the `k`th.
pub open spec fn visited_state(
    flash: Seq<u8>,
    layout: FlashLayout,
    starting_page_index: int,
    k: int,
) -> Option<PageState> {
    device::page_state_in(
        flash,
        layout.at(layout.page_order(starting_page_index)[k] as int),
    )
}

/// The pages that a search visits before the `k`th are all in some state, none in the one that it
/// is for.
pub open spec fn passed_over(
    flash: Seq<u8>,
    layout: FlashLayout,
    starting_page_index: int,
    page_state: PageState,
    k: int,
) -> bool {
    forall|j: int|
        0 <= j < k ==> {
            let state = #[trigger] visited_state(flash, layout, starting_page_index, j);
            state is Some && state != Some(page_state)
        }
}

/// Searching a page is getting its state, then as that asks for.
proof fn lemma_search_after_get_state<E>(search: FindFirstPage, device: Device)
    requires
        Operation::<E>::wf(&search),
    ensures
        ({
            let (between, result) = device::run::<E, GetPageState>(search.get, device);
            device::run::<E, FindFirstPage>(search, device) == match result {
                Err(error) => (between, Err(error)),
                Ok(state) => if state == search.page_state {
                    (between, Ok(Some(search.get.page.index)))
                } else if search.visited + 1 < search.layout.pages() {
                    device::run::<E, FindFirstPage>(search.next_page(), between)
                } else {
                    (between, Ok(None))
                },
            }
        }),
    decreases Operation::<E>::remaining(&search),
{
    let (next_device, reply) = device.answer::<E>(Operation::<E>::asks(&search.get));
    Operation::<E>::progress(search.get, reply);
    Operation::<E>::progress(search, reply);
    match search.get.after(reply) {
        Step::Pending(next) => lemma_search_after_get_state::<E>(
            FindFirstPage { get: next, ..search },
            next_device,
        ),
        Step::Finished(_) => {},
    }
}

proof fn lemma_search_from<E>(search: FindFirstPage, device: Device)
    requires
        Operation::<E>::wf(&search),
        search.get == GetPageState::begun(search.get.page),
        search.layout.divides(device.flash),
        device.consistent(search.layout),
        passed_over(
            device.flash,
            search.layout,
            search.starting_page_index as int,
            search.page_state,
            search.visited as int,
        ),
    ensures
        found(
            search.layout,
            search.starting_page_index,
            search.page_state,
            device,
            device::run::<E, FindFirstPage>(search, device),
        ),
    decreases search.layout.pages() - search.visited,
{
    let start = search.starting_page_index as int;
    let order = search.layout.page_order(start);
    page_laws::lemma_pages_usable(search.layout, device.flash);
    flash_layout::law_every_page_visited_once(search.layout, start);
    assert(order.contains(order[search.visited as int]));
    let page_index = order[search.visited as int] as int;
    page_laws::law_get_page_state::<E>(search.layout, page_index, device);
    lemma_search_after_get_state::<E>(search, device);
    let (between, result) = device::run::<E, GetPageState>(search.get, device);
    let state = visited_state(device.flash, search.layout, start, search.visited as int);
    if state is Some && state != Some(search.page_state) && search.visited + 1
        < search.layout.pages() {
        let next = search.next_page();
        assert(order.contains(order[search.visited + 1]));
        assert(search.layout.at(order[search.visited + 1] as int).usable());
        lemma_search_from::<E>(next, between);
    }
}

/// What a search for a page in a state, from a page on, is to come to, and how it leaves the device.
pub open spec fn found<E>(
    layout: FlashLayout,
    starting_page_index: usize,
    page_state: PageState,
    device: Device,
    outcome: (Device, Result<Option<usize>, Error<E>>),
) -> bool {
    let flash = device.flash;
    let start = starting_page_index as int;
    &&& outcome.0.flash == flash
    &&& outcome.0.consistent(layout)
    &&& match outcome.1 {
        Ok(Some(page_index)) => exists|k: int|
            {
                &&& 0 <= k < layout.pages()
                &&& page_index == layout.page_order(start)[k]
                &&& #[trigger] visited_state(flash, layout, start, k) == Some(page_state)
                &&& passed_over(flash, layout, start, page_state, k)
            },
        Ok(None) => passed_over(flash, layout, start, page_state, layout.pages() as int),
        Err(error) => error is Corrupted && exists|k: int|
            {
                &&& 0 <= k < layout.pages()
                &&& #[trigger] visited_state(flash, layout, start, k) is None
                &&& passed_over(flash, layout, start, page_state, k)
            },
    }
}

/// The search finds the first page, from the start on and around, that is in the given state. It
/// finds none if no page is, and reports a corrupted page that it comes to before.
/// The flash is not changed, and the cache goes on telling the truth.
pub proof fn law_find_first_page<E>(
    layout: FlashLayout,
    starting_page_index: usize,
    page_state: PageState,
    device: Device,
)
    requires
        layout.divides(device.flash),
        starting_page_index + layout.pages() - 1 <= usize::MAX,
        device.consistent(layout),
    ensures
        ({
            let search = FindFirstPage::begun(layout, starting_page_index, page_state);
            found(
                layout,
                starting_page_index,
                page_state,
                device,
                device::run::<E, FindFirstPage>(search, device),
            )
        }),
{
    page_laws::lemma_pages_usable(layout, device.flash);
    let order = layout.page_order(starting_page_index as int);
    flash_layout::law_every_page_visited_once(layout, starting_page_index as int);
    assert(order.contains(order[0]));
    assert(layout.at(order[0] as int).usable());
    lemma_search_from::<E>(
        FindFirstPage::begun(layout, starting_page_index, page_state),
        device,
    );
}

/// A page that a search finds is in the given state. Of the pages between the start and it, going
/// round, none is. If a search finds none, no page is in the state, and none is corrupted.
pub proof fn law_found_page_is_the_first<E>(
    layout: FlashLayout,
    starting_page_index: usize,
    page_state: PageState,
    device: Device,
    between: int,
)
    requires
        layout.divides(device.flash),
        starting_page_index < layout.pages(),
        starting_page_index + layout.pages() - 1 <= usize::MAX,
        device.consistent(layout),
        0 <= between < layout.pages(),
    ensures
        ({
            let result = device::run::<E, FindFirstPage>(
                FindFirstPage::begun(layout, starting_page_index, page_state),
                device,
            ).1;
            let state = device::page_state_in(device.flash, layout.at(between));
            match result {
                Ok(Some(page_index)) => {
                    &&& page_index < layout.pages()
                    &&& device::page_state_in(device.flash, layout.at(page_index as int)) == Some(
                        page_state,
                    )
                    &&& between_round(starting_page_index as int, between, page_index as int)
                        ==> state is Some && state != Some(page_state)
                },
                Ok(None) => state is Some && state != Some(page_state),
                Err(error) => error is Corrupted,
            }
        }),
{
    let start = starting_page_index as int;
    let n = layout.pages() as int;
    let order = layout.page_order(start);
    law_find_first_page::<E>(layout, starting_page_index, page_state, device);
    flash_layout::law_every_page_visited_once(layout, start);
    let result = device::run::<E, FindFirstPage>(
        FindFirstPage::begun(layout, starting_page_index, page_state),
        device,
    ).1;
    let at = if between >= start {
        between - start
    } else {
        between - start + n
    };
    assert(order[at] == between);
    let state = visited_state(device.flash, layout, start, at);
    if let Ok(Some(page_index)) = result {
        let k = choose|k: int|
            {
                &&& 0 <= k < n
                &&& page_index == order[k]
                &&& #[trigger] visited_state(device.flash, layout, start, k) == Some(page_state)
                &&& passed_over(device.flash, layout, start, page_state, k)
            };
        assert(visited_state(device.flash, layout, start, k) == Some(page_state));
        assert(order.contains(order[k]));
    }
}

/// A page lies between a first one and a last one, going round, and is not the last.
pub open spec fn between_round(first: int, page_index: int, last: int) -> bool {
    if first <= last {
        first <= page_index < last
    } else {
        first <= page_index || page_index < last
    }
}

/// How the repair ends, or goes on, behind the page that it visits.
pub open spec fn run_past_page<E>(repair: TryGeneralRepair, device: Device) -> (
    Device,
    Result<(), Error<E>>,
) {
    match repair.past_page::<E>() {
        Step::Pending(next) => device::run::<E, TryGeneralRepair>(next, device),
        Step::Finished(result) => (device, result),
    }
}

/// Repairing a page is getting its state, then as that asks for.
proof fn lemma_repair_after_get_state<E>(repair: TryGeneralRepair, device: Device)
    requires
        repair.phase is GetState,
        Operation::<E>::wf(&repair),
    ensures
        ({
            let get = repair.phase->GetState_0;
            let (between, result) = device::run::<E, GetPageState>(get, device);
            device::run::<E, TryGeneralRepair>(repair, device) == match result {
                Err(Error::Corrupted) => device::run::<E, TryGeneralRepair>(
                    TryGeneralRepair {
                        phase: TryGeneralRepairPhase::Open(OpenPage::begun(get.page)),
                        ..repair
                    },
                    between,
                ),
                Err(Error::LogicBug) => (between, Err(Error::LogicBug)),
                _ => run_past_page::<E>(repair, between),
            }
        }),
    decreases Operation::<E>::remaining(&repair),
{
    let get = repair.phase->GetState_0;
    let (next_device, reply) = device.answer::<E>(Operation::<E>::asks(&get));
    Operation::<E>::progress(get, reply);
    Operation::<E>::progress(repair, reply);
    match get.after(reply) {
        Step::Pending(next) => lemma_repair_after_get_state::<E>(
            TryGeneralRepair { phase: TryGeneralRepairPhase::GetState(next), ..repair },
            next_device,
        ),
        Step::Finished(_) => {},
    }
}

proof fn lemma_repair_after_open<E>(repair: TryGeneralRepair, device: Device)
    requires
        repair.phase is Open,
        Operation::<E>::wf(&repair),
    ensures
        ({
            let open = repair.phase->Open_0;
            let (between, result) = device::run::<E, OpenPage>(open, device);
            device::run::<E, TryGeneralRepair>(repair, device) == match result {
                Ok(()) => run_past_page::<E>(repair, between),
                Err(error) => (between, Err(error)),
            }
        }),
    decreases Operation::<E>::remaining(&repair),
{
    let open = repair.phase->Open_0;
    let (next_device, reply) = device.answer::<E>(Operation::<E>::asks(&open));
    Operation::<E>::progress(open, reply);
    Operation::<E>::progress(repair, reply);
    match open.after(reply) {
        Step::Pending(next) => lemma_repair_after_open::<E>(
            TryGeneralRepair { phase: TryGeneralRepairPhase::Open(next), ..repair },
            next_device,
        ),
        Step::Finished(_) => {},
    }
}

/// What the flash is to hold once it was repaired: the pages from one on that were corrupted are
/// erased, so that it says of them that they are open, and every other byte, in a page or outside,
/// is as before.
pub open spec fn repaired_from(
    layout: FlashLayout,
    from_page_index: int,
    flash: Seq<u8>,
    repaired: Seq<u8>,
) -> bool {
    &&& repaired.len() == flash.len()
    &&& same_bytes(flash, repaired, 0, layout.at(0).from())
    &&& same_bytes(flash, repaired, layout.at(layout.pages() - 1).to(), flash.len() as int)
    &&& forall|i: int|
        #![trigger layout.at(i)]
        0 <= i < layout.pages() ==> if from_page_index <= i && device::page_state_in(
            flash,
            layout.at(i),
        ) is None {
            &&& device::page_state_in(repaired, layout.at(i)) == Some(PageState::Open)
            &&& marker::is_erased(repaired.subrange(layout.at(i).from(), layout.at(i).to()))
        } else {
            &&& device::page_state_in(repaired, layout.at(i)) == device::page_state_in(
                flash,
                layout.at(i),
            )
            &&& device::version_in(repaired, layout.at(i)) == device::version_in(
                flash,
                layout.at(i),
            )
            &&& same_bytes(flash, repaired, layout.at(i).from(), layout.at(i).to())
        }
}

/// The flash holds the same bytes between two addresses.
pub open spec fn same_bytes(flash: Seq<u8>, other: Seq<u8>, from: int, to: int) -> bool {
    forall|address: int| from <= address < to ==> flash[address] == other[address]
}

/// A page is repaired, then the pages behind it are.
proof fn lemma_repaired_one_and_rest(
    layout: FlashLayout,
    page_index: int,
    flash: Seq<u8>,
    past: Seq<u8>,
    repaired: Seq<u8>,
)
    requires
        layout.divides(flash),
        0 <= page_index < layout.pages(),
        past == (if device::page_state_in(flash, layout.at(page_index)) is None {
            device::erased(flash, layout.at(page_index).from(), layout.at(page_index).to())
        } else {
            flash
        }),
        repaired_from(layout, page_index + 1, past, repaired),
    ensures
        repaired_from(layout, page_index, flash, repaired),
{
    page_laws::lemma_pages_usable(layout, flash);
    page_laws::lemma_page_bytes_apart(layout, page_index, flash);
    page_laws::lemma_erased_page_is_open(layout, page_index, flash);
    let page = layout.at(page_index);
    let last = layout.at(layout.pages() - 1);
    let size = layout.geometry.erase_size as int;
    assert(page.index == page_index);
    assert(layout.at(0).from() <= page.from() && page.to() <= last.to()) by {
        assert(layout.at(0).index == 0 && last.index == layout.pages() - 1);
        assert(0 <= size * page_index && size * page_index <= size * (layout.pages() - 1))
            by (nonlinear_arith)
            requires
                0 < size,
                0 <= page_index <= layout.pages() - 1,
        ;
        assert(size * 0 == 0) by (nonlinear_arith);
    }
    assert(same_bytes(flash, past, 0, layout.at(0).from()));
    assert(same_bytes(flash, past, last.to(), flash.len() as int));
    assert forall|i: int|
        #![trigger layout.at(i)]
        0 <= i < layout.pages() && i != page_index implies same_bytes(
        flash,
        past,
        layout.at(i).from(),
        layout.at(i).to(),
    ) by {}
    if device::page_state_in(flash, page) is None {
        assert(marker::is_erased(past.subrange(page.from(), page.to())));
        assert(repaired.subrange(page.from(), page.to()) =~= past.subrange(page.from(), page.to()));
    }
}

proof fn lemma_repair_from<E>(repair: TryGeneralRepair, device: Device)
    requires
        Operation::<E>::wf(&repair),
        repair.phase == TryGeneralRepairPhase::GetState(
            GetPageState::begun(repair.layout.at(repair.page_index as int)),
        ),
        repair.layout.divides(device.flash),
        device.consistent(repair.layout),
    ensures
        ({
            let (after, result) = device::run::<E, TryGeneralRepair>(repair, device);
            &&& result == Ok::<(), Error<E>>(())
            &&& repaired_from(repair.layout, repair.page_index as int, device.flash, after.flash)
            &&& after.consistent(repair.layout)
        }),
    decreases repair.layout.pages() - repair.page_index,
{
    let layout = repair.layout;
    let page_index = repair.page_index as int;
    let page = layout.at(page_index);
    page_laws::lemma_pages_usable(layout, device.flash);
    page_laws::law_get_page_state::<E>(layout, page_index, device);
    lemma_repair_after_get_state::<E>(repair, device);
    let (between, state) = device::run::<E, GetPageState>(GetPageState::begun(page), device);
    let opening = TryGeneralRepair {
        phase: TryGeneralRepairPhase::Open(OpenPage::begun(page)),
        ..repair
    };
    let past = if state is Err {
        page_laws::law_open_page::<E>(layout, page_index, between);
        lemma_repair_after_open::<E>(opening, between);
        page_laws::lemma_page_bytes_apart(layout, page_index, device.flash);
        device::run::<E, OpenPage>(OpenPage::begun(page), between).0
    } else {
        between
    };
    assert(layout.divides(past.flash));
    if repair.page_index + 1 < layout.pages() {
        let next = repair.past_page::<E>()->Pending_0;
        assert(opening.past_page::<E>() == repair.past_page::<E>());
        assert(layout.at(page_index + 1).usable());
        lemma_repair_from::<E>(next, past);
    }
    lemma_repaired_one_and_rest(
        layout,
        page_index,
        device.flash,
        past.flash,
        device::run::<E, TryGeneralRepair>(repair, device).0.flash,
    );
}

/// The general repair erases the pages that are corrupted and leaves every byte of the others: no
/// page is corrupted then.
pub proof fn law_try_general_repair<E>(layout: FlashLayout, device: Device)
    requires
        layout.divides(device.flash),
        device.consistent(layout),
    ensures
        ({
            let (after, result) = device::run::<E, TryGeneralRepair>(
                TryGeneralRepair::begun(layout),
                device,
            );
            &&& result == Ok::<(), Error<E>>(())
            &&& repaired_from(layout, 0, device.flash, after.flash)
            &&& after.consistent(layout)
            &&& forall|i: int|
                #![trigger layout.at(i)]
                0 <= i < layout.pages() ==> device::page_state_in(after.flash, layout.at(i)) is Some
        }),
{
    page_laws::lemma_pages_usable(layout, device.flash);
    assert(layout.at(0).usable());
    lemma_repair_from::<E>(TryGeneralRepair::begun(layout), device);
}

/// Once a storage was repaired, a search comes to no corrupted page: it gives a page or none.
pub proof fn law_search_after_repair<E>(
    layout: FlashLayout,
    starting_page_index: usize,
    page_state: PageState,
    device: Device,
)
    requires
        layout.divides(device.flash),
        starting_page_index + layout.pages() - 1 <= usize::MAX,
        device.consistent(layout),
    ensures
        ({
            let repaired = device::run::<E, TryGeneralRepair>(
                TryGeneralRepair::begun(layout),
                device,
            ).0;
            device::run::<E, FindFirstPage>(
                FindFirstPage::begun(layout, starting_page_index, page_state),
                repaired,
            ).1 is Ok
        }),
{
    let repaired = device::run::<E, TryGeneralRepair>(TryGeneralRepair::begun(layout), device).0;
    law_try_general_repair::<E>(layout, device);
    law_find_first_page::<E>(layout, starting_page_index, page_state, repaired);
    let order = layout.page_order(starting_page_index as int);
    flash_layout::law_every_page_visited_once(layout, starting_page_index as int);
    assert forall|k: int| 0 <= k < layout.pages() implies #[trigger] visited_state(
        repaired.flash,
        layout,
        starting_page_index as int,
        k,
    ) is Some by {
        assert(order.contains(order[k]));
        assert(device::page_state_in(repaired.flash, layout.at(order[k] as int)) is Some);
    }
}

} // verus!
