//! What a storage's operations ask for, and what they make of a reply that is no answer.

use vstd::prelude::*;

use crate::error::Error;
use crate::flash_layout;
use crate::flash_layout::{FlashPage, StorageVersion};
use crate::operation::{Operation, ReplyView, RequestView, Step};
use crate::page_state::PageState;
use crate::storage::auto_repair::{AutoRepair, AutoRepairPhase};
use crate::storage::pages::{
    ClosePage, ClosePagePhase, GetPageState, GetPageStatePhase, OpenPage, OpenPagePhase,
    PartialClosePage, PartialClosePagePhase,
};
use crate::storage::search::{FindFirstPage, TryGeneralRepair, TryGeneralRepairPhase};
use crate::storage::verify::{EraseAll, Verify, VerifyPhase};
use crate::versioning::VerifyStorage;

verus! {

/// The page lies below the addresses that 32 bits can say.
pub open spec fn addressable(page: FlashPage) -> bool {
    page.layout.geometry.erase_size * (page.index + 1) < 0x1_0000_0000
}

/// Where the page starts.
pub open spec fn start_of(page: FlashPage) -> int {
    page.layout.start + page.layout.geometry.erase_size * page.index
}

/// Where the page's last word starts.
pub open spec fn last_word_of(page: FlashPage) -> int {
    start_of(page) + page.layout.geometry.erase_size - page.layout.geometry.word()
}

proof fn lemma_addresses(page: FlashPage)
    requires
        addressable(page),
    ensures
        page.from() == start_of(page),
        page.to() == start_of(page) + page.layout.geometry.erase_size,
{
    let size = page.layout.geometry.erase_size as int;
    assert(0 <= size * page.index && size * (page.index + 1) == size * page.index + size)
        by (nonlinear_arith)
        requires
            0 <= size,
            0 <= page.index,
    ;
}

/// Getting a page's state asks the cache for that page, reads a start marker where the page starts
/// and as much as the flash reads at once where the page's last word starts, and tells the cache of
/// that page that nothing changed.
pub proof fn law_requests_for_page_state<E>(page: FlashPage, start_marked: bool, state: PageState)
    requires
        addressable(page),
    ensures
        Operation::<E>::asks(&GetPageState { page, phase: GetPageStatePhase::Lookup }) == (
        RequestView::LookupPageState { page_index: page.index }),
        Operation::<E>::asks(&GetPageState { page, phase: GetPageStatePhase::ReadStart }) == (
        RequestView::Read {
            offset: start_of(page),
            len: page.layout.geometry.start_marker(),
        }),
        Operation::<E>::asks(
            &GetPageState { page, phase: GetPageStatePhase::ReadEnd { start_marked } },
        ) == (RequestView::Read {
            offset: last_word_of(page),
            len: page.layout.geometry.read_size as nat,
        }),
        Operation::<E>::asks(&GetPageState { page, phase: GetPageStatePhase::Notice { state } }) == (
        RequestView::NoticePageState { page_index: page.index, state, dirty: false }),
{
    lemma_addresses(page);
}

/// Opening a page tells the cache of that page that it is open and that the flash is about to be
/// changed, and erases the page, no more and no less.
pub proof fn law_requests_for_opening<E>(page: FlashPage)
    requires
        addressable(page),
    ensures
        Operation::<E>::asks(&OpenPage { page, phase: OpenPagePhase::Notice }) == (
        RequestView::NoticePageState {
            page_index: page.index,
            state: PageState::Open,
            dirty: true,
        }),
        Operation::<E>::asks(&OpenPage { page, phase: OpenPagePhase::Erase }) == (
        RequestView::Erase {
            from: start_of(page),
            to: start_of(page) + page.layout.geometry.erase_size,
        }),
{
    lemma_addresses(page);
}

/// Partially closing a page tells the cache of that page that it is partially open and that the
/// flash is about to be changed. It writes a start marker where the page starts: zero, the two
/// versions, and erased bytes up to a word if that is longer.
pub proof fn law_requests_for_partially_closing<E>(page: FlashPage, version: StorageVersion)
    requires
        addressable(page),
    ensures
        ({
            let notice = PartialClosePage { page, version, phase: PartialClosePagePhase::Notice };
            let write = PartialClosePage { page, version, phase: PartialClosePagePhase::WriteStart };
            &&& Operation::<E>::asks(&notice) == (RequestView::NoticePageState {
                page_index: page.index,
                state: PageState::PartialOpen,
                dirty: true,
            })
            &&& Operation::<E>::asks(&write) matches RequestView::Write { offset, data } && {
                &&& offset == start_of(page)
                &&& data.len() == page.layout.geometry.start_marker()
                &&& data[0] == 0
                &&& data[1] == version.internal
                &&& data[2] + 256 * data[3] == version.user
                &&& flash_layout::erased_from(data, 4)
            }
        }),
{
    lemma_addresses(page);
    flash_layout::law_start_marker_bytes(version, page.layout.geometry.start_marker());
}

/// Closing a page tells the cache of that page that it is closed and that the flash is about to be
/// changed, and writes zeros over the page's last word.
pub proof fn law_requests_for_closing<E>(page: FlashPage)
    requires
        addressable(page),
    ensures
        Operation::<E>::asks(&ClosePage { page, phase: ClosePagePhase::Notice }) == (
        RequestView::NoticePageState {
            page_index: page.index,
            state: PageState::Closed,
            dirty: true,
        }),
        Operation::<E>::asks(&ClosePage { page, phase: ClosePagePhase::WriteEnd }) matches
            RequestView::Write { offset, data } && {
            &&& offset == last_word_of(page)
            &&& data.len() == page.layout.geometry.word()
            &&& forall|i: int| 0 <= i < data.len() ==> #[trigger] data[i] == 0
        },
{
    lemma_addresses(page);
}

/// A verification lets the cache forget all, reads each start marker where its page starts, and
/// erases from the start of the range to its end. Once it has erased, it lets the cache forget all
/// again, and is done with success.
pub proof fn law_requests_for_verification<E>(verify: Verify, page_index: usize)
    requires
        page_index < usize::MAX,
        addressable(verify.layout.at(page_index as int)),
    ensures
        Operation::<E>::asks(&(Verify { phase: VerifyPhase::Invalidate, ..verify }))
            == RequestView::InvalidateCacheState,
        Operation::<E>::asks(&(Verify { phase: VerifyPhase::ReadStart { page_index }, ..verify }))
            == (RequestView::Read {
            offset: verify.layout.start + verify.layout.geometry.erase_size * page_index,
            len: verify.layout.geometry.start_marker(),
        }),
        ({
            let erase = Verify {
                phase: VerifyPhase::Erase(EraseAll { layout: verify.layout }),
                ..verify
            };
            &&& Operation::<E>::asks(&erase) == (RequestView::Erase {
                from: verify.layout.start as int,
                to: verify.layout.end as int,
            })
            &&& erase.after(ReplyView::<E>::Changed(Ok(()))) matches Step::Pending(next) && {
                &&& Operation::<E>::asks(&next) == RequestView::InvalidateCacheState
                &&& next.after(ReplyView::<E>::Noted) == Step::<
                    Verify,
                    Result<(), Error<E>>,
                >::Finished(Ok(()))
            }
        }),
{
    lemma_addresses(verify.layout.at(page_index as int));
}

/// Whether a reply answers a request: what the cache holds to a question, that it took note to what
/// it was told, as many bytes as were to be read or an error to a read, and how it went to a write
/// or an erase.
pub open spec fn answers<E>(request: RequestView, reply: ReplyView<E>) -> bool {
    match request {
        RequestView::LookupPageState { .. } => reply is CachedPageState,
        RequestView::NoticePageState { .. } => reply is Noted,
        RequestView::InvalidateCacheState => reply is Noted,
        RequestView::Read { len, .. } => reply matches ReplyView::Read(read) && (
        read matches Ok(bytes) ==> bytes.len() == len),
        RequestView::Write { .. } => reply is Changed,
        RequestView::Erase { .. } => reply is Changed,
    }
}

/// If a reply is no answer, the operation is done, and reports a bug.
pub open spec fn reports_bug<E, M: Operation<E>>(operation: M, reply: ReplyView<E>) -> bool {
    answers(operation.asks(), reply) || operation.after(reply) == Step::<
        M,
        Result<M::Value, Error<E>>,
    >::Finished(Err(Error::LogicBug))
}

/// No operation goes on from a reply that does not answer what it asked for.
pub proof fn law_no_answer_is_a_bug<E>(
    get: GetPageState,
    open: OpenPage,
    partial: PartialClosePage,
    close: ClosePage,
    search: FindFirstPage,
    repair: TryGeneralRepair,
    verify: Verify,
    erase: EraseAll,
    verify_storage: VerifyStorage,
    reply: ReplyView<E>,
)
    ensures
        reports_bug::<E, GetPageState>(get, reply),
        reports_bug::<E, OpenPage>(open, reply),
        reports_bug::<E, PartialClosePage>(partial, reply),
        reports_bug::<E, ClosePage>(close, reply),
        reports_bug::<E, FindFirstPage>(search, reply),
        reports_bug::<E, TryGeneralRepair>(repair, reply),
        reports_bug::<E, Verify>(verify, reply),
        reports_bug::<E, EraseAll>(erase, reply),
        reports_bug::<E, VerifyStorage>(verify_storage, reply),
{
}

/// An operation with auto repair asks for what the operation or the repair asks for. The first run's
/// outcome is its own, unless the storage is corrupted: then the repair begins. If that fails, its
/// error counts; if not, the operation begins again, and its outcome counts.
pub proof fn law_auto_repair_step<E, M: Operation<E> + Copy, R: Operation<E, Value = ()> + Copy>(
    operation: AutoRepair<M, R>,
    reply: ReplyView<E>,
)
    ensures
        ({
            let after = Operation::<E>::after(operation, reply);
            match operation.phase {
                AutoRepairPhase::First(function) => {
                    &&& Operation::<E>::asks(&operation) == function.asks()
                    &&& match function.after(reply) {
                        Step::Pending(next) => after matches Step::Pending(on) && on.phase
                            == AutoRepairPhase::<M, R>::First(next) && on.function
                            == operation.function && on.repair == operation.repair,
                        Step::Finished(Err(Error::Corrupted)) => after matches Step::Pending(on)
                            && on.phase == AutoRepairPhase::<M, R>::Repair(operation.repair)
                            && on.function == operation.function && on.repair == operation.repair,
                        Step::Finished(result) => after == Step::<
                            AutoRepair<M, R>,
                            Result<M::Value, Error<E>>,
                        >::Finished(result),
                    }
                },
                AutoRepairPhase::Repair(repair) => {
                    &&& Operation::<E>::asks(&operation) == repair.asks()
                    &&& match repair.after(reply) {
                        Step::Pending(next) => after matches Step::Pending(on) && on.phase
                            == AutoRepairPhase::<M, R>::Repair(next) && on.function
                            == operation.function,
                        Step::Finished(Ok(())) => after matches Step::Pending(on) && on.phase
                            == AutoRepairPhase::<M, R>::Second(operation.function),
                        Step::Finished(Err(error)) => after == Step::<
                            AutoRepair<M, R>,
                            Result<M::Value, Error<E>>,
                        >::Finished(Err(error)),
                    }
                },
                AutoRepairPhase::Second(function) => {
                    &&& Operation::<E>::asks(&operation) == function.asks()
                    &&& match function.after(reply) {
                        Step::Pending(next) => after matches Step::Pending(on) && on.phase
                            == AutoRepairPhase::<M, R>::Second(next),
                        Step::Finished(result) => after == Step::<
                            AutoRepair<M, R>,
                            Result<M::Value, Error<E>>,
                        >::Finished(result),
                    }
                },
            }
        }),
{
}

/// A repair that is past a page goes on with the next one, or is done with success behind the last.
pub proof fn law_repair_goes_on<E>(repair: TryGeneralRepair)
    requires
        repair.page_index < usize::MAX,
    ensures
        match repair.past_page::<E>() {
            Step::Pending(next) => {
                &&& repair.page_index + 1 < repair.layout.pages()
                &&& next.layout == repair.layout
                &&& next.page_index == repair.page_index + 1
                &&& next.page() == repair.layout.at(repair.page_index + 1)
                &&& Operation::<E>::asks(&next) == (RequestView::LookupPageState {
                    page_index: (repair.page_index + 1) as usize,
                })
            },
            Step::Finished(result) => repair.page_index + 1 >= repair.layout.pages() && result
                == Ok::<(), Error<E>>(()),
        },
{
}

/// A search asks for what getting the state of the page that it visits asks for, and goes on as that
/// does. Once it knows the state, it gives the page if that is the state that it is for, visits the
/// next page in the order if there is one, or gives none. An error of that is its own.
pub proof fn law_search_step<E>(search: FindFirstPage, reply: ReplyView<E>)
    requires
        Operation::<E>::wf(&search),
    ensures
        ({
            let after = Operation::<E>::after(search, reply);
            &&& Operation::<E>::asks(&search) == Operation::<E>::asks(&search.get)
            &&& match search.get.after(reply) {
                Step::Pending(get) => after matches Step::Pending(next) && next.get == get
                    && next.layout == search.layout && next.starting_page_index
                    == search.starting_page_index && next.page_state == search.page_state
                    && next.visited == search.visited,
                Step::Finished(Err(error)) => after == Step::<
                    FindFirstPage,
                    Result<Option<usize>, Error<E>>,
                >::Finished(Err(error)),
                Step::Finished(Ok(state)) => if state == search.page_state {
                    after == Step::<FindFirstPage, Result<Option<usize>, Error<E>>>::Finished(
                        Ok(Some(search.get.page.index)),
                    )
                } else if search.visited + 1 < search.layout.pages() {
                    after matches Step::Pending(next) && next.layout == search.layout
                        && next.starting_page_index == search.starting_page_index
                        && next.page_state == search.page_state && next.visited == search.visited
                        + 1 && next.get.phase == GetPageStatePhase::Lookup
                        && next.get.page.layout == search.layout && next.get.page.index == (
                    search.starting_page_index + search.visited + 1)
                        % search.layout.pages() as int
                } else {
                    after == Step::<FindFirstPage, Result<Option<usize>, Error<E>>>::Finished(
                        Ok(None),
                    )
                },
            }
        }),
{
    flash_layout::lemma_pages_fit(search.layout);
    if search.visited + 1 < search.layout.pages() {
        let n = search.layout.pages() as int;
        let at = search.starting_page_index + search.visited + 1;
        assert(0 <= at % n < n) by (nonlinear_arith)
            requires
                0 < n,
        ;
        assert(search.visited + 1 + search.starting_page_index == at);
    }
}

/// A repair asks for what getting the state of the page that it visits, or opening it, asks for, and
/// goes on as that does. A page that is corrupted is opened; any other, and one whose state the
/// flash fails to give, is passed by. If a page cannot be opened, that error is the repair's.
pub proof fn law_repair_step<E>(repair: TryGeneralRepair, reply: ReplyView<E>)
    ensures
        ({
            let after = Operation::<E>::after(repair, reply);
            match repair.phase {
                TryGeneralRepairPhase::GetState(get) => {
                    &&& Operation::<E>::asks(&repair) == Operation::<E>::asks(&get)
                    &&& match get.after(reply) {
                        Step::Pending(on) => after matches Step::Pending(next) && next.phase
                            == TryGeneralRepairPhase::GetState(on) && next.layout == repair.layout
                            && next.page_index == repair.page_index,
                        Step::Finished(Err(Error::Corrupted)) => after matches Step::Pending(next)
                            && next.layout == repair.layout && next.page_index
                            == repair.page_index && Operation::<E>::asks(&next) == (
                        RequestView::NoticePageState {
                            page_index: get.page.index,
                            state: PageState::Open,
                            dirty: true,
                        }),
                        Step::Finished(Err(Error::LogicBug)) => after == Step::<
                            TryGeneralRepair,
                            Result<(), Error<E>>,
                        >::Finished(Err(Error::LogicBug)),
                        Step::Finished(_) => after == repair.past_page::<E>(),
                    }
                },
                TryGeneralRepairPhase::Open(open) => {
                    &&& Operation::<E>::asks(&repair) == Operation::<E>::asks(&open)
                    &&& match open.after(reply) {
                        Step::Pending(on) => after matches Step::Pending(next) && next.phase
                            == TryGeneralRepairPhase::Open(on) && next.layout == repair.layout
                            && next.page_index == repair.page_index,
                        Step::Finished(Ok(())) => after == repair.past_page::<E>(),
                        Step::Finished(Err(error)) => after == Step::<
                            TryGeneralRepair,
                            Result<(), Error<E>>,
                        >::Finished(Err(error)),
                    }
                },
            }
        }),
{
}

} // verus!
