//! What a report comes to when it is told all pages and their items.

use vstd::prelude::*;

use crate::flash_layout;
use crate::flash_layout::FlashLayout;
use crate::page_state::PageState;
use crate::storage::report;
use crate::storage::report::{ReportAction, ReportEvent, ReportView};
use crate::text;

verus! {

/// An item of a page: where it starts, where the one behind it starts, and how it is shown.
pub struct ShownItem<'a> {
    pub address: u32,
    pub next_address: u32,
    pub item: &'a str,
}

/// What is to be reported of a page: its state, or how the error with which it was not found out is
/// shown, and its items.
pub struct ShownPage<'a> {
    pub state: Result<PageState, &'a str>,
    pub items: Seq<ShownItem<'a>>,
}

/// What comes of a report that is told, for at most so many times, what it has to be told next.
/// `given` says how many items of the page it was told already.
pub open spec fn driven(
    report: ReportView,
    action: ReportAction,
    pages: Seq<ShownPage>,
    given: nat,
    times: nat,
) -> (ReportView, ReportAction)
    decreases times,
{
    if times == 0 {
        (report, action)
    } else {
        match action {
            ReportAction::GetPageState { page_index } => {
                let (next, action) = report::report_step(
                    report,
                    ReportEvent::PageState(pages[page_index as int].state),
                );
                driven(next, action, pages, 0, (times - 1) as nat)
            },
            ReportAction::FirstItem { .. } | ReportAction::NextItem => {
                let items = pages[report.page as int].items;
                if given < items.len() {
                    let (next, action) = report::report_step(report, item_event(items[given as int]));
                    driven(next, action, pages, given + 1, (times - 1) as nat)
                } else {
                    let (next, action) = report::report_step(report, ReportEvent::NoMoreItems);
                    driven(next, action, pages, given, (times - 1) as nat)
                }
            },
            ReportAction::Finished | ReportAction::Failed => (report, action),
        }
    }
}

/// The event that tells a report of an item.
pub open spec fn item_event(shown: ShownItem) -> ReportEvent {
    ReportEvent::Item {
        address: shown.address,
        next_address: shown.next_address,
        item: shown.item,
    }
}

/// The line of an item.
pub open spec fn item_line(shown: ShownItem) -> Seq<char> {
    "   Item "@ + shown.item@ + (" at "@ + text::decimal(shown.address as nat) + ".."@
        + text::decimal(shown.next_address as nat) + "\n"@)
}

/// The lines of items, one behind the other.
pub open spec fn item_lines(items: Seq<ShownItem>) -> Seq<char>
    decreases items.len(),
{
    if items.len() == 0 {
        Seq::empty()
    } else {
        item_line(items.first()) + item_lines(items.drop_first())
    }
}

/// The lines of a page: its own, then those of its items.
pub open spec fn page_lines(page_index: nat, page: ShownPage) -> Seq<char> {
    "  Page "@ + text::decimal(page_index) + " ("@ + (match page.state {
        Ok(PageState::Closed) => "Closed"@,
        Ok(PageState::PartialOpen) => "PartialOpen"@,
        Ok(PageState::Open) => "Open"@,
        Err(error) => "Error ("@ + error@ + ")"@,
    }) + "):\n"@ + item_lines(page.items)
}

/// The lines of the pages from one on, in the order of their indices.
pub open spec fn lines_from(pages: Seq<ShownPage>, page_index: int) -> Seq<char>
    decreases pages.len() - page_index,
{
    if 0 <= page_index < pages.len() {
        page_lines(page_index as nat, pages[page_index]) + lines_from(pages, page_index + 1)
    } else {
        Seq::empty()
    }
}

/// How many times a report has to be told something of the pages from one on: the state of each
/// page, each item, and that there are no more.
pub open spec fn tellings_from(pages: Seq<ShownPage>, page_index: int) -> nat
    decreases pages.len() - page_index,
{
    if 0 <= page_index < pages.len() {
        2 + pages[page_index].items.len() + tellings_from(pages, page_index + 1)
    } else {
        0
    }
}

/// A report that is told the items of a page from one on adds their lines.
proof fn lemma_items_reported(
    report: ReportView,
    action: ReportAction,
    pages: Seq<ShownPage>,
    given: nat,
    times: nat,
)
    requires
        action is FirstItem || action is NextItem,
        report.page < pages.len(),
        given <= pages[report.page as int].items.len(),
        pages[report.page as int].items.len() - given < times,
    ensures
        ({
            let items = pages[report.page as int].items;
            let told = ReportView {
                text: report.text + item_lines(items.skip(given as int)),
                ..report
            };
            let (next, next_action) = report::report_step(told, ReportEvent::NoMoreItems);
            driven(report, action, pages, given, times) == driven(
                next,
                next_action,
                pages,
                items.len(),
                (times - 1 - (items.len() - given)) as nat,
            )
        }),
    decreases times,
{
    let items = pages[report.page as int].items;
    let rest = items.skip(given as int);
    if given < items.len() {
        let (next, next_action) = report::report_step(report, item_event(items[given as int]));
        lemma_items_reported(next, next_action, pages, given + 1, (times - 1) as nat);
        assert(rest.drop_first() =~= items.skip(given as int + 1));
        assert(next.text + item_lines(items.skip(given as int + 1)) =~= report.text + item_lines(rest));
    } else {
        assert(report.text + item_lines(rest) =~= report.text);
    }
}

proof fn lemma_pages_reported(
    report: ReportView,
    pages: Seq<ShownPage>,
    given: nat,
    times: nat,
)
    requires
        pages.len() == report.layout.pages(),
        report.page < pages.len() <= usize::MAX,
        tellings_from(pages, report.page as int) <= times,
    ensures
        driven(
            report,
            ReportAction::GetPageState { page_index: report.page as usize },
            pages,
            given,
            times,
        ) == (
            ReportView {
                page: (pages.len() - 1) as nat,
                text: report.text + lines_from(pages, report.page as int),
                ..report
            },
            ReportAction::Finished,
        ),
    decreases pages.len() - report.page,
{
    let page_index = report.page as int;
    let page = pages[page_index];
    let (next, action) = report::report_step(report, ReportEvent::PageState(page.state));
    lemma_items_reported(next, action, pages, 0, (times - 1) as nat);
    assert(page.items.skip(0) =~= page.items);
    let told = ReportView { text: next.text + item_lines(page.items), ..next };
    assert(told.text =~= report.text + page_lines(report.page, page));
    let (past, past_action) = report::report_step(told, ReportEvent::NoMoreItems);
    assert(past.text =~= told.text);
    let left = (times - 2 - page.items.len()) as nat;
    if page_index + 1 < pages.len() {
        lemma_pages_reported(past, pages, page.items.len(), left);
        assert(past.text + lines_from(pages, page_index + 1) =~= report.text + lines_from(
            pages,
            page_index,
        ));
    } else {
        assert(lines_from(pages, page_index + 1) =~= Seq::<char>::empty());
        assert(past.text =~= report.text + lines_from(pages, page_index));
    }
}

/// A report that is told of all pages and their items is complete: the first line, then for each
/// page in the order of the indices its line and those of its items.
pub proof fn law_whole_report(layout: FlashLayout, pages: Seq<ShownPage>, times: nat)
    requires
        layout.countable(),
        pages.len() == layout.pages(),
        tellings_from(pages, 0) <= times,
    ensures
        driven(
            ReportView { layout, page: 0, text: report::first_line() },
            ReportAction::GetPageState { page_index: 0 },
            pages,
            0,
            times,
        ) == (
            ReportView {
                layout,
                page: (pages.len() - 1) as nat,
                text: "Items in flash:\n"@ + lines_from(pages, 0),
            },
            ReportAction::Finished,
        ),
{
    flash_layout::lemma_pages_fit(layout);
    lemma_pages_reported(
        ReportView { layout, page: 0, text: report::first_line() },
        pages,
        0,
        times,
    );
}

/// Once a report is told the state of a page, it asks for the items that lie between the page's
/// markers: from the first address behind the start marker, up to the page's last word. The two
/// enclose as many bytes as a page holds of data.
pub proof fn law_items_lie_between_markers(report: ReportView, state: Result<PageState, &str>)
    requires
        report.layout.countable(),
        report.layout.geometry.erase_size * (report.page + 1) <= report.layout.end
            - report.layout.start,
        report.layout.geometry.start_marker() + report.layout.geometry.word()
            <= report.layout.geometry.erase_size,
    ensures
        ({
            let geometry = report.layout.geometry;
            let start = report.layout.start + geometry.erase_size * report.page;
            let (after, action) = report::report_step(report, ReportEvent::PageState(state));
            &&& after.page == report.page
            &&& after.layout == report.layout
            &&& action matches ReportAction::FirstItem { data_start, data_end } && {
                &&& data_start == start + geometry.start_marker()
                &&& data_end == start + geometry.erase_size - geometry.word()
                &&& data_end - data_start == geometry.erase_size - geometry.start_marker()
                    - geometry.word()
            }
        }),
{
    flash_layout::law_pages_tile_the_range(report.layout, report.page as int);
}

/// So it is with a page that does not lie whole in the range, if its addresses have 32 bits.
pub proof fn law_items_lie_between_addresses(report: ReportView, state: Result<PageState, &str>)
    requires
        report.layout.at(report.page as int).from() + report.layout.geometry.start_marker()
            <= u32::MAX,
        report.layout.geometry.word() <= report.layout.at(report.page as int).to() <= u32::MAX,
    ensures
        report::report_step(report, ReportEvent::PageState(state)).1 matches
            ReportAction::FirstItem { data_start, data_end } && data_start == report.layout.at(
            report.page as int,
        ).from() + report.layout.geometry.start_marker() && data_end == report.layout.at(
            report.page as int,
        ).to() - report.layout.geometry.word(),
{
}

/// A report that is told of an item adds its line and asks for the next; one that is told of an item
/// that cannot be read adds a line that says so and where the item stands, and fails.
pub proof fn law_report_of_an_item(
    report: ReportView,
    address: u32,
    next_address: u32,
    item: &str,
)
    ensures
        report::report_step(report, ReportEvent::Item { address, next_address, item }) == (
            ReportView {
                layout: report.layout,
                page: report.page,
                text: report.text + ("   Item "@ + item@ + (" at "@ + text::decimal(
                    address as nat,
                ) + ".."@ + text::decimal(next_address as nat) + "\n"@)),
            },
            ReportAction::NextItem,
        ),
        report::report_step(report, ReportEvent::UnreadableItem { address, next_address }) == (
            ReportView {
                layout: report.layout,
                page: report.page,
                text: report.text + ("   Item COULD NOT BE READ"@ + (" at "@ + text::decimal(
                    address as nat,
                ) + ".."@ + text::decimal(next_address as nat) + "\n"@)),
            },
            ReportAction::Failed,
        ),
{
}

/// A report that is told that a page has no more items adds nothing. It goes on with the next page,
/// whose state it asks for, or is complete behind the last.
pub proof fn law_report_goes_on(report: ReportView)
    requires
        report.page + 1 <= usize::MAX,
    ensures
        ({
            let (after, action) = report::report_step(report, ReportEvent::NoMoreItems);
            &&& after.text == report.text
            &&& after.layout == report.layout
            &&& if report.page + 1 < report.layout.pages() {
                &&& after.page == report.page + 1
                &&& action matches ReportAction::GetPageState { page_index } && page_index
                    == report.page + 1
            } else {
                after.page == report.page && action == ReportAction::Finished
            }
        }),
{
    assert(report.text + Seq::<char>::empty() =~= report.text);
}

} // verus!
