//! A report of all items in flash, as text.

use vstd::prelude::*;
use vstd::string::*;

use crate::flash_layout::FlashLayout;
use crate::page_state::PageState;
use crate::text;

verus! {

/// What the report has been told.
#[derive(Debug)]
pub enum ReportEvent<'a> {
    /// The state of the page, or how the error with which it was not found out is shown.
    PageState(Result<PageState, &'a str>),
    /// The page's next item: where it starts, where the one behind it starts, and how it is shown.
    Item { address: u32, next_address: u32, item: &'a str },
    /// The page's next item cannot be read.
    UnreadableItem { address: u32, next_address: u32 },
    /// The page has no more items.
    NoMoreItems,
}

/// What the report has to be told next.
#[derive(Debug, Clone, Copy, PartialEq, Eq, Structural)]
pub enum ReportAction {
    /// The state of a page.
    GetPageState { page_index: usize },
    /// The first item of the page, between two addresses.
    FirstItem { data_start: u32, data_end: u32 },
    /// The next item of the page.
    NextItem,
    /// Nothing: the report is complete.
    Finished,
    /// Nothing: the report stops at an item that cannot be read.
    Failed,
}

/// The name of a page state.
pub open spec fn state_name(state: PageState) -> Seq<char> {
    match state {
        PageState::Closed => "Closed"@,
        PageState::PartialOpen => "PartialOpen"@,
        PageState::Open => "Open"@,
    }
}

/// The line with which a page starts.
pub open spec fn page_line(page_index: nat, state: Seq<char>) -> Seq<char> {
    "  Page "@ + text::decimal(page_index) + " ("@ + state + "):\n"@
}

/// Where an item stands, at the end of its line.
pub open spec fn item_place(address: nat, next_address: nat) -> Seq<char> {
    " at "@ + text::decimal(address) + ".."@ + text::decimal(next_address) + "\n"@
}

/// What an event adds to the report.
pub open spec fn lines_for(event: ReportEvent, page_index: nat) -> Seq<char> {
    match event {
        ReportEvent::PageState(Ok(state)) => page_line(page_index, state_name(state)),
        ReportEvent::PageState(Err(error)) => page_line(
            page_index,
            "Error ("@ + error@ + ")"@,
        ),
        ReportEvent::Item { address, next_address, item } => "   Item "@ + item@ + item_place(
            address as nat,
            next_address as nat,
        ),
        ReportEvent::UnreadableItem { address, next_address } => "   Item COULD NOT BE READ"@
            + item_place(address as nat, next_address as nat),
        ReportEvent::NoMoreItems => Seq::empty(),
    }
}

/// The first line of a report.
pub open spec fn first_line() -> Seq<char> {
    "Items in flash:\n"@
}

/// How far a report has come.
pub struct ReportView {
    /// The layout of the flash range.
    pub layout: FlashLayout,
    /// The page that is reported on.
    pub page: nat,
    /// The text so far.
    pub text: Seq<char>,
}

/// How a report goes on from an event, and what it has to be told next. Each event adds its lines;
/// once a page has no more items the next is reported on, if there is one.
pub open spec fn report_step(report: ReportView, event: ReportEvent) -> (ReportView, ReportAction) {
    let told = ReportView { text: report.text + lines_for(event, report.page), ..report };
    match event {
        ReportEvent::PageState(_) => {
            let page = report.layout.at(report.page as int);
            let geometry = report.layout.geometry;
            (
                told,
                ReportAction::FirstItem {
                    data_start: (page.from() + geometry.start_marker()) as u32,
                    data_end: (page.to() - geometry.word()) as u32,
                },
            )
        },
        ReportEvent::Item { .. } => (told, ReportAction::NextItem),
        ReportEvent::UnreadableItem { .. } => (told, ReportAction::Failed),
        ReportEvent::NoMoreItems => if report.page + 1 < report.layout.pages() {
            (
                ReportView { page: report.page + 1, ..told },
                ReportAction::GetPageState { page_index: (report.page + 1) as usize },
            )
        } else {
            (told, ReportAction::Finished)
        },
    }
}

/// Print all items in flash to a string: page by page its state, then its items.
#[derive(Debug)]
pub struct PrintItems {
    layout: FlashLayout,
    page_index: usize,
    text: String,
}

impl View for PrintItems {
    type V = ReportView;

    closed spec fn view(&self) -> ReportView {
        ReportView { layout: self.layout, page: self.page_index as nat, text: self.text@ }
    }
}

impl PrintItems {
    /// The report's invariant.
    pub open spec fn wf(&self) -> bool {
        &&& self@.layout.usable()
        &&& self@.page < self@.layout.pages()
        &&& forall|i: int|
            #![trigger self@.layout.at(i)]
            0 <= i < self@.layout.pages() ==> self@.layout.at(i).from()
                + self@.layout.geometry.start_marker() <= u32::MAX
    }

    /// Begin a report. The first thing that it has to be told is the state of the first page.
    pub fn begin(layout: FlashLayout) -> (report: PrintItems)
        ensures
            report@ == (ReportView { layout, page: 0, text: first_line() }),
    {
        PrintItems { layout, page_index: 0, text: String::from_str("Items in flash:\n") }
    }

    /// Go on with the report. It is complete once the last page has no more items.
    pub fn step(&mut self, event: ReportEvent) -> (action: ReportAction)
        requires
            old(self).wf(),
        ensures
            final(self).wf(),
            (final(self)@, action) == report_step(old(self)@, event),
    {
        match event {
            ReportEvent::PageState(state) => {
                self.text.append("  Page ");
                text::append_decimal(&mut self.text, self.page_index as u64);
                self.text.append(" (");
                match state {
                    Ok(PageState::Closed) => self.text.append("Closed"),
                    Ok(PageState::PartialOpen) => self.text.append("PartialOpen"),
                    Ok(PageState::Open) => self.text.append("Open"),
                    Err(error) => {
                        self.text.append("Error (");
                        self.text.append(error);
                        self.text.append(")");
                    },
                }
                self.text.append("):\n");
                assert(self@.text =~= old(self)@.text + lines_for(event, old(self)@.page));
                let page = self.layout.page(self.page_index);
                assert(page == self.layout.at(self.page_index as int));
                ReportAction::FirstItem {
                    data_start: page.data_start_address(),
                    data_end: page.data_end_address(),
                }
            },
            ReportEvent::Item { address, next_address, item } => {
                self.text.append("   Item ");
                self.text.append(item);
                self.append_place(address, next_address);
                assert(self@.text =~= old(self)@.text + lines_for(event, old(self)@.page));
                ReportAction::NextItem
            },
            ReportEvent::UnreadableItem { address, next_address } => {
                self.text.append("   Item COULD NOT BE READ");
                self.append_place(address, next_address);
                assert(self@.text =~= old(self)@.text + lines_for(event, old(self)@.page));
                ReportAction::Failed
            },
            ReportEvent::NoMoreItems => {
                assert(self@.text =~= old(self)@.text + lines_for(event, old(self)@.page));
                if self.page_index < self.layout.page_count() - 1 {
                    self.page_index = self.page_index + 1;
                    ReportAction::GetPageState { page_index: self.page_index }
                } else {
                    ReportAction::Finished
                }
            },
        }
    }

    fn append_place(&mut self, address: u32, next_address: u32)
        ensures
            final(self).text@ == old(self).text@ + item_place(address as nat, next_address as nat),
            final(self).layout == old(self).layout,
            final(self).page_index == old(self).page_index,
    {
        self.text.append(" at ");
        text::append_decimal(&mut self.text, address as u64);
        self.text.append("..");
        text::append_decimal(&mut self.text, next_address as u64);
        self.text.append("\n");
        assert(self.text@ =~= old(self).text@ + item_place(address as nat, next_address as nat));
    }

    /// The report as far as it has come.
    pub fn into_text(self) -> (text: String)
        ensures
            text@ == self@.text,
    {
        self.text
    }
}

} // verus!
