//! The state of a page.

use vstd::prelude::*;

verus! {

/// The state of a page.
#[derive(Debug, Clone, Copy, PartialEq, Eq, Structural)]
pub enum PageState {
    /// This page was fully written and has now been sealed
    Closed,
    /// This page has been written to, but may have some space left over
    PartialOpen,
    /// This page is fully erased
    Open,
}

/// The state of a page whose markers are set or not. None has an end marker alone: that is
/// probably an interrupted erase.
pub open spec fn state_of_markers(start_marked: bool, end_marked: bool) -> Option<PageState> {
    match (start_marked, end_marked) {
        (true, true) => Some(PageState::Closed),
        (true, false) => Some(PageState::PartialOpen),
        (false, true) => None,
        (false, false) => Some(PageState::Open),
    }
}

impl PageState {
    /// The state of a page whose markers are set or not, or `None` if no page is like that.
    pub fn from_markers(start_marked: bool, end_marked: bool) -> (state: Option<PageState>)
        ensures
            state == state_of_markers(start_marked, end_marked),
    {
        match (start_marked, end_marked) {
            (true, true) => Some(PageState::Closed),
            (true, false) => Some(PageState::PartialOpen),
            // Probably an interrupted erase
            (false, true) => None,
            (false, false) => Some(PageState::Open),
        }
    }

    /// Returns `true` if the page state is [`Closed`].
    ///
    /// [`Closed`]: PageState::Closed
    #[must_use]
    pub fn is_closed(self) -> (closed: bool)
        ensures
            closed == (self == PageState::Closed),
    {
        matches!(self, PageState::Closed)
    }

    /// Returns `true` if the page state is [`PartialOpen`].
    ///
    /// [`PartialOpen`]: PageState::PartialOpen
    #[must_use]
    pub fn is_partial_open(self) -> (partial_open: bool)
        ensures
            partial_open == (self == PageState::PartialOpen),
    {
        matches!(self, PageState::PartialOpen)
    }

    /// Returns `true` if the page state is [`Open`].
    ///
    /// [`Open`]: PageState::Open
    #[must_use]
    pub fn is_open(self) -> (open: bool)
        ensures
            open == (self == PageState::Open),
    {
        matches!(self, PageState::Open)
    }
}

} // verus!
