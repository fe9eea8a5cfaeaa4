//! Operations on all pages: the search for one in a given state, and the repair of corrupted ones.

use vstd::prelude::*;

use crate::error::Error;
use crate::flash_layout::{FlashLayout, FlashPage};
use crate::operation::{Operation, Reply, ReplyView, Request, RequestView, Step};
use crate::page_state::PageState;
use crate::storage::pages::{GetPageState, GetPageStatePhase, OpenPage, OpenPagePhase};

verus! {

/// Find the first page that is in the given page state.
///
/// The search starts at `starting_page_index` (and wraps around back to 0 if required).
#[derive(Debug, Clone, Copy, PartialEq, Eq, Structural)]
pub struct FindFirstPage {
    pub layout: FlashLayout,
    pub starting_page_index: usize,
    pub page_state: PageState,
    /// How many pages have been visited.
    pub visited: usize,
    /// The state of the page that is visited is found out.
    pub get: GetPageState,
}

impl<E> Operation<E> for FindFirstPage {
    type Value = Option<usize>;

    open spec fn wf(&self) -> bool {
        &&& self.layout.usable()
        &&& self.starting_page_index + self.layout.pages() - 1 <= usize::MAX
        &&& self.visited < self.layout.pages()
        &&& self.get.page == self.layout.at(
            self.layout.page_order(self.starting_page_index as int)[self.visited as int] as int,
        )
        &&& self.get.page.usable()
    }

    open spec fn asks(&self) -> RequestView {
        Operation::<E>::asks(&self.get)
    }

    open spec fn after(self, reply: ReplyView<E>) -> Step<Self, Result<Self::Value, Error<E>>> {
        match self.get.after(reply) {
            Step::Pending(get) => Step::Pending(FindFirstPage { get, ..self }),
            Step::Finished(Err(error)) => Step::Finished(Err(error)),
            Step::Finished(Ok(state)) => if state == self.page_state {
                Step::Finished(Ok(Some(self.get.page.index)))
            } else if self.visited + 1 < self.layout.pages() {
                Step::Pending(self.next_page())
            } else {
                Step::Finished(Ok(None))
            },
        }
    }

    open spec fn remaining(&self) -> nat {
        (4 * (self.layout.pages() - 1 - self.visited) + Operation::<E>::remaining(
            &self.get,
        )) as nat
    }

    proof fn progress(self, reply: ReplyView<E>) {
        self.get.progress(reply);
        if self.visited + 1 < self.layout.pages() {
            assert(self.next_page().get.page == self.layout.at(
                (self.starting_page_index + self.visited + 1) % self.layout.pages() as int,
            ));
        }
    }

    fn request(&self) -> (request: Request) {
        Operation::<E>::request(&self.get)
    }

    fn resume(self, reply: Reply<'_, E>) -> (step: Step<Self, Result<Self::Value, Error<E>>>) {
        match self.get.resume(reply) {
            Step::Pending(get) => Step::Pending(
                FindFirstPage {
                    layout: self.layout,
                    starting_page_index: self.starting_page_index,
                    page_state: self.page_state,
                    visited: self.visited,
                    get,
                },
            ),
            Step::Finished(Err(error)) => Step::Finished(Err(error)),
            Step::Finished(Ok(state)) => {
                if state == self.page_state {
                    return Step::Finished(Ok(Some(self.get.page.index)));
                }
                let visited: usize = self.visited + 1;
                if visited < self.layout.page_count() {
                    let page_index: usize = self.layout.page_from(
                        self.starting_page_index,
                        visited,
                    );
                    assert(self.layout.at(page_index as int).usable());
                    Step::Pending(
                        FindFirstPage {
                            layout: self.layout,
                            starting_page_index: self.starting_page_index,
                            page_state: self.page_state,
                            visited,
                            get: GetPageState {
                                page: self.layout.page(page_index),
                                phase: GetPageStatePhase::Lookup,
                            },
                        },
                    )
                } else {
                    Step::Finished(Ok(None))
                }
            },
        }
    }
}

impl FindFirstPage {
    /// The search, before its first step.
    pub open spec fn begun(
        layout: FlashLayout,
        starting_page_index: usize,
        page_state: PageState,
    ) -> FindFirstPage {
        FindFirstPage {
            layout,
            starting_page_index,
            page_state,
            visited: 0,
            get: GetPageState::begun(
                layout.at(layout.page_order(starting_page_index as int)[0] as int),
            ),
        }
    }

    /// The search, once it has come to the next page.
    pub open spec fn next_page(self) -> FindFirstPage {
        let page_index = self.layout.page_order(self.starting_page_index as int)[self.visited + 1];
        FindFirstPage {
            visited: (self.visited + 1) as usize,
            get: GetPageState::begun(self.layout.at(page_index as int)),
            ..self
        }
    }
}

/// How far the repair of a page has come.
#[derive(Debug, Clone, Copy, PartialEq, Eq, Structural)]
pub enum TryGeneralRepairPhase {
    /// The page's state is found out.
    GetState(GetPageState),
    /// The page is erased.
    Open(OpenPage),
}

/// Loop through the pages and get their state. If one returns the corrupted error,
/// the page is likely half-erased. Fix for that is to re-erase again to hopefully finish the job.
#[derive(Debug, Clone, Copy, PartialEq, Eq, Structural)]
pub struct TryGeneralRepair {
    pub layout: FlashLayout,
    /// The page that is visited.
    pub page_index: usize,
    pub phase: TryGeneralRepairPhase,
}

impl TryGeneralRepair {
    /// The repair, before its first step.
    pub open spec fn begun(layout: FlashLayout) -> TryGeneralRepair {
        TryGeneralRepair {
            layout,
            page_index: 0,
            phase: TryGeneralRepairPhase::GetState(GetPageState::begun(layout.at(0))),
        }
    }

    /// The page that is visited.
    pub open spec fn page(&self) -> FlashPage {
        match self.phase {
            TryGeneralRepairPhase::GetState(get) => get.page,
            TryGeneralRepairPhase::Open(open) => open.page,
        }
    }

    /// How the repair goes on behind a page: with the next, if there is one.
    pub open spec fn past_page<E>(self) -> Step<Self, Result<(), Error<E>>> {
        if self.page_index + 1 < self.layout.pages() {
            Step::Pending(
                TryGeneralRepair {
                    page_index: (self.page_index + 1) as usize,
                    phase: TryGeneralRepairPhase::GetState(
                        GetPageState::begun(self.layout.at(self.page_index + 1)),
                    ),
                    ..self
                },
            )
        } else {
            Step::Finished(Ok(()))
        }
    }

    fn next_page<E>(self) -> (step: Step<Self, Result<(), Error<E>>>)
        requires
            self.layout.usable(),
            self.page_index < self.layout.pages(),
        ensures
            step == self.past_page::<E>(),
            step matches Step::Pending(next) ==> Operation::<E>::wf(&next),
    {
        let page_index: usize = self.page_index;
        if page_index < self.layout.page_count() - 1 {
            assert(self.layout.at(page_index + 1).usable());
            Step::Pending(
                TryGeneralRepair {
                    layout: self.layout,
                    page_index: page_index + 1,
                    phase: TryGeneralRepairPhase::GetState(
                        GetPageState {
                            page: self.layout.page(page_index + 1),
                            phase: GetPageStatePhase::Lookup,
                        },
                    ),
                },
            )
        } else {
            Step::Finished(Ok(()))
        }
    }
}

impl<E> Operation<E> for TryGeneralRepair {
    type Value = ();

    open spec fn wf(&self) -> bool {
        &&& self.layout.usable()
        &&& self.page_index < self.layout.pages()
        &&& self.page() == self.layout.at(self.page_index as int)
        &&& self.page().usable()
    }

    open spec fn asks(&self) -> RequestView {
        match self.phase {
            TryGeneralRepairPhase::GetState(get) => Operation::<E>::asks(&get),
            TryGeneralRepairPhase::Open(open) => Operation::<E>::asks(&open),
        }
    }

    open spec fn after(self, reply: ReplyView<E>) -> Step<Self, Result<Self::Value, Error<E>>> {
        match self.phase {
            TryGeneralRepairPhase::GetState(get) => match get.after(reply) {
                Step::Pending(get) => Step::Pending(
                    TryGeneralRepair { phase: TryGeneralRepairPhase::GetState(get), ..self },
                ),
                Step::Finished(Err(Error::Corrupted)) => Step::Pending(
                    TryGeneralRepair {
                        phase: TryGeneralRepairPhase::Open(
                            OpenPage { page: get.page, phase: OpenPagePhase::Notice },
                        ),
                        ..self
                    },
                ),
                Step::Finished(Err(Error::LogicBug)) => Step::Finished(Err(Error::LogicBug)),
                Step::Finished(_) => self.past_page::<E>(),
            },
            TryGeneralRepairPhase::Open(open) => match open.after(reply) {
                Step::Pending(open) => Step::Pending(
                    TryGeneralRepair { phase: TryGeneralRepairPhase::Open(open), ..self },
                ),
                Step::Finished(Ok(())) => self.past_page::<E>(),
                Step::Finished(Err(error)) => Step::Finished(Err(error)),
            },
        }
    }

    open spec fn remaining(&self) -> nat {
        (6 * (self.layout.pages() - 1 - self.page_index) + match self.phase {
            TryGeneralRepairPhase::GetState(get) => 2 + Operation::<E>::remaining(&get),
            TryGeneralRepairPhase::Open(open) => Operation::<E>::remaining(&open),
        }) as nat
    }

    proof fn progress(self, reply: ReplyView<E>) {
        match self.phase {
            TryGeneralRepairPhase::GetState(get) => get.progress(reply),
            TryGeneralRepairPhase::Open(open) => open.progress(reply),
        }
        if self.page_index + 1 < self.layout.pages() {
            assert(self.layout.at(self.page_index + 1).usable());
        }
    }

    fn request(&self) -> (request: Request) {
        match self.phase {
            TryGeneralRepairPhase::GetState(get) => Operation::<E>::request(&get),
            TryGeneralRepairPhase::Open(open) => Operation::<E>::request(&open),
        }
    }

    fn resume(self, reply: Reply<'_, E>) -> (step: Step<Self, Result<Self::Value, Error<E>>>) {
        match self.phase {
            TryGeneralRepairPhase::GetState(get) => match get.resume(reply) {
                Step::Pending(get) => Step::Pending(
                    TryGeneralRepair {
                        layout: self.layout,
                        page_index: self.page_index,
                        phase: TryGeneralRepairPhase::GetState(get),
                    },
                ),
                Step::Finished(Err(Error::Corrupted)) => Step::Pending(
                    TryGeneralRepair {
                        layout: self.layout,
                        page_index: self.page_index,
                        phase: TryGeneralRepairPhase::Open(
                            OpenPage { page: get.page, phase: OpenPagePhase::Notice },
                        ),
                    },
                ),
                Step::Finished(Err(Error::LogicBug)) => Step::Finished(Err(Error::LogicBug)),
                Step::Finished(_) => self.next_page(),
            },
            TryGeneralRepairPhase::Open(open) => match open.resume(reply) {
                Step::Pending(open) => Step::Pending(
                    TryGeneralRepair {
                        layout: self.layout,
                        page_index: self.page_index,
                        phase: TryGeneralRepairPhase::Open(open),
                    },
                ),
                Step::Finished(Ok(())) => self.next_page(),
                Step::Finished(Err(error)) => Step::Finished(Err(error)),
            },
        }
    }
}

} // verus!
