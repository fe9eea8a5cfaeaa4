//! Operations on one page: its state, and opening and closing it.

use vstd::prelude::*;

use crate::error::Error;
use crate::flash_layout;
use crate::flash_layout::{FlashLayout, FlashPage, StorageVersion};
use crate::marker;
use crate::marker::{MARKER, MAX_WORD_SIZE};
use crate::operation::{Operation, Reply, ReplyView, Request, RequestView, Step};
use crate::page_state;
use crate::page_state::PageState;

verus! {

impl FlashPage {
    /// The page's markers can be read and written: their addresses have 32 bits and a word fits in
    /// a buffer.
    pub open spec fn usable(&self) -> bool {
        &&& self.layout.geometry.compatible()
        &&& self.layout.geometry.bufferable()
        &&& self.start_fits()
        &&& self.end_fits()
        &&& self.layout.geometry.word() <= self.to()
    }
}

impl FlashLayout {
    /// All the pages can be counted and used.
    pub open spec fn usable(&self) -> bool {
        &&& self.countable()
        &&& forall|i: int| #![trigger self.at(i)] 0 <= i < self.pages() ==> self.at(i).usable()
    }

    /// All the pages can be counted and their start markers read.
    pub open spec fn startable(&self) -> bool {
        &&& self.countable()
        &&& self.geometry.compatible()
        &&& self.geometry.bufferable()
        &&& forall|i: int| #![trigger self.at(i)] 0 <= i < self.pages() ==> self.at(i).start_fits()
    }
}

/// How far finding out a page's state has come.
#[derive(Debug, Clone, Copy, PartialEq, Eq, Structural)]
pub enum GetPageStatePhase {
    /// The cache is asked.
    Lookup,
    /// The start marker is read.
    ReadStart,
    /// The end marker is read.
    ReadEnd { start_marked: bool },
    /// The cache is told.
    Notice { state: PageState },
}

/// Get the state of a page: what the cache says, else what its markers say.
#[derive(Debug, Clone, Copy, PartialEq, Eq, Structural)]
pub struct GetPageState {
    pub page: FlashPage,
    pub phase: GetPageStatePhase,
}

impl GetPageState {
    /// The operation on a page, before its first step.
    pub open spec fn begun(page: FlashPage) -> GetPageState {
        GetPageState { page, phase: GetPageStatePhase::Lookup }
    }
}

impl<E> Operation<E> for GetPageState {
    type Value = PageState;

    open spec fn wf(&self) -> bool {
        self.page.usable()
    }

    open spec fn asks(&self) -> RequestView {
        match self.phase {
            GetPageStatePhase::Lookup => RequestView::LookupPageState {
                page_index: self.page.index,
            },
            GetPageStatePhase::ReadStart => RequestView::Read {
                offset: self.page.from(),
                len: self.page.layout.geometry.start_marker(),
            },
            GetPageStatePhase::ReadEnd { .. } => RequestView::Read {
                offset: self.page.to() - self.page.layout.geometry.word(),
                len: self.page.layout.geometry.read_size as nat,
            },
            // Not dirty because nothing changed and nothing can be inconsistent
            GetPageStatePhase::Notice { state } => RequestView::NoticePageState {
                page_index: self.page.index,
                state,
                dirty: false,
            },
        }
    }

    open spec fn after(self, reply: ReplyView<E>) -> Step<Self, Result<Self::Value, Error<E>>> {
        match (self.phase, reply) {
            (
                GetPageStatePhase::Lookup,
                ReplyView::CachedPageState(Some(state)),
            ) => Step::Finished(Ok(state)),
            (GetPageStatePhase::Lookup, ReplyView::CachedPageState(None)) => Step::Pending(
                GetPageState { phase: GetPageStatePhase::ReadStart, ..self },
            ),
            (
                GetPageStatePhase::ReadStart | GetPageStatePhase::ReadEnd { .. },
                ReplyView::Read(Err(value)),
            ) => Step::Finished(Err(Error::Storage { value })),
            (GetPageStatePhase::ReadStart, ReplyView::Read(Ok(bytes))) => if bytes.len()
                != self.page.layout.geometry.start_marker() {
                Step::Finished(Err(Error::LogicBug))
            } else {
                match flash_layout::page_start_status(bytes) {
                    Ok(version) => Step::Pending(
                        GetPageState {
                            phase: GetPageStatePhase::ReadEnd { start_marked: version is Some },
                            ..self
                        },
                    ),
                    Err(()) => Step::Finished(Err(Error::Corrupted)),
                }
            },
            (GetPageStatePhase::ReadEnd { start_marked }, ReplyView::Read(Ok(bytes))) => if bytes.len()
                != self.page.layout.geometry.read_size {
                Step::Finished(Err(Error::LogicBug))
            } else {
                match page_state::state_of_markers(start_marked, marker::is_marker_word(bytes)) {
                    Some(state) => Step::Pending(
                        GetPageState { phase: GetPageStatePhase::Notice { state }, ..self },
                    ),
                    None => Step::Finished(Err(Error::Corrupted)),
                }
            },
            (GetPageStatePhase::Notice { state }, ReplyView::Noted) => Step::Finished(Ok(state)),
            _ => Step::Finished(Err(Error::LogicBug)),
        }
    }

    open spec fn remaining(&self) -> nat {
        match self.phase {
            GetPageStatePhase::Lookup => 4,
            GetPageStatePhase::ReadStart => 3,
            GetPageStatePhase::ReadEnd { .. } => 2,
            GetPageStatePhase::Notice { .. } => 1,
        }
    }

    proof fn progress(self, reply: ReplyView<E>) {
    }

    fn request(&self) -> (request: Request) {
        match self.phase {
            GetPageStatePhase::Lookup => Request::LookupPageState { page_index: self.page.index },
            GetPageStatePhase::ReadStart => Request::Read {
                offset: self.page.start_marker_address(),
                len: self.page.start_marker_size(),
            },
            GetPageStatePhase::ReadEnd { .. } => Request::Read {
                offset: self.page.end_marker_address(),
                len: self.page.layout.geometry.read_size,
            },
            // Not dirty because nothing changed and nothing can be inconsistent
            GetPageStatePhase::Notice { state } => Request::NoticePageState {
                page_index: self.page.index,
                state,
                dirty: false,
            },
        }
    }

    fn resume(self, reply: Reply<'_, E>) -> (step: Step<Self, Result<Self::Value, Error<E>>>) {
        match (self.phase, reply) {
            (GetPageStatePhase::Lookup, Reply::CachedPageState(Some(state))) => Step::Finished(
                Ok(state),
            ),
            (GetPageStatePhase::Lookup, Reply::CachedPageState(None)) => Step::Pending(
                GetPageState { page: self.page, phase: GetPageStatePhase::ReadStart },
            ),
            (GetPageStatePhase::ReadStart, Reply::Read(Err(value))) => Step::Finished(
                Err(Error::Storage { value }),
            ),
            (GetPageStatePhase::ReadStart, Reply::Read(Ok(bytes))) => {
                if bytes.len() != self.page.start_marker_size() {
                    return Step::Finished(Err(Error::LogicBug));
                }
                match self.page.start_is_marked(bytes) {
                    Ok(start_marked) => Step::Pending(
                        GetPageState {
                            page: self.page,
                            phase: GetPageStatePhase::ReadEnd { start_marked },
                        },
                    ),
                    Err(error) => Step::Finished(Err(error)),
                }
            },
            (GetPageStatePhase::ReadEnd { .. }, Reply::Read(Err(value))) => Step::Finished(
                Err(Error::Storage { value }),
            ),
            (GetPageStatePhase::ReadEnd { start_marked }, Reply::Read(Ok(bytes))) => {
                if bytes.len() != self.page.layout.geometry.read_size {
                    return Step::Finished(Err(Error::LogicBug));
                }
                match PageState::from_markers(start_marked, self.page.end_is_marked(bytes)) {
                    Some(state) => Step::Pending(
                        GetPageState {
                            page: self.page,
                            phase: GetPageStatePhase::Notice { state },
                        },
                    ),
                    None => Step::Finished(Err(Error::Corrupted)),
                }
            },
            (GetPageStatePhase::Notice { state }, Reply::Noted) => Step::Finished(Ok(state)),
            _ => Step::Finished(Err(Error::LogicBug)),
        }
    }
}

/// How far opening a page has come.
#[derive(Debug, Clone, Copy, PartialEq, Eq, Structural)]
pub enum OpenPagePhase {
    /// The cache is told.
    Notice,
    /// The page is erased.
    Erase,
}

/// Erase the page to open it again.
#[derive(Debug, Clone, Copy, PartialEq, Eq, Structural)]
pub struct OpenPage {
    pub page: FlashPage,
    pub phase: OpenPagePhase,
}

impl OpenPage {
    /// The operation on a page, before its first step.
    pub open spec fn begun(page: FlashPage) -> OpenPage {
        OpenPage { page, phase: OpenPagePhase::Notice }
    }
}

impl<E> Operation<E> for OpenPage {
    type Value = ();

    open spec fn wf(&self) -> bool {
        self.page.start_fits() && self.page.end_fits()
    }

    open spec fn asks(&self) -> RequestView {
        match self.phase {
            OpenPagePhase::Notice => RequestView::NoticePageState {
                page_index: self.page.index,
                state: PageState::Open,
                dirty: true,
            },
            OpenPagePhase::Erase => RequestView::Erase {
                from: self.page.from(),
                to: self.page.to(),
            },
        }
    }

    open spec fn after(self, reply: ReplyView<E>) -> Step<Self, Result<Self::Value, Error<E>>> {
        match (self.phase, reply) {
            (OpenPagePhase::Notice, ReplyView::Noted) => Step::Pending(
                OpenPage { phase: OpenPagePhase::Erase, ..self },
            ),
            (OpenPagePhase::Erase, ReplyView::Changed(result)) => Step::Finished(
                flash_result(result),
            ),
            _ => Step::Finished(Err(Error::LogicBug)),
        }
    }

    open spec fn remaining(&self) -> nat {
        match self.phase {
            OpenPagePhase::Notice => 2,
            OpenPagePhase::Erase => 1,
        }
    }

    proof fn progress(self, reply: ReplyView<E>) {
    }

    fn request(&self) -> (request: Request) {
        match self.phase {
            OpenPagePhase::Notice => Request::NoticePageState {
                page_index: self.page.index,
                state: PageState::Open,
                dirty: true,
            },
            OpenPagePhase::Erase => Request::Erase {
                from: self.page.start_address(),
                to: self.page.end_address(),
            },
        }
    }

    fn resume(self, reply: Reply<'_, E>) -> (step: Step<Self, Result<Self::Value, Error<E>>>) {
        match (self.phase, reply) {
            (OpenPagePhase::Notice, Reply::Noted) => Step::Pending(
                OpenPage { page: self.page, phase: OpenPagePhase::Erase },
            ),
            (OpenPagePhase::Erase, Reply::Changed(result)) => Step::Finished(
                storage_result(result),
            ),
            _ => Step::Finished(Err(Error::LogicBug)),
        }
    }
}

/// What becomes of the flash's own result.
pub open spec fn flash_result<E>(result: Result<(), E>) -> Result<(), Error<E>> {
    match result {
        Ok(()) => Ok(()),
        Err(value) => Err(Error::Storage { value }),
    }
}

pub(crate) fn storage_result<E>(result: Result<(), E>) -> (mapped: Result<(), Error<E>>)
    ensures
        mapped == flash_result(result),
{
    match result {
        Ok(()) => Ok(()),
        Err(value) => Err(Error::Storage { value }),
    }
}

/// How far partially closing a page has come.
#[derive(Debug, Clone, Copy, PartialEq, Eq, Structural)]
pub enum PartialClosePagePhase {
    /// The page's state is found out.
    GetState(GetPageState),
    /// The cache is told.
    Notice,
    /// The start marker is written.
    WriteStart,
}

/// Partially close a page by writing the start marker.
///
/// Gives the state that the page is in then. A page that is not open is left as it is.
#[derive(Debug, Clone, Copy, PartialEq, Eq, Structural)]
pub struct PartialClosePage {
    pub page: FlashPage,
    pub version: StorageVersion,
    pub phase: PartialClosePagePhase,
}

impl PartialClosePage {
    /// The operation on a page, before its first step.
    pub open spec fn begun(page: FlashPage, version: StorageVersion) -> PartialClosePage {
        PartialClosePage {
            page,
            version,
            phase: PartialClosePagePhase::GetState(GetPageState::begun(page)),
        }
    }
}

impl<E> Operation<E> for PartialClosePage {
    type Value = PageState;

    open spec fn wf(&self) -> bool {
        &&& self.page.usable()
        &&& self.phase matches PartialClosePagePhase::GetState(get) ==> get.page == self.page
    }

    open spec fn asks(&self) -> RequestView {
        match self.phase {
            PartialClosePagePhase::GetState(get) => Operation::<E>::asks(&get),
            PartialClosePagePhase::Notice => RequestView::NoticePageState {
                page_index: self.page.index,
                state: PageState::PartialOpen,
                dirty: true,
            },
            PartialClosePagePhase::WriteStart => RequestView::Write {
                offset: self.page.from(),
                data: self.version.start_marker(self.page.layout.geometry.start_marker()),
            },
        }
    }

    open spec fn after(self, reply: ReplyView<E>) -> Step<Self, Result<Self::Value, Error<E>>> {
        match (self.phase, reply) {
            (PartialClosePagePhase::GetState(get), _) => match get.after(reply) {
                Step::Pending(get) => Step::Pending(
                    PartialClosePage { phase: PartialClosePagePhase::GetState(get), ..self },
                ),
                Step::Finished(Ok(PageState::Open)) => Step::Pending(
                    PartialClosePage { phase: PartialClosePagePhase::Notice, ..self },
                ),
                Step::Finished(result) => Step::Finished(result),
            },
            (PartialClosePagePhase::Notice, ReplyView::Noted) => Step::Pending(
                PartialClosePage { phase: PartialClosePagePhase::WriteStart, ..self },
            ),
            (PartialClosePagePhase::WriteStart, ReplyView::Changed(Ok(()))) => Step::Finished(
                Ok(PageState::PartialOpen),
            ),
            (PartialClosePagePhase::WriteStart, ReplyView::Changed(Err(value))) => Step::Finished(
                Err(Error::Storage { value }),
            ),
            _ => Step::Finished(Err(Error::LogicBug)),
        }
    }

    open spec fn remaining(&self) -> nat {
        match self.phase {
            PartialClosePagePhase::GetState(get) => 2 + Operation::<E>::remaining(&get),
            PartialClosePagePhase::Notice => 2,
            PartialClosePagePhase::WriteStart => 1,
        }
    }

    proof fn progress(self, reply: ReplyView<E>) {
        if let PartialClosePagePhase::GetState(get) = self.phase {
            get.progress(reply);
        }
    }

    fn request(&self) -> (request: Request) {
        match self.phase {
            PartialClosePagePhase::GetState(get) => Operation::<E>::request(&get),
            PartialClosePagePhase::Notice => Request::NoticePageState {
                page_index: self.page.index,
                state: PageState::PartialOpen,
                dirty: true,
            },
            PartialClosePagePhase::WriteStart => {
                let data = self.version.page_start_buffer();
                let len: usize = self.page.start_marker_size();
                assert(data@.take(len as int) =~= self.version.start_marker(len as nat));
                Request::Write { offset: self.page.start_marker_address(), data, len }
            },
        }
    }

    fn resume(self, reply: Reply<'_, E>) -> (step: Step<Self, Result<Self::Value, Error<E>>>) {
        match self.phase {
            PartialClosePagePhase::GetState(get) => match get.resume(reply) {
                Step::Pending(get) => Step::Pending(
                    PartialClosePage {
                        page: self.page,
                        version: self.version,
                        phase: PartialClosePagePhase::GetState(get),
                    },
                ),
                Step::Finished(Ok(PageState::Open)) => Step::Pending(
                    PartialClosePage {
                        page: self.page,
                        version: self.version,
                        phase: PartialClosePagePhase::Notice,
                    },
                ),
                Step::Finished(result) => Step::Finished(result),
            },
            PartialClosePagePhase::Notice => match reply {
                Reply::Noted => Step::Pending(
                    PartialClosePage {
                        page: self.page,
                        version: self.version,
                        phase: PartialClosePagePhase::WriteStart,
                    },
                ),
                _ => Step::Finished(Err(Error::LogicBug)),
            },
            PartialClosePagePhase::WriteStart => match reply {
                Reply::Changed(Ok(())) => Step::Finished(Ok(PageState::PartialOpen)),
                Reply::Changed(Err(value)) => Step::Finished(Err(Error::Storage { value })),
                _ => Step::Finished(Err(Error::LogicBug)),
            },
        }
    }
}

/// How far closing a page has come.
#[derive(Debug, Clone, Copy, PartialEq, Eq, Structural)]
pub enum ClosePagePhase {
    /// The page is partially closed.
    PartialClose(PartialClosePage),
    /// The cache is told.
    Notice,
    /// The end marker is written.
    WriteEnd,
}

/// Fully closes a page by writing both the start and end marker.
#[derive(Debug, Clone, Copy, PartialEq, Eq, Structural)]
pub struct ClosePage {
    pub page: FlashPage,
    pub phase: ClosePagePhase,
}

impl ClosePage {
    /// The operation on a page, before its first step.
    pub open spec fn begun(page: FlashPage, version: StorageVersion) -> ClosePage {
        ClosePage {
            page,
            phase: ClosePagePhase::PartialClose(PartialClosePage::begun(page, version)),
        }
    }
}

impl<E> Operation<E> for ClosePage {
    type Value = ();

    open spec fn wf(&self) -> bool {
        &&& self.page.usable()
        &&& self.phase matches ClosePagePhase::PartialClose(partial) ==> partial.page == self.page
            && Operation::<E>::wf(&partial)
    }

    open spec fn asks(&self) -> RequestView {
        match self.phase {
            ClosePagePhase::PartialClose(partial) => Operation::<E>::asks(&partial),
            ClosePagePhase::Notice => RequestView::NoticePageState {
                page_index: self.page.index,
                state: PageState::Closed,
                dirty: true,
            },
            ClosePagePhase::WriteEnd => RequestView::Write {
                offset: self.page.to() - self.page.layout.geometry.word(),
                data: marker::marker_bytes(self.page.layout.geometry.word()),
            },
        }
    }

    open spec fn after(self, reply: ReplyView<E>) -> Step<Self, Result<Self::Value, Error<E>>> {
        match (self.phase, reply) {
            (ClosePagePhase::PartialClose(partial), _) => match partial.after(reply) {
                Step::Pending(partial) => Step::Pending(
                    ClosePage { phase: ClosePagePhase::PartialClose(partial), ..self },
                ),
                Step::Finished(Ok(PageState::PartialOpen)) => Step::Pending(
                    ClosePage { phase: ClosePagePhase::Notice, ..self },
                ),
                Step::Finished(Ok(_)) => Step::Finished(Ok(())),
                Step::Finished(Err(error)) => Step::Finished(Err(error)),
            },
            (ClosePagePhase::Notice, ReplyView::Noted) => Step::Pending(
                ClosePage { phase: ClosePagePhase::WriteEnd, ..self },
            ),
            (ClosePagePhase::WriteEnd, ReplyView::Changed(result)) => Step::Finished(
                flash_result(result),
            ),
            _ => Step::Finished(Err(Error::LogicBug)),
        }
    }

    open spec fn remaining(&self) -> nat {
        match self.phase {
            ClosePagePhase::PartialClose(partial) => 2 + Operation::<E>::remaining(&partial),
            ClosePagePhase::Notice => 2,
            ClosePagePhase::WriteEnd => 1,
        }
    }

    proof fn progress(self, reply: ReplyView<E>) {
        if let ClosePagePhase::PartialClose(partial) = self.phase {
            partial.progress(reply);
        }
    }

    fn request(&self) -> (request: Request) {
        match self.phase {
            ClosePagePhase::PartialClose(partial) => Operation::<E>::request(&partial),
            ClosePagePhase::Notice => Request::NoticePageState {
                page_index: self.page.index,
                state: PageState::Closed,
                dirty: true,
            },
            ClosePagePhase::WriteEnd => {
                let data: [u8; MAX_WORD_SIZE] = [MARKER; MAX_WORD_SIZE];
                let len: usize = self.page.end_marker_size();
                assert(data@.take(len as int) =~= marker::marker_bytes(len as nat));
                Request::Write { offset: self.page.end_marker_address(), data, len }
            },
        }
    }

    fn resume(self, reply: Reply<'_, E>) -> (step: Step<Self, Result<Self::Value, Error<E>>>) {
        match self.phase {
            ClosePagePhase::PartialClose(partial) => match partial.resume(reply) {
                Step::Pending(partial) => Step::Pending(
                    ClosePage { page: self.page, phase: ClosePagePhase::PartialClose(partial) },
                ),
                Step::Finished(Ok(PageState::PartialOpen)) => Step::Pending(
                    ClosePage { page: self.page, phase: ClosePagePhase::Notice },
                ),
                Step::Finished(Ok(_)) => Step::Finished(Ok(())),
                Step::Finished(Err(error)) => Step::Finished(Err(error)),
            },
            ClosePagePhase::Notice => match reply {
                Reply::Noted => Step::Pending(
                    ClosePage { page: self.page, phase: ClosePagePhase::WriteEnd },
                ),
                _ => Step::Finished(Err(Error::LogicBug)),
            },
            ClosePagePhase::WriteEnd => match reply {
                Reply::Changed(result) => Step::Finished(storage_result(result)),
                _ => Step::Finished(Err(Error::LogicBug)),
            },
        }
    }
}

} // verus!
