//! Operations that alternate decisions with work on the flash and the cache.
//!
//! An [`Operation`] never touches flash itself. It says what is to be done next, as a
//! [`Request`], and decides how to go on from the [`Reply`]. Whoever drives it does the work,
//! blocking or not, and may stop between any two requests.

use vstd::prelude::*;

use crate::error::Error;
use crate::marker::MAX_WORD_SIZE;
use crate::page_state::PageState;

verus! {

/// What an operation asks for next.
#[derive(Debug, Clone, Copy)]
pub enum Request {
    /// Ask the cache for the state of a page.
    LookupPageState { page_index: usize },
    /// Tell the cache the state of a page. It is dirty if the flash is about to be changed.
    NoticePageState { page_index: usize, state: PageState, dirty: bool },
    /// Let the cache forget all it knows.
    InvalidateCacheState,
    /// Read from flash.
    Read { offset: u32, len: usize },
    /// Write the first `len` bytes of `data` to flash.
    Write { offset: u32, data: [u8; MAX_WORD_SIZE], len: usize },
    /// Erase the flash from `from` up to and not including `to`.
    Erase { from: u32, to: u32 },
}

/// What a request asks for.
pub enum RequestView {
    LookupPageState { page_index: usize },
    NoticePageState { page_index: usize, state: PageState, dirty: bool },
    InvalidateCacheState,
    Read { offset: int, len: nat },
    Write { offset: int, data: Seq<u8> },
    Erase { from: int, to: int },
}

impl View for Request {
    type V = RequestView;

    open spec fn view(&self) -> RequestView {
        match self {
            Request::LookupPageState { page_index } => RequestView::LookupPageState {
                page_index: *page_index,
            },
            Request::NoticePageState { page_index, state, dirty } => RequestView::NoticePageState {
                page_index: *page_index,
                state: *state,
                dirty: *dirty,
            },
            Request::InvalidateCacheState => RequestView::InvalidateCacheState,
            Request::Read { offset, len } => RequestView::Read {
                offset: *offset as int,
                len: *len as nat,
            },
            Request::Write { offset, data, len } => RequestView::Write {
                offset: *offset as int,
                data: data@.take(*len as int),
            },
            Request::Erase { from, to } => RequestView::Erase {
                from: *from as int,
                to: *to as int,
            },
        }
    }
}

/// What came of a request.
#[derive(Debug)]
pub enum Reply<'a, E> {
    /// The state that the cache holds of the page, if any.
    CachedPageState(Option<PageState>),
    /// The cache took note.
    Noted,
    /// The bytes that were read, or the flash's error.
    Read(Result<&'a [u8], E>),
    /// The flash was written or erased, or failed.
    Changed(Result<(), E>),
}

/// What a reply says.
pub enum ReplyView<E> {
    CachedPageState(Option<PageState>),
    Noted,
    Read(Result<Seq<u8>, E>),
    Changed(Result<(), E>),
}

impl<'a, E> View for Reply<'a, E> {
    type V = ReplyView<E>;

    open spec fn view(&self) -> ReplyView<E> {
        match self {
            Reply::CachedPageState(state) => ReplyView::CachedPageState(*state),
            Reply::Noted => ReplyView::Noted,
            Reply::Read(Ok(bytes)) => ReplyView::Read(Ok(bytes@)),
            Reply::Read(Err(error)) => ReplyView::Read(Err(*error)),
            Reply::Changed(result) => ReplyView::Changed(*result),
        }
    }
}

/// How an operation goes on.
pub enum Step<M, T> {
    /// It has another request.
    Pending(M),
    /// It is done.
    Finished(T),
}

/// An operation on a storage, whose errors on the flash are `E`.
pub trait Operation<E>: Sized {
    /// What the operation gives where it succeeds.
    type Value;

    /// The operation's invariant.
    spec fn wf(&self) -> bool;

    /// What the operation asks for next.
    spec fn asks(&self) -> RequestView;

    /// How the operation goes on from a reply.
    spec fn after(self, reply: ReplyView<E>) -> Step<Self, Result<Self::Value, Error<E>>>;

    /// The operation is done after at most this many replies.
    spec fn remaining(&self) -> nat;

    /// With every reply the operation comes closer to its end.
    proof fn progress(self, reply: ReplyView<E>)
        requires
            self.wf(),
        ensures
            0 < self.remaining(),
            self.after(reply) matches Step::Pending(next) ==> next.wf() && next.remaining()
                < self.remaining(),
    ;

    /// What is to be done next.
    fn request(&self) -> (request: Request)
        requires
            self.wf(),
        ensures
            request@ == self.asks(),
    ;

    /// Go on from what came of the request. A reply that does not answer the request finishes the
    /// operation with [`Error::LogicBug`].
    fn resume(self, reply: Reply<'_, E>) -> (step: Step<Self, Result<Self::Value, Error<E>>>)
        requires
            self.wf(),
        ensures
            step == self.after(reply@),
            step matches Step::Pending(next) ==> next.wf() && next.remaining() < self.remaining(),
    ;
}

/// A request asks for what stands in it: of the bytes to be written, the first ones.
pub proof fn law_request_asks_for_what_it_says(request: Request)
    ensures
        match request {
            Request::LookupPageState { page_index: i } => request@ == (
            RequestView::LookupPageState { page_index: i }),
            Request::NoticePageState { page_index: i, state: s, dirty: d } => request@ == (
            RequestView::NoticePageState { page_index: i, state: s, dirty: d }),
            Request::InvalidateCacheState => request@ == RequestView::InvalidateCacheState,
            Request::Read { offset: o, len: n } => request@ matches RequestView::Read {
                offset,
                len,
            } && offset == o && len == n,
            Request::Write { offset: o, data: bytes, len: n } => request@ matches
                RequestView::Write { offset, data } && offset == o && (n <= MAX_WORD_SIZE ==> data.len()
                == n && forall|i: int| 0 <= i < n ==> #[trigger] data[i] == bytes@[i]),
            Request::Erase { from: f, to: t } => request@ matches RequestView::Erase {
                from,
                to,
            } && from == f && to == t,
        },
{
}

/// A reply says what stands in it.
pub proof fn law_reply_says_what_it_holds<E>(reply: Reply<'_, E>)
    ensures
        match reply {
            Reply::CachedPageState(state) => reply@ == ReplyView::<E>::CachedPageState(state),
            Reply::Noted => reply@ == ReplyView::<E>::Noted,
            Reply::Read(Ok(bytes)) => reply@ == ReplyView::<E>::Read(Ok(bytes@)),
            Reply::Read(Err(error)) => reply@ == ReplyView::<E>::Read(Err(error)),
            Reply::Changed(result) => reply@ == ReplyView::<E>::Changed(result),
        },
{
}

} // verus!
