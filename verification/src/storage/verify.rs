//! Operations on the whole range: erasing it, and verifying under which version it was written.

use vstd::prelude::*;

use crate::error::Error;
use crate::flash_layout;
use crate::flash_layout::{FlashLayout, StorageVersion};
use crate::operation::{Operation, Reply, ReplyView, Request, RequestView, Step};
use crate::storage::pages;

verus! {

/// How `verify()` should handle mismatches.
#[derive(Debug, Clone, Copy, PartialEq, Eq, Structural)]
pub enum VersionPolicy {
    /// Return an error if a mismatch is found.
    ErrorOnMismatch,
    /// Erase the full flash range if a mismatch is found.
    EraseOnMismatch,
}

/// Resets the flash in the entire given flash range.
#[derive(Debug, Clone, Copy, PartialEq, Eq, Structural)]
pub struct EraseAll {
    pub layout: FlashLayout,
}

impl<E> Operation<E> for EraseAll {
    type Value = ();

    open spec fn wf(&self) -> bool {
        true
    }

    open spec fn asks(&self) -> RequestView {
        RequestView::Erase { from: self.layout.start as int, to: self.layout.end as int }
    }

    open spec fn after(self, reply: ReplyView<E>) -> Step<Self, Result<Self::Value, Error<E>>> {
        match reply {
            ReplyView::Changed(result) => Step::Finished(pages::flash_result(result)),
            _ => Step::Finished(Err(Error::LogicBug)),
        }
    }

    open spec fn remaining(&self) -> nat {
        1
    }

    proof fn progress(self, reply: ReplyView<E>) {
    }

    fn request(&self) -> (request: Request) {
        Request::Erase { from: self.layout.start, to: self.layout.end }
    }

    fn resume(self, reply: Reply<'_, E>) -> (step: Step<Self, Result<Self::Value, Error<E>>>) {
        match reply {
            Reply::Changed(result) => Step::Finished(pages::storage_result(result)),
            _ => Step::Finished(Err(Error::LogicBug)),
        }
    }
}

/// How far the verification of a storage has come.
#[derive(Debug, Clone, Copy, PartialEq, Eq, Structural)]
pub enum VerifyPhase {
    /// The cache forgets all it knows.
    Invalidate,
    /// The start marker of a page is read.
    ReadStart { page_index: usize },
    /// The whole range is erased.
    Erase(EraseAll),
    /// The cache forgets all it knows of what was erased.
    InvalidateErased,
}

/// Verify that all pages that are not erased were written under the storage's version.
#[derive(Debug, Clone, Copy, PartialEq, Eq, Structural)]
pub struct Verify {
    pub layout: FlashLayout,
    pub version: StorageVersion,
    pub policy: VersionPolicy,
    pub phase: VerifyPhase,
}

impl Verify {
    /// The verification, before its first step.
    pub open spec fn begun(
        layout: FlashLayout,
        version: StorageVersion,
        policy: VersionPolicy,
    ) -> Verify {
        Verify { layout, version, policy, phase: VerifyPhase::Invalidate }
    }

    /// How the verification goes on behind a page that has nothing against it: with the next, if
    /// there is one.
    pub open spec fn past_page<E>(self, page_index: int) -> Step<Self, Result<(), Error<E>>> {
        if page_index + 1 < self.layout.pages() {
            Step::Pending(
                Verify {
                    phase: VerifyPhase::ReadStart { page_index: (page_index + 1) as usize },
                    ..self
                },
            )
        } else {
            Step::Finished(Ok(()))
        }
    }

    /// How the verification goes on from what a page's start marker says.
    pub open spec fn judged<E>(
        self,
        page_index: int,
        status: Result<Option<StorageVersion>, ()>,
    ) -> Step<Self, Result<(), Error<E>>> {
        match status {
            Err(()) => Step::Finished(Err(Error::Corrupted)),
            Ok(None) => self.past_page::<E>(page_index),
            Ok(Some(actual)) => if actual == self.version {
                self.past_page::<E>(page_index)
            } else {
                match self.policy {
                    VersionPolicy::ErrorOnMismatch => Step::Finished(
                        Err(Error::VersionMismatch { expected: self.version, actual }),
                    ),
                    VersionPolicy::EraseOnMismatch => Step::Pending(
                        Verify {
                            phase: VerifyPhase::Erase(EraseAll { layout: self.layout }),
                            ..self
                        },
                    ),
                }
            },
        }
    }

    fn next_page<E>(self, page_index: usize) -> (step: Step<Self, Result<(), Error<E>>>)
        requires
            self.layout.startable(),
            page_index < self.layout.pages(),
        ensures
            step == self.past_page::<E>(page_index as int),
            step matches Step::Pending(next) ==> Operation::<E>::wf(&next),
    {
        if page_index < self.layout.page_count() - 1 {
            Step::Pending(
                Verify {
                    layout: self.layout,
                    version: self.version,
                    policy: self.policy,
                    phase: VerifyPhase::ReadStart { page_index: page_index + 1 },
                },
            )
        } else {
            Step::Finished(Ok(()))
        }
    }
}

impl<E> Operation<E> for Verify {
    type Value = ();

    open spec fn wf(&self) -> bool {
        &&& self.layout.startable()
        &&& self.phase matches VerifyPhase::ReadStart { page_index } ==> page_index
            < self.layout.pages()
    }

    open spec fn asks(&self) -> RequestView {
        match self.phase {
            VerifyPhase::Invalidate | VerifyPhase::InvalidateErased =>
                RequestView::InvalidateCacheState,
            VerifyPhase::ReadStart { page_index } => RequestView::Read {
                offset: self.layout.at(page_index as int).from(),
                len: self.layout.geometry.start_marker(),
            },
            VerifyPhase::Erase(erase) => Operation::<E>::asks(&erase),
        }
    }

    open spec fn after(self, reply: ReplyView<E>) -> Step<Self, Result<Self::Value, Error<E>>> {
        match (self.phase, reply) {
            (VerifyPhase::Invalidate, ReplyView::Noted) => Step::Pending(
                Verify { phase: VerifyPhase::ReadStart { page_index: 0 }, ..self },
            ),
            (VerifyPhase::ReadStart { .. }, ReplyView::Read(Err(value))) => Step::Finished(
                Err(Error::Storage { value }),
            ),
            (VerifyPhase::ReadStart { page_index }, ReplyView::Read(Ok(bytes))) => if bytes.len()
                != self.layout.geometry.start_marker() {
                Step::Finished(Err(Error::LogicBug))
            } else {
                self.judged::<E>(page_index as int, flash_layout::page_start_status(bytes))
            },
            (VerifyPhase::Erase(erase), _) => match erase.after(reply) {
                Step::Pending(erase) => Step::Pending(
                    Verify { phase: VerifyPhase::Erase(erase), ..self },
                ),
                Step::Finished(Ok(())) => Step::Pending(
                    Verify { phase: VerifyPhase::InvalidateErased, ..self },
                ),
                Step::Finished(Err(error)) => Step::Finished(Err(error)),
            },
            (VerifyPhase::InvalidateErased, ReplyView::Noted) => Step::Finished(Ok(())),
            _ => Step::Finished(Err(Error::LogicBug)),
        }
    }

    open spec fn remaining(&self) -> nat {
        match self.phase {
            VerifyPhase::Invalidate => 3 + self.layout.pages(),
            VerifyPhase::ReadStart { page_index } => (2 + self.layout.pages() - page_index) as nat,
            VerifyPhase::Erase(_) => 2,
            VerifyPhase::InvalidateErased => 1,
        }
    }

    proof fn progress(self, reply: ReplyView<E>) {
    }

    fn request(&self) -> (request: Request) {
        match self.phase {
            VerifyPhase::Invalidate => Request::InvalidateCacheState,
            VerifyPhase::InvalidateErased => Request::InvalidateCacheState,
            VerifyPhase::ReadStart { page_index } => {
                let page = self.layout.page(page_index);
                assert(page == self.layout.at(page_index as int));
                Request::Read { offset: page.start_marker_address(), len: page.start_marker_size() }
            },
            VerifyPhase::Erase(erase) => Operation::<E>::request(&erase),
        }
    }

    fn resume(self, reply: Reply<'_, E>) -> (step: Step<Self, Result<Self::Value, Error<E>>>) {
        match self.phase {
            VerifyPhase::Invalidate => match reply {
                Reply::Noted => Step::Pending(
                    Verify {
                        layout: self.layout,
                        version: self.version,
                        policy: self.policy,
                        phase: VerifyPhase::ReadStart { page_index: 0 },
                    },
                ),
                _ => Step::Finished(Err(Error::LogicBug)),
            },
            VerifyPhase::ReadStart { page_index } => {
                let bytes = match reply {
                    Reply::Read(Ok(bytes)) => bytes,
                    Reply::Read(Err(value)) => return Step::Finished(Err(Error::Storage { value })),
                    _ => return Step::Finished(Err(Error::LogicBug)),
                };
                let page = self.layout.page(page_index);
                assert(page == self.layout.at(page_index as int));
                if bytes.len() != page.start_marker_size() {
                    return Step::Finished(Err(Error::LogicBug));
                }
                let actual = match page.get_page_start_status(bytes) {
                    Err(error) => return Step::Finished(Err(error)),
                    // page is empty
                    Ok(None) => return self.next_page(page_index),
                    Ok(Some(actual)) => actual,
                };
                if self.version != actual {
                    return match self.policy {
                        VersionPolicy::ErrorOnMismatch => Step::Finished(
                            Err(Error::VersionMismatch { expected: self.version, actual }),
                        ),
                        VersionPolicy::EraseOnMismatch => Step::Pending(
                            Verify {
                                layout: self.layout,
                                version: self.version,
                                policy: self.policy,
                                phase: VerifyPhase::Erase(EraseAll { layout: self.layout }),
                            },
                        ),
                    };
                }
                self.next_page(page_index)
            },
            VerifyPhase::Erase(erase) => match erase.resume(reply) {
                Step::Pending(erase) => Step::Pending(
                    Verify {
                        layout: self.layout,
                        version: self.version,
                        policy: self.policy,
                        phase: VerifyPhase::Erase(erase),
                    },
                ),
                Step::Finished(Ok(())) => Step::Pending(
                    Verify {
                        layout: self.layout,
                        version: self.version,
                        policy: self.policy,
                        phase: VerifyPhase::InvalidateErased,
                    },
                ),
                Step::Finished(Err(error)) => Step::Finished(Err(error)),
            },
            VerifyPhase::InvalidateErased => match reply {
                Reply::Noted => Step::Finished(Ok(())),
                _ => Step::Finished(Err(Error::LogicBug)),
            },
        }
    }
}

} // verus!
