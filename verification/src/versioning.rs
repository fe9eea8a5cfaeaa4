//! Versions of a storage, with mismatches told apart by whose version differs.

use vstd::prelude::*;
use vstd::string::*;

use crate::device;
use crate::device::Device;
use crate::error::Error;
use crate::flash_layout;
use crate::flash_layout::{FlashLayout, FlashPage, StorageVersion, FLASH_FORMAT_VERSION};
use crate::geometry::FlashGeometry;
use crate::marker;
use crate::marker::MAX_WORD_SIZE;
use crate::operation::{Operation, Reply, ReplyView, Request, RequestView, Step};
use crate::storage::page_laws;
use crate::storage::verify::{Verify, VerifyPhase, VersionPolicy};
use crate::storage::verify_laws;
use crate::text;

verus! {

/// The kind of version mismatch that was detected in flash.
#[derive(Debug, Clone, Copy, PartialEq, Eq, Structural)]
pub enum VersionMismatchKind {
    /// The crate's internal flash format version differs.
    Internal {
        /// The internal flash format version expected by the running firmware.
        expected: u8,
        /// The internal flash format version decoded from flash.
        actual: u8,
    },
    /// The user supplied storage version differs.
    User {
        /// The user supplied storage version expected by the running firmware.
        expected: u16,
        /// The user supplied storage version decoded from flash.
        actual: u16,
    },
}

impl VersionMismatchKind {
    /// The two versions in words.
    pub open spec fn words(&self) -> Seq<char> {
        match self {
            VersionMismatchKind::Internal { expected, actual } => "internal version "@
                + text::decimal(*expected as nat) + ", found "@ + text::decimal(*actual as nat),
            VersionMismatchKind::User { expected, actual } => "user version "@ + text::decimal(
                *expected as nat,
            ) + ", found "@ + text::decimal(*actual as nat),
        }
    }

    /// The two versions in words.
    pub fn message(&self) -> (message: String)
        ensures
            message@ == self.words(),
    {
        let (mut message, expected, actual): (String, u64, u64) = match self {
            VersionMismatchKind::Internal { expected, actual } => (
                String::from_str("internal version "),
                *expected as u64,
                *actual as u64,
            ),
            VersionMismatchKind::User { expected, actual } => (
                String::from_str("user version "),
                *expected as u64,
                *actual as u64,
            ),
        };
        text::append_decimal(&mut message, expected);
        message.append(", found ");
        text::append_decimal(&mut message, actual);
        message
    }
}

/// What stands in the place of a page's start marker.
#[derive(Debug, Clone, Copy, PartialEq, Eq, Structural)]
pub enum PageStartStatus {
    /// Nothing: the page is empty.
    Open,
    /// The version that the page was written under.
    Written(StorageVersion),
    /// Neither.
    Corrupted,
}

/// The version under which a storage is run.
#[derive(Debug, Clone, Copy, PartialEq, Eq, Structural)]
pub struct State {
    pub internal_version: u8,
    pub user_version: u16,
}

impl State {
    /// The version as it stands in a start marker.
    pub open spec fn as_version(&self) -> StorageVersion {
        StorageVersion { internal: self.internal_version, user: self.user_version }
    }

    /// The user's version, under the current flash format.
    pub fn new(user_version: u16) -> (state: Self)
        ensures
            state == (State { internal_version: FLASH_FORMAT_VERSION, user_version }),
    {
        Self { internal_version: FLASH_FORMAT_VERSION, user_version }
    }

    /// The user's version, under any flash format.
    pub fn with_internal_version(internal_version: u8, user_version: u16) -> (state: Self)
        ensures
            state == (State { internal_version, user_version }),
    {
        Self { internal_version, user_version }
    }

    /// The version as it stands in a start marker.
    pub fn storage_version(&self) -> (version: StorageVersion)
        ensures
            version == self.as_version(),
    {
        StorageVersion { internal: self.internal_version, user: self.user_version }
    }

    /// The bytes of which a page's start marker takes as many as it is long.
    pub fn page_start_buffer(&self) -> (buffer: [u8; MAX_WORD_SIZE])
        ensures
            buffer@ == self.as_version().start_marker(MAX_WORD_SIZE as nat),
    {
        self.storage_version().page_start_buffer()
    }
}

/// The size of a page's start marker.
pub fn page_start_size(geometry: &FlashGeometry) -> (size: usize)
    requires
        geometry.compatible(),
    ensures
        size == geometry.start_marker(),
{
    geometry.start_marker_size()
}

/// What bytes in the place of a page's start marker say.
pub open spec fn status_of(written: Seq<u8>) -> PageStartStatus {
    match flash_layout::page_start_status(written) {
        Ok(None) => PageStartStatus::Open,
        Ok(Some(version)) => PageStartStatus::Written(version),
        Err(()) => PageStartStatus::Corrupted,
    }
}

/// What stands in the place of a page's start marker.
pub fn get_page_start_status(page: &FlashPage, written: &[u8]) -> (status: PageStartStatus)
    requires
        page.layout.geometry.compatible(),
        written@.len() == page.layout.geometry.start_marker(),
    ensures
        status == status_of(written@),
{
    let parsed: Result<Option<StorageVersion>, Error<()>> = page.get_page_start_status(written);
    match parsed {
        Ok(None) => PageStartStatus::Open,
        Ok(Some(version)) => PageStartStatus::Written(version),
        Err(_) => PageStartStatus::Corrupted,
    }
}

/// Whether a page's start marker is set, given the bytes that stand in its place.
pub fn page_start_is_marked<S, V>(page: &FlashPage, written: &[u8]) -> (marked: Result<
    bool,
    Error<S, V>,
>)
    requires
        page.layout.geometry.compatible(),
        written@.len() == page.layout.geometry.start_marker(),
    ensures
        marked == (match status_of(written@) {
            PageStartStatus::Open => Ok(false),
            PageStartStatus::Written(_) => Ok(true),
            PageStartStatus::Corrupted => Err(Error::<S, V>::Corrupted),
        }),
{
    match get_page_start_status(page, written) {
        PageStartStatus::Open => Ok(false),
        PageStartStatus::Written(_) => Ok(true),
        PageStartStatus::Corrupted => Err(Error::Corrupted),
    }
}

/// Whose version differs: the flash format's, or else the user's.
pub open spec fn mismatch_of(expected: StorageVersion, actual: StorageVersion) -> Option<
    VersionMismatchKind,
> {
    if actual.internal != expected.internal {
        Some(
            VersionMismatchKind::Internal { expected: expected.internal, actual: actual.internal },
        )
    } else if actual.user != expected.user {
        Some(VersionMismatchKind::User { expected: expected.user, actual: actual.user })
    } else {
        None
    }
}

/// Whose version differs, if any: the flash format's, or else the user's.
pub fn version_mismatch(expected: StorageVersion, actual: StorageVersion) -> (mismatch: Option<
    VersionMismatchKind,
>)
    ensures
        mismatch == mismatch_of(expected, actual),
        mismatch matches Some(VersionMismatchKind::Internal { expected: e, actual: a }) ==> e
            == expected.internal && a == actual.internal,
        mismatch matches Some(VersionMismatchKind::User { expected: e, actual: a }) ==> e
            == expected.user && a == actual.user,
{
    if actual.internal != expected.internal {
        Some(
            VersionMismatchKind::Internal { expected: expected.internal, actual: actual.internal },
        )
    } else if actual.user != expected.user {
        Some(VersionMismatchKind::User { expected: expected.user, actual: actual.user })
    } else {
        None
    }
}

/// Verify that all pages that are not erased were written under a version.
///
/// If by the policy a mismatch is to be reported, the error names whose version differs.
#[derive(Debug, Clone, Copy, PartialEq, Eq, Structural)]
pub struct VerifyStorage {
    pub verify: Verify,
}

impl VerifyStorage {
    /// The verification, before its first step.
    pub open spec fn begun(layout: FlashLayout, state: State, policy: VersionPolicy) -> VerifyStorage {
        VerifyStorage { verify: Verify::begun(layout, state.as_version(), policy) }
    }
}

/// Verify that all pages that are not erased were written under a version.
pub fn verify_storage(layout: FlashLayout, state: State, policy: VersionPolicy) -> (operation:
    VerifyStorage)
    ensures
        operation == VerifyStorage::begun(layout, state, policy),
{
    VerifyStorage {
        verify: Verify {
            layout,
            version: state.storage_version(),
            policy,
            phase: VerifyPhase::Invalidate,
        },
    }
}

/// The result of a verification, with a mismatch told apart.
pub open spec fn told_apart<E>(result: Result<(), Error<E>>) -> Result<(), Error<E>> {
    match result {
        Err(Error::VersionMismatch { expected, actual }) => match mismatch_of(expected, actual) {
            Some(kind) => Err(Error::VersionMismatchOf(kind)),
            None => result,
        },
        _ => result,
    }
}

impl<E> Operation<E> for VerifyStorage {
    type Value = ();

    open spec fn wf(&self) -> bool {
        Operation::<E>::wf(&self.verify)
    }

    open spec fn asks(&self) -> RequestView {
        Operation::<E>::asks(&self.verify)
    }

    open spec fn after(self, reply: ReplyView<E>) -> Step<Self, Result<Self::Value, Error<E>>> {
        match self.verify.after(reply) {
            Step::Pending(verify) => Step::Pending(VerifyStorage { verify }),
            Step::Finished(result) => Step::Finished(told_apart(result)),
        }
    }

    open spec fn remaining(&self) -> nat {
        Operation::<E>::remaining(&self.verify)
    }

    proof fn progress(self, reply: ReplyView<E>) {
        self.verify.progress(reply);
    }

    fn request(&self) -> (request: Request) {
        Operation::<E>::request(&self.verify)
    }

    fn resume(self, reply: Reply<'_, E>) -> (step: Step<Self, Result<Self::Value, Error<E>>>) {
        match self.verify.resume(reply) {
            Step::Pending(verify) => Step::Pending(VerifyStorage { verify }),
            Step::Finished(Err(Error::VersionMismatch { expected, actual })) => Step::Finished(
                Err(
                    match version_mismatch(expected, actual) {
                        Some(kind) => Error::VersionMismatchOf(kind),
                        None => Error::VersionMismatch { expected, actual },
                    },
                ),
            ),
            Step::Finished(result) => Step::Finished(result),
        }
    }
}

/// Two versions differ exactly if one of their parts does. The mismatch names that part, the flash
/// format's before the user's, with its value in the version that was expected and its value in the
/// actual one.
pub proof fn law_mismatch_names_the_difference(expected: StorageVersion, actual: StorageVersion)
    ensures
        mismatch_of(expected, actual) is None <==> expected == actual,
        mismatch_of(expected, actual) matches Some(VersionMismatchKind::Internal { .. })
            <==> expected.internal != actual.internal,
        mismatch_of(expected, actual) matches Some(VersionMismatchKind::Internal {
            expected: e,
            actual: a,
        }) ==> e == expected.internal && a == actual.internal,
        mismatch_of(expected, actual) matches Some(VersionMismatchKind::User { .. })
            <==> expected.internal == actual.internal && expected.user != actual.user,
        mismatch_of(expected, actual) matches Some(VersionMismatchKind::User {
            expected: e,
            actual: a,
        }) ==> e == expected.user && a == actual.user,
{
}

/// A mismatch and its reverse name the same part, with the two values exchanged.
pub proof fn law_mismatch_reversed(expected: StorageVersion, actual: StorageVersion)
    ensures
        match (mismatch_of(expected, actual), mismatch_of(actual, expected)) {
            (
                Some(VersionMismatchKind::Internal { expected: e, actual: a }),
                Some(VersionMismatchKind::Internal { expected: re, actual: ra }),
            ) => e == ra && a == re,
            (
                Some(VersionMismatchKind::User { expected: e, actual: a }),
                Some(VersionMismatchKind::User { expected: re, actual: ra }),
            ) => e == ra && a == re,
            (None, None) => true,
            _ => false,
        },
{
}

/// A mismatch in words tells whose version differs, which was expected, and which was found.
pub proof fn law_mismatch_in_words(kind: VersionMismatchKind)
    ensures
        match kind {
            VersionMismatchKind::Internal { expected, actual } => kind.words()
                == "internal version "@ + text::decimal(expected as nat) + ", found "@
                + text::decimal(actual as nat),
            VersionMismatchKind::User { expected, actual } => kind.words() == "user version "@
                + text::decimal(expected as nat) + ", found "@ + text::decimal(actual as nat),
        },
{
}

/// The version under which a storage is run stands in a start marker as it is.
pub proof fn law_state_is_its_version(state: State)
    ensures
        state.as_version().internal == state.internal_version,
        state.as_version().user == state.user_version,
{
}

/// A start marker is open if its marker is not set and all behind is erased, and written if its
/// marker is set and all behind the four bytes of the header is erased: then it says the version
/// that stands in the header, the user's low byte first. Else it is corrupted.
pub proof fn law_start_status(written: Seq<u8>)
    requires
        4 <= written.len(),
    ensures
        match status_of(written) {
            PageStartStatus::Open => !marker::is_marker_byte(written[0])
                && flash_layout::erased_from(written, 1),
            PageStartStatus::Written(version) => {
                &&& marker::is_marker_byte(written[0])
                &&& flash_layout::erased_from(written, 4)
                &&& version.internal == written[1]
                &&& version.user == written[2] + 256 * written[3]
            },
            PageStartStatus::Corrupted => if marker::is_marker_byte(written[0]) {
                !flash_layout::erased_from(written, 4)
            } else {
                !flash_layout::erased_from(written, 1)
            },
        },
{
    flash_layout::law_page_start_status(written);
}

proof fn lemma_verify_storage<E>(operation: VerifyStorage, device: Device)
    requires
        Operation::<E>::wf(&operation),
    ensures
        ({
            let (after, result) = device::run::<E, Verify>(operation.verify, device);
            &&& device::run::<E, VerifyStorage>(operation, device) == (after, told_apart(result))
            &&& result matches Err(Error::VersionMismatch { expected, actual }) ==> expected
                != actual
        }),
    decreases Operation::<E>::remaining(&operation),
{
    let (next_device, reply) = device.answer::<E>(Operation::<E>::asks(&operation.verify));
    operation.verify.progress(reply);
    if let Step::Pending(verify) = operation.verify.after(reply) {
        lemma_verify_storage::<E>(VerifyStorage { verify }, next_device);
    }
}

/// Telling mismatches apart changes nothing else of a verification: the flash and the cache are
/// left alike, and so is every other result. A mismatch that is reported stays an error, which
/// names whose version differs.
pub proof fn law_verify_storage<E>(
    layout: FlashLayout,
    state: State,
    policy: VersionPolicy,
    device: Device,
)
    requires
        layout.startable(),
    ensures
        ({
            let (after, result) = device::run::<E, Verify>(
                Verify::begun(layout, state.as_version(), policy),
                device,
            );
            let (after_told, told) = device::run::<E, VerifyStorage>(
                VerifyStorage::begun(layout, state, policy),
                device,
            );
            &&& after_told == after
            &&& match result {
                Err(Error::VersionMismatch { expected, actual }) => told matches Err(
                    Error::VersionMismatchOf(kind),
                ) && mismatch_of(expected, actual) == Some(kind),
                _ => told == result,
            }
        }),
{
    lemma_verify_storage::<E>(VerifyStorage::begun(layout, state, policy), device);
}

/// If a mismatch is to be reported, a verification ends with an error that names the first page's
/// difference: the version of the flash format that is expected and the one that was found, if they
/// differ, else those of the user. The flash is not changed.
pub proof fn law_mismatch_is_reported<E>(
    layout: FlashLayout,
    state: State,
    device: Device,
    page_index: int,
    actual: StorageVersion,
)
    requires
        layout.divides(device.flash),
        verify_laws::objected(device.flash, layout, state.as_version(), page_index),
        device::version_in(device.flash, layout.at(page_index)) == Ok::<_, ()>(Some(actual)),
    ensures
        ({
            let (after, result) = device::run::<E, VerifyStorage>(
                VerifyStorage::begun(layout, state, VersionPolicy::ErrorOnMismatch),
                device,
            );
            &&& after.flash == device.flash
            &&& result == Err::<(), Error<E>>(
                Error::VersionMismatchOf(
                    if actual.internal != state.internal_version {
                        VersionMismatchKind::Internal {
                            expected: state.internal_version,
                            actual: actual.internal,
                        }
                    } else {
                        VersionMismatchKind::User {
                            expected: state.user_version,
                            actual: actual.user,
                        }
                    },
                ),
            )
        }),
{
    page_laws::lemma_pages_usable(layout, device.flash);
    assert(layout.at(0).usable());
    verify_laws::law_verify::<E>(
        layout,
        state.as_version(),
        VersionPolicy::ErrorOnMismatch,
        device,
    );
    law_verify_storage::<E>(layout, state, VersionPolicy::ErrorOnMismatch, device);
}

} // verus!
