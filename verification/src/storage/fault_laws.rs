//! What holds of a storage's operations when the flash fails.

use vstd::prelude::*;

use crate::error::Error;
use crate::operation::{Operation, ReplyView, RequestView, Step};
use crate::storage::pages::{ClosePage, GetPageState, OpenPage, PartialClosePage};
use crate::storage::search::{FindFirstPage, TryGeneralRepair};
use crate::storage::verify::{EraseAll, Verify};
use crate::versioning::VerifyStorage;

verus! {

/// If the flash fails what an operation asks for, the operation is done, with the flash's error.
pub open spec fn reports_fault<E, M: Operation<E>>(operation: M, value: E) -> bool {
    match operation.asks() {
        RequestView::Read { .. } => operation.after(ReplyView::Read(Err(value))) == Step::<
            M,
            Result<M::Value, Error<E>>,
        >::Finished(Err(Error::Storage { value })),
        RequestView::Write { .. } | RequestView::Erase { .. } => operation.after(
            ReplyView::Changed(Err(value)),
        ) == Step::<M, Result<M::Value, Error<E>>>::Finished(Err(Error::Storage { value })),
        _ => true,
    }
}

/// Wherever the flash fails, the operation ends at once and reports the flash's error.
pub proof fn law_fault_is_reported<E>(
    get: GetPageState,
    open: OpenPage,
    partial: PartialClosePage,
    close: ClosePage,
    search: FindFirstPage,
    verify: Verify,
    erase: EraseAll,
    verify_storage: VerifyStorage,
    value: E,
)
    ensures
        reports_fault::<E, GetPageState>(get, value),
        reports_fault::<E, OpenPage>(open, value),
        reports_fault::<E, PartialClosePage>(partial, value),
        reports_fault::<E, ClosePage>(close, value),
        reports_fault::<E, FindFirstPage>(search, value),
        reports_fault::<E, Verify>(verify, value),
        reports_fault::<E, EraseAll>(erase, value),
        reports_fault::<E, VerifyStorage>(verify_storage, value),
{
}

/// A repair ends at once, and reports the flash's error, if an erase fails. If a read fails, it
/// leaves the page alone and goes on.
pub proof fn law_fault_in_repair<E>(repair: TryGeneralRepair, value: E)
    requires
        Operation::<E>::wf(&repair),
    ensures
        repair.phase is Open ==> reports_fault::<E, TryGeneralRepair>(repair, value),
        repair.phase is GetState && Operation::<E>::asks(&repair) is Read ==> repair.after(
            ReplyView::Read(Err(value)),
        ) == repair.past_page::<E>(),
{
}

} // verus!
