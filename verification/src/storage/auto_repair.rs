//! Running an operation, and once more after a repair if it has found the storage corrupted.

use vstd::prelude::*;

use crate::device;
use crate::device::Device;
use crate::error::Error;
use crate::flash_layout;
use crate::flash_layout::FlashLayout;
use crate::operation::{Operation, Reply, ReplyView, Request, RequestView, Step};
use crate::page_state::PageState;
use crate::storage::page_laws;
use crate::storage::search::{FindFirstPage, TryGeneralRepair};
use crate::storage::search_laws;

verus! {

/// How far an operation with auto repair has come.
#[derive(Debug)]
pub enum AutoRepairPhase<M, R> {
    /// The operation is run.
    First(M),
    /// It has found the storage corrupted: the repair is run.
    Repair(R),
    /// The storage was repaired: the operation is run again.
    Second(M),
}

/// Run an operation. If it finds that the storage is corrupted, repair the storage and run the
/// operation once more, whatever comes of it then.
#[derive(Debug)]
pub struct AutoRepair<M, R> {
    /// The operation, before its first step.
    pub function: M,
    /// The repair, before its first step.
    pub repair: R,
    pub phase: AutoRepairPhase<M, R>,
}

impl<M: Copy, R> AutoRepair<M, R> {
    /// The operation with auto repair, before its first step.
    pub open spec fn begun(function: M, repair: R) -> AutoRepair<M, R> {
        AutoRepair { function, repair, phase: AutoRepairPhase::First(function) }
    }

    /// Run an operation with auto repair.
    pub fn run_with_auto_repair(function: M, repair: R) -> (operation: AutoRepair<M, R>)
        ensures
            operation == AutoRepair::<M, R>::begun(function, repair),
    {
        AutoRepair { function, repair, phase: AutoRepairPhase::First(function) }
    }
}

impl<E, M: Operation<E> + Copy, R: Operation<E, Value = ()> + Copy> Operation<E> for AutoRepair<
    M,
    R,
> {
    type Value = M::Value;

    open spec fn wf(&self) -> bool {
        &&& self.function.wf()
        &&& self.repair.wf()
        &&& match self.phase {
            AutoRepairPhase::First(function) => function.wf(),
            AutoRepairPhase::Repair(repair) => repair.wf(),
            AutoRepairPhase::Second(function) => function.wf(),
        }
    }

    open spec fn asks(&self) -> RequestView {
        match self.phase {
            AutoRepairPhase::First(function) => function.asks(),
            AutoRepairPhase::Repair(repair) => repair.asks(),
            AutoRepairPhase::Second(function) => function.asks(),
        }
    }

    open spec fn after(self, reply: ReplyView<E>) -> Step<Self, Result<Self::Value, Error<E>>> {
        match self.phase {
            AutoRepairPhase::First(function) => match function.after(reply) {
                Step::Pending(next) => Step::Pending(
                    AutoRepair { phase: AutoRepairPhase::First(next), ..self },
                ),
                Step::Finished(Err(Error::Corrupted)) => Step::Pending(
                    AutoRepair { phase: AutoRepairPhase::Repair(self.repair), ..self },
                ),
                Step::Finished(result) => Step::Finished(result),
            },
            AutoRepairPhase::Repair(repair) => match repair.after(reply) {
                Step::Pending(next) => Step::Pending(
                    AutoRepair { phase: AutoRepairPhase::Repair(next), ..self },
                ),
                Step::Finished(Ok(())) => Step::Pending(
                    AutoRepair { phase: AutoRepairPhase::Second(self.function), ..self },
                ),
                Step::Finished(Err(error)) => Step::Finished(Err(error)),
            },
            AutoRepairPhase::Second(function) => match function.after(reply) {
                Step::Pending(next) => Step::Pending(
                    AutoRepair { phase: AutoRepairPhase::Second(next), ..self },
                ),
                Step::Finished(result) => Step::Finished(result),
            },
        }
    }

    open spec fn remaining(&self) -> nat {
        match self.phase {
            AutoRepairPhase::First(function) => function.remaining() + 1 + self.repair.remaining()
                + 1 + self.function.remaining(),
            AutoRepairPhase::Repair(repair) => repair.remaining() + 1 + self.function.remaining(),
            AutoRepairPhase::Second(function) => function.remaining(),
        }
    }

    proof fn progress(self, reply: ReplyView<E>) {
        match self.phase {
            AutoRepairPhase::First(function) => function.progress(reply),
            AutoRepairPhase::Repair(repair) => repair.progress(reply),
            AutoRepairPhase::Second(function) => function.progress(reply),
        }
    }

    fn request(&self) -> (request: Request) {
        match &self.phase {
            AutoRepairPhase::First(function) => function.request(),
            AutoRepairPhase::Repair(repair) => repair.request(),
            AutoRepairPhase::Second(function) => function.request(),
        }
    }

    fn resume(self, reply: Reply<'_, E>) -> (step: Step<Self, Result<Self::Value, Error<E>>>) {
        match self.phase {
            AutoRepairPhase::First(function) => match function.resume(reply) {
                Step::Pending(next) => Step::Pending(
                    AutoRepair {
                        function: self.function,
                        repair: self.repair,
                        phase: AutoRepairPhase::First(next),
                    },
                ),
                Step::Finished(Err(Error::Corrupted)) => Step::Pending(
                    AutoRepair {
                        function: self.function,
                        repair: self.repair,
                        phase: AutoRepairPhase::Repair(self.repair),
                    },
                ),
                Step::Finished(result) => Step::Finished(result),
            },
            AutoRepairPhase::Repair(repair) => match repair.resume(reply) {
                Step::Pending(next) => Step::Pending(
                    AutoRepair {
                        function: self.function,
                        repair: self.repair,
                        phase: AutoRepairPhase::Repair(next),
                    },
                ),
                Step::Finished(Ok(())) => Step::Pending(
                    AutoRepair {
                        function: self.function,
                        repair: self.repair,
                        phase: AutoRepairPhase::Second(self.function),
                    },
                ),
                Step::Finished(Err(error)) => Step::Finished(Err(error)),
            },
            AutoRepairPhase::Second(function) => match function.resume(reply) {
                Step::Pending(next) => Step::Pending(
                    AutoRepair {
                        function: self.function,
                        repair: self.repair,
                        phase: AutoRepairPhase::Second(next),
                    },
                ),
                Step::Finished(result) => Step::Finished(result),
            },
        }
    }
}

proof fn lemma_second_run<
    E,
    M: Operation<E> + Copy,
    R: Operation<E, Value = ()> + Copy,
>(operation: AutoRepair<M, R>, device: Device)
    requires
        operation.phase is Second,
        Operation::<E>::wf(&operation),
    ensures
        device::run::<E, AutoRepair<M, R>>(operation, device) == device::run::<E, M>(
            operation.phase->Second_0,
            device,
        ),
    decreases Operation::<E>::remaining(&operation),
{
    let function = operation.phase->Second_0;
    let (next_device, reply) = device.answer::<E>(function.asks());
    Operation::<E>::progress(operation, reply);
    function.progress(reply);
    match function.after(reply) {
        Step::Pending(next) => lemma_second_run::<E, M, R>(
            AutoRepair { phase: AutoRepairPhase::Second(next), ..operation },
            next_device,
        ),
        Step::Finished(_) => {},
    }
}

proof fn lemma_repair_run<
    E,
    M: Operation<E> + Copy,
    R: Operation<E, Value = ()> + Copy,
>(operation: AutoRepair<M, R>, device: Device)
    requires
        operation.phase is Repair,
        Operation::<E>::wf(&operation),
    ensures
        ({
            let (repaired, result) = device::run::<E, R>(operation.phase->Repair_0, device);
            device::run::<E, AutoRepair<M, R>>(operation, device) == match result {
                Ok(()) => device::run::<E, M>(operation.function, repaired),
                Err(error) => (repaired, Err(error)),
            }
        }),
    decreases Operation::<E>::remaining(&operation),
{
    let repair = operation.phase->Repair_0;
    let (next_device, reply) = device.answer::<E>(repair.asks());
    Operation::<E>::progress(operation, reply);
    repair.progress(reply);
    match repair.after(reply) {
        Step::Pending(next) => lemma_repair_run::<E, M, R>(
            AutoRepair { phase: AutoRepairPhase::Repair(next), ..operation },
            next_device,
        ),
        Step::Finished(Ok(())) => lemma_second_run::<E, M, R>(
            AutoRepair { phase: AutoRepairPhase::Second(operation.function), ..operation },
            next_device,
        ),
        Step::Finished(Err(_)) => {},
    }
}

proof fn lemma_first_run<
    E,
    M: Operation<E> + Copy,
    R: Operation<E, Value = ()> + Copy,
>(operation: AutoRepair<M, R>, device: Device)
    requires
        operation.phase is First,
        Operation::<E>::wf(&operation),
    ensures
        device::run::<E, AutoRepair<M, R>>(operation, device) == repaired_run::<E, M, R>(
            device::run::<E, M>(operation.phase->First_0, device),
            operation.function,
            operation.repair,
        ),
    decreases Operation::<E>::remaining(&operation),
{
    let function = operation.phase->First_0;
    let (next_device, reply) = device.answer::<E>(function.asks());
    Operation::<E>::progress(operation, reply);
    function.progress(reply);
    match function.after(reply) {
        Step::Pending(next) => lemma_first_run::<E, M, R>(
            AutoRepair { phase: AutoRepairPhase::First(next), ..operation },
            next_device,
        ),
        Step::Finished(Err(Error::Corrupted)) => lemma_repair_run::<E, M, R>(
            AutoRepair { phase: AutoRepairPhase::Repair(operation.repair), ..operation },
            next_device,
        ),
        Step::Finished(_) => {},
    }
}

/// What becomes of the outcome of an operation: if the operation has found the storage corrupted,
/// the outcome of the operation after the repair, or the repair's error.
pub open spec fn repaired_run<E, M: Operation<E>, R: Operation<E, Value = ()>>(
    outcome: (Device, Result<M::Value, Error<E>>),
    function: M,
    repair: R,
) -> (Device, Result<M::Value, Error<E>>) {
    match outcome {
        (corrupted, Err(Error::Corrupted)) => match device::run::<E, R>(repair, corrupted) {
            (repaired, Ok(())) => device::run::<E, M>(function, repaired),
            (repaired, Err(error)) => (repaired, Err(error)),
        },
        _ => outcome,
    }
}

/// An operation with auto repair comes to what the operation alone comes to, unless that is the
/// corrupted error: then the storage is repaired, and the second outcome counts, whatever it is.
pub proof fn law_auto_repair<
    E,
    M: Operation<E> + Copy,
    R: Operation<E, Value = ()> + Copy,
>(function: M, repair: R, device: Device)
    requires
        function.wf(),
        repair.wf(),
    ensures
        device::run::<E, AutoRepair<M, R>>(AutoRepair::begun(function, repair), device)
            == repaired_run::<E, M, R>(
            device::run::<E, M>(function, device),
            function,
            repair,
        ),
{
    lemma_first_run::<E, M, R>(AutoRepair::begun(function, repair), device);
}

/// A search with auto repair always gives a page or none.
pub proof fn law_search_with_auto_repair<E>(
    layout: FlashLayout,
    starting_page_index: usize,
    page_state: PageState,
    device: Device,
)
    requires
        layout.divides(device.flash),
        starting_page_index + layout.pages() - 1 <= usize::MAX,
        device.consistent(layout),
    ensures
        device::run::<E, AutoRepair<FindFirstPage, TryGeneralRepair>>(
            AutoRepair::begun(
                FindFirstPage::begun(layout, starting_page_index, page_state),
                TryGeneralRepair::begun(layout),
            ),
            device,
        ).1 is Ok,
{
    let search = FindFirstPage::begun(layout, starting_page_index, page_state);
    let repair = TryGeneralRepair::begun(layout);
    page_laws::lemma_pages_usable(layout, device.flash);
    flash_layout::law_every_page_visited_once(layout, starting_page_index as int);
    let order = layout.page_order(starting_page_index as int);
    assert(order.contains(order[0]));
    assert(layout.at(order[0] as int).usable());
    assert(layout.at(0).usable());
    law_auto_repair::<E, FindFirstPage, TryGeneralRepair>(search, repair, device);
    search_laws::law_find_first_page::<E>(layout, starting_page_index, page_state, device);
    let searched = device::run::<E, FindFirstPage>(search, device).0;
    search_laws::law_try_general_repair::<E>(layout, searched);
    search_laws::law_search_after_repair::<E>(layout, starting_page_index, page_state, searched);
}

} // verus!
