//! What holds of the verification of a storage when it is driven to its end on a flash that does
//! not fail.

use vstd::prelude::*;

use crate::device;
use crate::device::Device;
use crate::error::Error;
use crate::flash_layout;
use crate::flash_layout::{FlashLayout, StorageVersion};
use crate::marker;
use crate::operation::Operation;
use crate::page_state::PageState;
use crate::storage::page_laws;
use crate::storage::pages::PartialClosePage;
use crate::storage::verify::{EraseAll, Verify, VerifyPhase, VersionPolicy};

verus! {

/// A page is empty or was written under the given version.
pub open spec fn acceptable(
    flash: Seq<u8>,
    layout: FlashLayout,
    version: StorageVersion,
    page_index: int,
) -> bool {
    let status = device::version_in(flash, layout.at(page_index));
    status == Ok::<Option<StorageVersion>, ()>(None) || status == Ok::<_, ()>(Some(version))
}

/// The first pages are empty or were written under the given version.
pub open spec fn all_acceptable(
    flash: Seq<u8>,
    layout: FlashLayout,
    version: StorageVersion,
    count: int,
) -> bool {
    forall|i: int| 0 <= i < count ==> #[trigger] acceptable(flash, layout, version, i)
}

/// The page that a verification objects to: the first that is not acceptable.
pub open spec fn objected(
    flash: Seq<u8>,
    layout: FlashLayout,
    version: StorageVersion,
    page_index: int,
) -> bool {
    &&& 0 <= page_index < layout.pages()
    &&& all_acceptable(flash, layout, version, page_index)
    &&& !acceptable(flash, layout, version, page_index)
}

/// What a verification is to come to, and how it leaves the flash.
pub open spec fn verified<E>(
    layout: FlashLayout,
    version: StorageVersion,
    policy: VersionPolicy,
    flash: Seq<u8>,
    outcome: (Device, Result<(), Error<E>>),
) -> bool {
    &&& all_acceptable(flash, layout, version, layout.pages() as int) ==> {
        &&& outcome.1 == Ok::<(), Error<E>>(())
        &&& outcome.0.flash == flash
    }
    &&& forall|i: int| #[trigger]
        objected(flash, layout, version, i) ==> match device::version_in(flash, layout.at(i)) {
            Ok(Some(actual)) => match policy {
                VersionPolicy::ErrorOnMismatch => {
                    &&& outcome.1 == Err::<(), _>(
                        Error::<E>::VersionMismatch { expected: version, actual },
                    )
                    &&& outcome.0.flash == flash
                },
                VersionPolicy::EraseOnMismatch => {
                    &&& outcome.1 == Ok::<(), Error<E>>(())
                    &&& outcome.0.flash == device::erased(
                        flash,
                        layout.start as int,
                        layout.end as int,
                    )
                },
            },
            _ => {
                &&& outcome.1 == Err::<(), _>(Error::<E>::Corrupted)
                &&& outcome.0.flash == flash
            },
        }
}

proof fn lemma_verify_from<E>(verify: Verify, page_index: int, device: Device)
    requires
        Operation::<E>::wf(&verify),
        verify.phase == (VerifyPhase::ReadStart { page_index: page_index as usize }),
        0 <= page_index < verify.layout.pages(),
        verify.layout.divides(device.flash),
        all_acceptable(device.flash, verify.layout, verify.version, page_index),
        device.cache.dom() == Set::<int>::empty(),
        !device.dirty,
    ensures
        verified(
            verify.layout,
            verify.version,
            verify.policy,
            device.flash,
            device::run::<E, Verify>(verify, device),
        ),
        device::run::<E, Verify>(verify, device).0.cache.dom() == Set::<int>::empty(),
        device::run::<E, Verify>(verify, device).0.cached_pages == device.cached_pages,
        !device::run::<E, Verify>(verify, device).0.dirty,
    decreases verify.layout.pages() - page_index,
{
    let layout = verify.layout;
    let version = verify.version;
    let flash = device.flash;
    page_laws::lemma_pages_usable(layout, flash);
    page_laws::lemma_page_bytes_apart(layout, page_index, flash);
    let page = layout.at(page_index);
    assert(page.index == page_index);
    let bytes = flash.subrange(page.from(), page.from() + layout.geometry.start_marker());
    assert(bytes.len() == layout.geometry.start_marker());
    if acceptable(flash, layout, version, page_index) {
        if page_index + 1 < layout.pages() {
            let next = verify.past_page::<E>(page_index)->Pending_0;
            lemma_verify_from::<E>(next, page_index + 1, device);
            assert(device::run::<E, Verify>(verify, device) == device::run::<E, Verify>(
                next,
                device,
            ));
        } else {
            assert(all_acceptable(flash, layout, version, layout.pages() as int));
        }
        assert(forall|i: int| #[trigger]
            objected(flash, layout, version, i) ==> i > page_index) by {
            assert forall|i: int| #[trigger] objected(flash, layout, version, i) implies i
                > page_index by {
                if i <= page_index {
                    assert(acceptable(flash, layout, version, i));
                }
            }
        }
    } else {
        reveal_with_fuel(device::run, 4);
        assert(objected(flash, layout, version, page_index));
        assert forall|i: int| #[trigger] objected(flash, layout, version, i) implies i
            == page_index by {
            if i < page_index {
                assert(acceptable(flash, layout, version, i));
            }
            if page_index < i {
                assert(acceptable(flash, layout, version, page_index));
            }
        }
        assert(!all_acceptable(flash, layout, version, layout.pages() as int));
    }
}

/// The verification accepts a storage if every page is empty or was written under the storage's
/// version. Else the first page that is not decides: if it is corrupted, so is the storage; if it
/// was written under another version, then by the policy that version is reported, or the whole
/// range is erased. Without an erase the flash is not changed, and the cache is left empty.
pub proof fn law_verify<E>(
    layout: FlashLayout,
    version: StorageVersion,
    policy: VersionPolicy,
    device: Device,
)
    requires
        layout.divides(device.flash),
    ensures
        ({
            let verify = Verify::begun(layout, version, policy);
            let outcome = device::run::<E, Verify>(verify, device);
            &&& verified(layout, version, policy, device.flash, outcome)
            &&& outcome.0.cache.dom() == Set::<int>::empty()
            &&& outcome.0.cached_pages == device.cached_pages
            &&& !outcome.0.dirty
        }),
{
    page_laws::lemma_pages_usable(layout, device.flash);
    assert(layout.at(0).usable());
    let verify = Verify::begun(layout, version, policy);
    let (next_device, reply) = device.answer::<E>(Operation::<E>::asks(&verify));
    assert(next_device.cache.dom() =~= Set::<int>::empty());
    lemma_verify_from::<E>(
        Verify { phase: VerifyPhase::ReadStart { page_index: 0 }, ..verify },
        0,
        next_device,
    );
}

/// One of the two cases of a verification holds: all pages are acceptable, or one is objected to.
proof fn lemma_accepted_or_objected(
    flash: Seq<u8>,
    layout: FlashLayout,
    version: StorageVersion,
    count: int,
)
    requires
        0 <= count <= layout.pages(),
    ensures
        all_acceptable(flash, layout, version, count) || exists|i: int|
            #[trigger] objected(flash, layout, version, i),
    decreases count,
{
    if count > 0 {
        lemma_accepted_or_objected(flash, layout, version, count - 1);
        if all_acceptable(flash, layout, version, count - 1) {
            if acceptable(flash, layout, version, count - 1) {
                assert forall|i: int| 0 <= i < count implies #[trigger] acceptable(
                    flash,
                    layout,
                    version,
                    i,
                ) by {
                    if i == count - 1 {
                        assert(acceptable(flash, layout, version, count - 1));
                    }
                }
            } else {
                assert(objected(flash, layout, version, count - 1));
            }
        }
    }
}

/// An erased range is accepted under any version.
pub proof fn law_verify_accepts_erased_storage<E>(
    layout: FlashLayout,
    version: StorageVersion,
    policy: VersionPolicy,
    device: Device,
)
    requires
        layout.divides(device.flash),
        layout.holds_pages(),
        marker::is_erased(device.flash.subrange(layout.start as int, layout.end as int)),
    ensures
        ({
            let (after, result) = device::run::<E, Verify>(
                Verify::begun(layout, version, policy),
                device,
            );
            &&& result == Ok::<(), Error<E>>(())
            &&& after.flash == device.flash
        }),
{
    law_verify::<E>(layout, version, policy, device);
    lemma_erased_range_acceptable(device.flash, layout, version);
}

proof fn lemma_erased_range_acceptable(
    flash: Seq<u8>,
    layout: FlashLayout,
    version: StorageVersion,
)
    requires
        layout.divides(flash),
        layout.holds_pages(),
        marker::is_erased(flash.subrange(layout.start as int, layout.end as int)),
    ensures
        all_acceptable(flash, layout, version, layout.pages() as int),
{
    page_laws::lemma_pages_usable(layout, flash);
    assert forall|i: int| 0 <= i < layout.pages() implies #[trigger] acceptable(
        flash,
        layout,
        version,
        i,
    ) by {
        let page = layout.at(i);
        let size = layout.geometry.erase_size as int;
        assert(0 <= size * i) by (nonlinear_arith)
            requires
                0 < size,
                0 <= i,
        ;
        let bytes = flash.subrange(page.from(), page.from() + layout.geometry.start_marker());
        assert forall|k: int| 0 <= k < bytes.len() implies bytes[k] == marker::ERASED by {
            assert(flash.subrange(layout.start as int, layout.end as int)[size * i + k]
                == marker::ERASED);
        }
        flash_layout::law_erased_start_is_empty(bytes);
    }
}

/// Once a verification has succeeded, by whatever policy, the storage is accepted under the same
/// version without an error or an erase.
pub proof fn law_verified_storage_is_accepted<E>(
    layout: FlashLayout,
    version: StorageVersion,
    policy: VersionPolicy,
    other_policy: VersionPolicy,
    device: Device,
)
    requires
        layout.divides(device.flash),
        layout.holds_pages(),
        device::run::<E, Verify>(Verify::begun(layout, version, policy), device).1 is Ok,
    ensures
        ({
            let verified = device::run::<E, Verify>(
                Verify::begun(layout, version, policy),
                device,
            ).0;
            let (after, result) = device::run::<E, Verify>(
                Verify::begun(layout, version, other_policy),
                verified,
            );
            &&& result == Ok::<(), Error<E>>(())
            &&& after.flash == verified.flash
        }),
{
    let flash = device.flash;
    let verified = device::run::<E, Verify>(Verify::begun(layout, version, policy), device).0;
    law_verify::<E>(layout, version, policy, device);
    lemma_accepted_or_objected(flash, layout, version, layout.pages() as int);
    if !all_acceptable(flash, layout, version, layout.pages() as int) {
        let i = choose|i: int| #[trigger] objected(flash, layout, version, i);
        assert(objected(flash, layout, version, i));
        assert(marker::is_erased(verified.flash.subrange(layout.start as int, layout.end as int)));
        lemma_erased_range_acceptable(verified.flash, layout, version);
    }
    law_verify::<E>(layout, version, other_policy, verified);
}

/// A storage of erased pages of which one is then partially closed under a version is accepted
/// under that version, and refused under every other with a report of both.
pub proof fn law_written_version_is_verified<E>(
    layout: FlashLayout,
    page_index: int,
    version: StorageVersion,
    other: StorageVersion,
    device: Device,
)
    requires
        layout.divides(device.flash),
        layout.holds_pages(),
        0 <= page_index < layout.pages(),
        device.consistent(layout),
        marker::is_erased(device.flash.subrange(layout.start as int, layout.end as int)),
        version != other,
    ensures
        ({
            let written = device::run::<E, PartialClosePage>(
                PartialClosePage::begun(layout.at(page_index), version),
                device,
            ).0;
            &&& device::run::<E, Verify>(
                Verify::begun(layout, version, VersionPolicy::ErrorOnMismatch),
                written,
            ).1 == Ok::<(), Error<E>>(())
            &&& device::run::<E, Verify>(
                Verify::begun(layout, other, VersionPolicy::ErrorOnMismatch),
                written,
            ).1 == Err::<(), _>(Error::<E>::VersionMismatch { expected: other, actual: version })
        }),
{
    let flash = device.flash;
    let page = layout.at(page_index);
    let written = device::run::<E, PartialClosePage>(
        PartialClosePage::begun(page, version),
        device,
    ).0;
    lemma_erased_range_acceptable(flash, layout, version);
    page_laws::lemma_pages_usable(layout, flash);
    assert(device::page_state_in(flash, page) == Some(PageState::Open)) by {
        assert(acceptable(flash, layout, version, page_index));
        page_laws::lemma_page_bytes_apart(layout, page_index, flash);
        let erased = device::erased(flash, page.from(), page.to());
        page_laws::lemma_erased_page_is_open(layout, page_index, flash);
        assert forall|a: int| 0 <= a < flash.len() implies erased[a] == flash[a] by {
            if page.from() <= a < page.to() {
                assert(flash.subrange(layout.start as int, layout.end as int)[a - layout.start]
                    == marker::ERASED);
            }
        }
        assert(erased =~= flash);
    }
    page_laws::law_partial_close_page::<E>(layout, page_index, version, device);
    assert forall|i: int| 0 <= i < layout.pages() implies #[trigger] acceptable(
        written.flash,
        layout,
        version,
        i,
    ) by {
        assert(acceptable(flash, layout, version, i));
        assert(layout.at(i).index == i);
    }
    law_verify::<E>(layout, version, VersionPolicy::ErrorOnMismatch, written);
    lemma_erased_range_acceptable(flash, layout, other);
    assert(objected(written.flash, layout, other, page_index)) by {
        assert forall|i: int| 0 <= i < page_index implies #[trigger] acceptable(
            written.flash,
            layout,
            other,
            i,
        ) by {
            assert(acceptable(flash, layout, other, i));
            assert(layout.at(i).index == i);
        }
    }
    law_verify::<E>(layout, other, VersionPolicy::ErrorOnMismatch, written);
}

/// A verification that erases leaves every byte of the range erased and every other as it was.
pub proof fn law_mismatch_erases_the_range<E>(
    layout: FlashLayout,
    version: StorageVersion,
    device: Device,
    page_index: int,
)
    requires
        layout.divides(device.flash),
        objected(device.flash, layout, version, page_index),
        device::version_in(device.flash, layout.at(page_index)) is Ok,
    ensures
        ({
            let (after, result) = device::run::<E, Verify>(
                Verify::begun(layout, version, VersionPolicy::EraseOnMismatch),
                device,
            );
            &&& result == Ok::<(), Error<E>>(())
            &&& after.flash.len() == device.flash.len()
            &&& forall|address: int|
                0 <= address < after.flash.len() ==> #[trigger] after.flash[address] == if layout.start
                    <= address < layout.end {
                    0xFF
                } else {
                    device.flash[address]
                }
        }),
{
    law_verify::<E>(layout, version, VersionPolicy::EraseOnMismatch, device);
}

/// Erasing all erases the range and nothing else.
pub proof fn law_erase_all<E>(layout: FlashLayout, device: Device)
    ensures
        device::run::<E, EraseAll>(EraseAll { layout }, device) == (
            Device {
                flash: device::erased(device.flash, layout.start as int, layout.end as int),
                ..device
            },
            Ok::<(), Error<E>>(()),
        ),
{
}

} // verus!
