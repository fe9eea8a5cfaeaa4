//! What holds of a RAM ring and of a buffered queue over many calls.

use vstd::prelude::*;

use crate::queue::buffered;
use crate::queue::buffered::{
    DrainAction, DrainEvent, HandedOut, OverflowPolicy, RamSide, PREFIX_SIZE,
};

verus! {

/// How many of the oldest items are discarded so that the rest fits.
pub open spec fn discarded(items: Seq<Seq<u8>>, room: int) -> int {
    items.len() - buffered::newest_within(items, room).len()
}

/// What is left of the items when the oldest are discarded to make room is their newest, all that
/// fit: with any fewer discarded they would not.
pub proof fn law_newest_are_kept(items: Seq<Seq<u8>>, room: int)
    ensures
        0 <= discarded(items, room) <= items.len(),
        buffered::newest_within(items, room) == items.skip(discarded(items, room)),
        0 <= room ==> buffered::framed_size(buffered::newest_within(items, room)) <= room,
        forall|fewer: int|
            0 <= fewer < discarded(items, room) ==> #[trigger] buffered::framed_size(
                items.skip(fewer),
            ) > room,
    decreases items.len(),
{
    assert(items.skip(0) =~= items);
    if items.len() != 0 && buffered::framed_size(items) > room {
        let rest = items.drop_first();
        law_newest_are_kept(rest, room);
        assert(discarded(items, room) == discarded(rest, room) + 1);
        assert(rest.skip(discarded(rest, room)) =~= items.skip(discarded(items, room)));
        assert forall|fewer: int|
            0 <= fewer < discarded(items, room) implies #[trigger] buffered::framed_size(
            items.skip(fewer),
        ) > room by {
            if fewer > 0 {
                assert(items.skip(fewer) =~= rest.skip(fewer - 1));
            }
        }
    }
}

/// An item that is accepted is the newest, and the items fit in the ring then.
pub proof fn law_enqueued_is_newest(
    pending: Seq<Seq<u8>>,
    data: Seq<u8>,
    policy: OverflowPolicy,
    capacity: int,
)
    requires
        buffered::enqueued(pending, data, policy, capacity) is Ok,
    ensures
        ({
            let after = buffered::enqueued(pending, data, policy, capacity)->Ok_0;
            &&& after.last() == data
            &&& buffered::framed_size(after) <= capacity
        }),
{
    let room = capacity - PREFIX_SIZE - data.len();
    let kept = match policy {
        OverflowPolicy::ReturnErr => pending,
        OverflowPolicy::DiscardOldest => {
            law_newest_are_kept(pending, room);
            buffered::newest_within(pending, room)
        },
    };
    buffered::lemma_framed_push(kept, data);
}

/// Each item occupies its own bytes in the ring and two more.
pub proof fn law_bytes_occupied(items: Seq<Seq<u8>>, item: Seq<u8>)
    ensures
        buffered::framed_size(Seq::<Seq<u8>>::empty()) == 0,
        buffered::framed_size(items.push(item)) == buffered::framed_size(items) + 2 + item.len(),
        2 * items.len() <= buffered::framed_size(items),
{
    buffered::lemma_framed_push(items, item);
    lemma_two_bytes_each(items);
}

proof fn lemma_two_bytes_each(items: Seq<Seq<u8>>)
    ensures
        2 * items.len() <= buffered::framed_size(items),
    decreases items.len(),
{
    if items.len() > 0 {
        lemma_two_bytes_each(items.drop_first());
    }
}

/// If nothing is to be discarded, an item is accepted exactly if it and its two bytes fit beside the
/// others and its length has sixteen bits. It comes behind the others, and none of them goes.
pub proof fn law_full_ring_refuses(pending: Seq<Seq<u8>>, data: Seq<u8>, capacity: int)
    ensures
        ({
            let result = buffered::enqueued(pending, data, OverflowPolicy::ReturnErr, capacity);
            &&& result is Ok <==> data.len() < 65536 && buffered::framed_size(pending) + 2
                + data.len() <= capacity
            &&& result is Ok ==> result->Ok_0 == pending.push(data)
        }),
{
}

/// If the oldest items are discarded to make room, an item is accepted exactly if it and its two
/// bytes fit in the ring alone and its length has sixteen bits. It comes behind what is left of the
/// others: all but the oldest `lost`, which are as few as can be, since with any fewer discarded the
/// item would not fit.
pub proof fn law_as_few_as_needed_are_discarded(
    pending: Seq<Seq<u8>>,
    data: Seq<u8>,
    capacity: int,
)
    ensures
        ({
            let result = buffered::enqueued(pending, data, OverflowPolicy::DiscardOldest, capacity);
            let lost = pending.len() + 1 - result->Ok_0.len();
            &&& result is Ok <==> data.len() < 65536 && 2 + data.len() <= capacity
            &&& result is Ok ==> {
                &&& 0 <= lost <= pending.len()
                &&& result->Ok_0 == pending.skip(lost).push(data)
                &&& buffered::framed_size(pending.skip(lost)) + 2 + data.len() <= capacity
                &&& forall|fewer: int|
                    0 <= fewer < lost ==> #[trigger] buffered::framed_size(pending.skip(fewer)) + 2
                        + data.len() > capacity
            }
        }),
{
    law_newest_are_kept(pending, capacity - PREFIX_SIZE - data.len());
}

/// If the oldest items are discarded, an item is accepted as long as it fits in the ring and its
/// length in the prefix, whatever is buffered.
pub proof fn law_discard_oldest_accepts(pending: Seq<Seq<u8>>, data: Seq<u8>, capacity: int)
    ensures
        data.len() + PREFIX_SIZE <= capacity && data.len() <= u16::MAX <==> buffered::enqueued(
            pending,
            data,
            OverflowPolicy::DiscardOldest,
            capacity,
        ) is Ok,
{
}

/// The two policies differ only where the ring is full: as long as an item fits beside the others,
/// none is discarded.
pub proof fn law_policies_agree_while_there_is_room(
    pending: Seq<Seq<u8>>,
    data: Seq<u8>,
    capacity: int,
)
    requires
        buffered::framed_size(pending) + PREFIX_SIZE + data.len() <= capacity,
    ensures
        buffered::enqueued(pending, data, OverflowPolicy::ReturnErr, capacity)
            == buffered::enqueued(pending, data, OverflowPolicy::DiscardOldest, capacity),
{
}

/// All items of a buffered queue, oldest first: flash items are always older than RAM items.
pub open spec fn whole_queue(flash: Seq<Seq<u8>>, pending: Seq<Seq<u8>>) -> Seq<Seq<u8>> {
    flash + pending
}

/// Enqueueing appends: the item comes behind all others, in flash or in RAM.
pub proof fn law_enqueue_appends(
    flash: Seq<Seq<u8>>,
    pending: Seq<Seq<u8>>,
    data: Seq<u8>,
    capacity: int,
)
    requires
        buffered::enqueued(pending, data, OverflowPolicy::ReturnErr, capacity) is Ok,
    ensures
        whole_queue(
            flash,
            buffered::enqueued(pending, data, OverflowPolicy::ReturnErr, capacity)->Ok_0,
        ) == whole_queue(flash, pending).push(data),
{
    assert(flash + pending.push(data) =~= (flash + pending).push(data));
}

/// Draining keeps the order: an item that the flash queue has taken at its end, and the RAM ring
/// has then discarded, stands where it stood.
pub proof fn law_drain_keeps_order(flash: Seq<Seq<u8>>, pending: Seq<Seq<u8>>)
    requires
        pending.len() > 0,
    ensures
        whole_queue(flash.push(pending.first()), buffered::without_oldest(pending)) == whole_queue(
            flash,
            pending,
        ),
{
    assert(flash.push(pending.first()) + pending.drop_first() =~= flash + pending);
}

/// Popping takes the oldest item of all: that of the flash queue, if it has one, else that of the
/// RAM ring. The others keep their order.
pub proof fn law_pop_takes_oldest(flash: Seq<Seq<u8>>, pending: Seq<Seq<u8>>)
    ensures
        flash.len() > 0 ==> {
            &&& whole_queue(flash, pending).first() == flash.first()
            &&& whole_queue(flash.drop_first(), pending) == whole_queue(flash, pending).drop_first()
        },
        flash.len() == 0 && pending.len() > 0 ==> {
            &&& whole_queue(flash, pending).first() == pending.first()
            &&& whole_queue(flash, buffered::without_oldest(pending)) == whole_queue(
                flash,
                pending,
            ).drop_first()
        },
{
    if flash.len() > 0 {
        assert(flash.drop_first() + pending =~= (flash + pending).drop_first());
    } else if pending.len() > 0 {
        assert(flash + pending =~= pending);
        assert(flash + pending.drop_first() =~= pending.drop_first());
    }
}

/// What a drain of all items leaves in flash and in RAM, where the flash queue takes every item at
/// its end.
pub open spec fn drained(flash: Seq<Seq<u8>>, pending: Seq<Seq<u8>>, scratch_size: nat) -> (
    Seq<Seq<u8>>,
    Seq<Seq<u8>>,
)
    decreases pending.len(),
{
    if buffered::oldest_fits(pending, scratch_size) {
        drained(
            flash.push(pending.first()),
            buffered::without_oldest(pending),
            scratch_size,
        )
    } else {
        (flash, pending)
    }
}

/// A drain of all items keeps the order of the whole queue and empties the RAM ring, up to an item
/// that does not fit in the scratch buffer.
pub proof fn law_drain_all(flash: Seq<Seq<u8>>, pending: Seq<Seq<u8>>, scratch_size: nat)
    ensures
        ({
            let (flash_after, pending_after) = drained(flash, pending, scratch_size);
            &&& whole_queue(flash_after, pending_after) == whole_queue(flash, pending)
            &&& !buffered::oldest_fits(pending_after, scratch_size)
            &&& (forall|i: int|
                0 <= i < pending.len() ==> #[trigger] pending[i].len() <= scratch_size)
                ==> pending_after.len() == 0 && flash_after == whole_queue(flash, pending)
        }),
    decreases pending.len(),
{
    if buffered::oldest_fits(pending, scratch_size) {
        law_drain_keeps_order(flash, pending);
        law_drain_all(
            flash.push(pending.first()),
            buffered::without_oldest(pending),
            scratch_size,
        );
        let rest = buffered::without_oldest(pending);
        if forall|i: int| 0 <= i < pending.len() ==> #[trigger] pending[i].len() <= scratch_size {
            assert forall|i: int| 0 <= i < rest.len() implies #[trigger] rest[i].len()
                <= scratch_size by {
                assert(rest[i] == pending[i + 1]);
            }
        }
    } else {
        if forall|i: int| 0 <= i < pending.len() ==> #[trigger] pending[i].len() <= scratch_size {
            if pending.len() > 0 {
                assert(pending[0].len() <= scratch_size);
            }
            assert(flash + pending =~= flash);
        }
    }
}

/// A push that a drain of one item asks for is of the oldest item, which it has copied to the front
/// of the scratch buffer, and carries the permission to overwrite that the drain was called with.
/// It asks for one exactly if it begins and there is an oldest item that fits; no item leaves then.
pub proof fn law_drain_one_asks_for_the_oldest<E>(
    ram: RamSide,
    event: DrainEvent<E>,
    scratch: Seq<u8>,
    allow_overwrite: bool,
)
    requires
        scratch.len() <= usize::MAX,
    ensures
        ({
            let (after, action, filled) = buffered::drain_one_step(
                ram,
                event,
                scratch,
                allow_overwrite,
            );
            &&& action is Push <==> event is Begin && ram.pending.len() > 0
                && ram.pending.first().len() <= scratch.len()
            &&& action matches DrainAction::Push { len, allow_overwrite: allowed } ==> {
                &&& allowed == allow_overwrite
                &&& len == ram.pending.first().len()
                &&& filled.len() == scratch.len()
                &&& filled.take(len as int) == ram.pending.first()
                &&& filled.skip(len as int) == scratch.skip(len as int)
                &&& after.pending == ram.pending
                &&& after.handed_out == HandedOut::Oldest
            }
        }),
{
    lemma_front_is_item(scratch, ram.pending);
    if buffered::oldest_fits(ram.pending, scratch.len()) {
        let item = ram.pending.first();
        assert(buffered::with_front(scratch, item).skip(item.len() as int) =~= scratch.skip(
            item.len() as int,
        ));
    }
}

/// A drain of one item that is done leaves the scratch buffer and owes no item any more. It was told
/// that the flash failed: then that is its error, and all items stay. Or that the item was pushed:
/// then it is the item that goes, if it is still there, and the drain counts if there was one. Or it
/// had none to hand out: then nothing happens.
pub proof fn law_drain_one_ends<E>(
    ram: RamSide,
    event: DrainEvent<E>,
    scratch: Seq<u8>,
    allow_overwrite: bool,
)
    ensures
        ({
            let (after, action, filled) = buffered::drain_one_step(
                ram,
                event,
                scratch,
                allow_overwrite,
            );
            action matches DrainAction::Finished(result) ==> {
                &&& filled == scratch
                &&& after.handed_out == HandedOut::Nothing
                &&& match event {
                    DrainEvent::Begin => result == Ok::<bool, E>(false) && after.pending
                        == ram.pending,
                    DrainEvent::Pushed(Err(error)) => result == Err::<bool, E>(error)
                        && after.pending == ram.pending,
                    DrainEvent::Pushed(Ok(())) => {
                        &&& result == Ok::<bool, E>(!(ram.handed_out is Nothing))
                        &&& ram.handed_out is Oldest && ram.pending.len() > 0 ==> after.pending
                            == ram.pending.drop_first()
                        &&& !(ram.handed_out is Oldest) ==> after.pending == ram.pending
                    },
                }
            }
        }),
{
}

/// The items that are left for a drain of all once it was told of an event: all but the one that
/// was handed out, if that was pushed and is still there.
pub open spec fn left_for_drain<E>(ram: RamSide, event: DrainEvent<E>) -> Seq<Seq<u8>> {
    match event {
        DrainEvent::Pushed(Ok(())) => if ram.handed_out is Oldest && ram.pending.len() > 0 {
            ram.pending.drop_first()
        } else {
            ram.pending
        },
        _ => ram.pending,
    }
}

/// Whether a drain of all goes on once it was told of an event: it begins, or an item that it has
/// handed out was pushed.
pub open spec fn drain_goes_on<E>(ram: RamSide, event: DrainEvent<E>) -> bool {
    match event {
        DrainEvent::Begin => true,
        DrainEvent::Pushed(Ok(())) => !(ram.handed_out is Nothing),
        DrainEvent::Pushed(Err(_)) => false,
    }
}

/// Every push that a drain of all items asks for is of the oldest item that is left, which it has
/// copied to the front of the scratch buffer, and carries the permission to overwrite that the drain
/// was called with. It asks for one exactly if it goes on and there is one that fits.
pub proof fn law_drain_all_asks_for_the_oldest<E>(
    ram: RamSide,
    event: DrainEvent<E>,
    scratch: Seq<u8>,
    allow_overwrite: bool,
)
    requires
        scratch.len() <= usize::MAX,
    ensures
        ({
            let left = left_for_drain(ram, event);
            let (after, action, filled) = buffered::drain_all_step(
                ram,
                event,
                scratch,
                allow_overwrite,
            );
            &&& after.pending == left
            &&& action is Push <==> drain_goes_on(ram, event) && left.len() > 0
                && left.first().len() <= scratch.len()
            &&& action matches DrainAction::Push { len, allow_overwrite: allowed } ==> {
                &&& allowed == allow_overwrite
                &&& len == left.first().len()
                &&& filled.len() == scratch.len()
                &&& filled.take(len as int) == left.first()
                &&& filled.skip(len as int) == scratch.skip(len as int)
                &&& after.handed_out == HandedOut::Oldest
            }
            &&& action matches DrainAction::Finished(result) ==> {
                &&& filled == scratch
                &&& after.handed_out == HandedOut::Nothing
                &&& result == match event {
                    DrainEvent::Pushed(Err(error)) => Err::<(), E>(error),
                    _ => Ok(()),
                }
            }
        }),
{
    let (after, action, filled) = buffered::drain_one_step(ram, event, scratch, allow_overwrite);
    law_drain_one_asks_for_the_oldest(ram, event, scratch, allow_overwrite);
    law_drain_one_ends(ram, event, scratch, allow_overwrite);
    law_drain_one_asks_for_the_oldest(after, DrainEvent::<E>::Begin, filled, allow_overwrite);
    law_drain_one_ends(after, DrainEvent::<E>::Begin, filled, allow_overwrite);
}

/// Popping and peeking give the flash queue's item or error as it is, and leave the RAM ring then.
/// If the flash queue is empty they give the oldest item of the RAM ring, if there is one and it fits
/// in the buffer, and popping takes that one and no other.
pub proof fn law_oldest_is_read_from_flash_first<E>(
    ram: RamSide,
    flash: Result<Option<usize>, E>,
    buffer: Seq<u8>,
)
    ensures
        ({
            let item = buffered::oldest_of_all(ram.pending, flash, buffer);
            let after = ram.after_pop(flash, buffer.len());
            match flash {
                Err(error) => item == Err::<Option<Seq<u8>>, E>(error) && after == ram,
                Ok(Some(len)) => item == Ok::<_, E>(Some(buffer.take(len as int))) && after == ram,
                Ok(None) => if ram.pending.len() > 0 && ram.pending.first().len()
                    <= buffer.len() {
                    &&& item == Ok::<_, E>(Some(ram.pending.first()))
                    &&& after.pending == ram.pending.drop_first()
                    &&& !(after.handed_out is Oldest)
                    &&& after.handed_out is Nothing <==> ram.handed_out is Nothing
                } else {
                    item == Ok::<Option<Seq<u8>>, E>(None) && after == ram
                },
            }
        }),
{
}

/// Enqueueing leaves what was handed out. If the item that was is discarded, it is gone.
pub proof fn law_enqueue_keeps_what_was_handed_out(
    ram: RamSide,
    data: Seq<u8>,
    policy: OverflowPolicy,
    capacity: int,
)
    requires
        buffered::enqueued(ram.pending, data, policy, capacity) is Ok,
    ensures
        ({
            let pending = buffered::enqueued(ram.pending, data, policy, capacity)->Ok_0;
            let after = ram.after_enqueue(pending);
            &&& after.pending == pending
            &&& after.handed_out is Nothing <==> ram.handed_out is Nothing
            &&& after.handed_out is Oldest <==> ram.handed_out is Oldest && pending
                == ram.pending.push(data)
        }),
{
    law_as_few_as_needed_are_discarded(ram.pending, data, capacity);
    law_full_ring_refuses(ram.pending, data, capacity);
    let pending = buffered::enqueued(ram.pending, data, policy, capacity)->Ok_0;
    if pending.len() > ram.pending.len() {
        assert(ram.pending.skip(0) =~= ram.pending);
    }
}

/// What comes of `drain_one` when it is driven to its end: what it leaves in RAM and in the flash
/// queue, and its result. `outcome` is what comes of the push if there is one; the flash queue takes
/// at its end the bytes that it is handed, or nothing if it fails.
pub open spec fn drive_one<E>(
    ram: RamSide,
    flash: Seq<Seq<u8>>,
    scratch: Seq<u8>,
    allow_overwrite: bool,
    outcome: Result<(), E>,
) -> (RamSide, Seq<Seq<u8>>, Result<bool, E>) {
    let (begun, action, filled) = buffered::drain_one_step(
        ram,
        DrainEvent::<E>::Begin,
        scratch,
        allow_overwrite,
    );
    match action {
        DrainAction::Finished(result) => (begun, flash, result),
        DrainAction::Push { len, .. } => {
            let (after, action, _) = buffered::drain_one_step(
                begun,
                DrainEvent::Pushed(outcome),
                filled,
                allow_overwrite,
            );
            let taken = if outcome is Ok {
                flash.push(filled.take(len as int))
            } else {
                flash
            };
            (after, taken, action->Finished_0)
        },
    }
}

/// Draining one item moves the oldest item of the RAM ring to the end of the flash queue, whatever
/// was handed out before. It moves nothing if there is none or it does not fit in the scratch
/// buffer, nor if the flash fails: then the error comes back.
pub proof fn law_drain_one<E>(
    ram: RamSide,
    flash: Seq<Seq<u8>>,
    scratch: Seq<u8>,
    allow_overwrite: bool,
    outcome: Result<(), E>,
)
    requires
        scratch.len() <= usize::MAX,
    ensures
        ({
            let (after, flash_after, result) = drive_one(
                ram,
                flash,
                scratch,
                allow_overwrite,
                outcome,
            );
            &&& after.handed_out == HandedOut::Nothing
            &&& if !buffered::oldest_fits(ram.pending, scratch.len()) {
                &&& (flash_after, after.pending) == (flash, ram.pending)
                &&& result == Ok::<bool, E>(false)
            } else {
                match outcome {
                    Ok(()) => {
                        &&& flash_after == flash.push(ram.pending.first())
                        &&& after.pending == buffered::without_oldest(ram.pending)
                        &&& result == Ok::<bool, E>(true)
                    },
                    Err(error) => {
                        &&& (flash_after, after.pending) == (flash, ram.pending)
                        &&& result == Err::<bool, E>(error)
                    },
                }
            }
        }),
{
    lemma_front_is_item(scratch, ram.pending);
}

/// The front of the scratch buffer is the item that was copied there.
proof fn lemma_front_is_item(scratch: Seq<u8>, pending: Seq<Seq<u8>>)
    ensures
        buffered::oldest_fits(pending, scratch.len()) ==> {
            let filled = buffered::with_front(scratch, pending.first());
            &&& filled.len() == scratch.len()
            &&& filled.take(pending.first().len() as int) == pending.first()
        },
{
    if buffered::oldest_fits(pending, scratch.len()) {
        let filled = buffered::with_front(scratch, pending.first());
        assert(filled.take(pending.first().len() as int) =~= pending.first());
    }
}

/// What comes of `drain_all` when it is driven on from an event: what it leaves in RAM and in the
/// flash queue, and its result. `outcomes` is what comes of the pushes, one after the other; if there
/// are fewer than pushes, the drain is left without a result.
pub open spec fn drive_all<E>(
    ram: RamSide,
    flash: Seq<Seq<u8>>,
    event: DrainEvent<E>,
    scratch: Seq<u8>,
    allow_overwrite: bool,
    outcomes: Seq<Result<(), E>>,
) -> (RamSide, Seq<Seq<u8>>, Option<Result<(), E>>)
    decreases outcomes.len(),
{
    let (after, action, filled) = buffered::drain_all_step(ram, event, scratch, allow_overwrite);
    match action {
        DrainAction::Finished(result) => (after, flash, Some(result)),
        DrainAction::Push { len, .. } => if outcomes.len() == 0 {
            (after, flash, None)
        } else {
            let taken = if outcomes.first() is Ok {
                flash.push(filled.take(len as int))
            } else {
                flash
            };
            drive_all(
                after,
                taken,
                DrainEvent::Pushed(outcomes.first()),
                filled,
                allow_overwrite,
                outcomes.drop_first(),
            )
        },
    }
}

/// Once an item was pushed, a drain of all goes on as if it began with what is left.
proof fn lemma_drain_goes_on<E>(
    ram: RamSide,
    flash: Seq<Seq<u8>>,
    scratch: Seq<u8>,
    allow_overwrite: bool,
    outcomes: Seq<Result<(), E>>,
)
    requires
        scratch.len() <= usize::MAX,
        buffered::oldest_fits(ram.pending, scratch.len()),
        outcomes.len() > 0,
        outcomes.first() is Ok,
    ensures
        drive_all(ram, flash, DrainEvent::<E>::Begin, scratch, allow_overwrite, outcomes)
            == drive_all(
            RamSide {
                pending: buffered::without_oldest(ram.pending),
                handed_out: HandedOut::Nothing,
            },
            flash.push(ram.pending.first()),
            DrainEvent::<E>::Begin,
            buffered::with_front(scratch, ram.pending.first()),
            allow_overwrite,
            outcomes.drop_first(),
        ),
{
    lemma_front_is_item(scratch, ram.pending);
    reveal_with_fuel(drive_all, 2);
}

/// A drain of all items whose pushes succeed leaves in flash and in RAM what [`drained`] says: it
/// moves the items in their order, up to one that does not fit in the scratch buffer.
pub proof fn law_drain_all_moves_items<E>(
    ram: RamSide,
    flash: Seq<Seq<u8>>,
    scratch: Seq<u8>,
    allow_overwrite: bool,
    outcomes: Seq<Result<(), E>>,
)
    requires
        scratch.len() <= usize::MAX,
        ram.pending.len() <= outcomes.len(),
        forall|i: int| 0 <= i < outcomes.len() ==> #[trigger] outcomes[i] is Ok,
    ensures
        ({
            let (after, flash_after, result) = drive_all(
                ram,
                flash,
                DrainEvent::<E>::Begin,
                scratch,
                allow_overwrite,
                outcomes,
            );
            &&& result == Some(Ok::<(), E>(()))
            &&& (flash_after, after.pending) == drained(flash, ram.pending, scratch.len())
            &&& after.handed_out == HandedOut::Nothing
        }),
    decreases ram.pending.len(),
{
    if buffered::oldest_fits(ram.pending, scratch.len()) {
        assert(outcomes[0] is Ok);
        lemma_drain_goes_on(ram, flash, scratch, allow_overwrite, outcomes);
        lemma_front_is_item(scratch, ram.pending);
        let rest = outcomes.drop_first();
        assert forall|i: int| 0 <= i < rest.len() implies #[trigger] rest[i] is Ok by {
            assert(rest[i] == outcomes[i + 1]);
        }
        law_drain_all_moves_items(
            RamSide {
                pending: buffered::without_oldest(ram.pending),
                handed_out: HandedOut::Nothing,
            },
            flash.push(ram.pending.first()),
            buffered::with_front(scratch, ram.pending.first()),
            allow_overwrite,
            rest,
        );
    }
}

/// If the flash queue takes the first items and refuses the next, a drain of all items ends there:
/// the error comes back, the items that were taken are in flash, and the refused one and all behind
/// it are still in RAM.
pub proof fn law_refused_drain_keeps_the_rest<E>(
    ram: RamSide,
    flash: Seq<Seq<u8>>,
    scratch: Seq<u8>,
    allow_overwrite: bool,
    outcomes: Seq<Result<(), E>>,
    taken: int,
    error: E,
)
    requires
        scratch.len() <= usize::MAX,
        0 <= taken < ram.pending.len(),
        taken < outcomes.len(),
        forall|i: int| 0 <= i < taken ==> #[trigger] outcomes[i] is Ok,
        outcomes[taken] == Err::<(), E>(error),
        forall|i: int| 0 <= i <= taken ==> #[trigger] ram.pending[i].len() <= scratch.len(),
    ensures
        ({
            let (after, flash_after, result) = drive_all(
                ram,
                flash,
                DrainEvent::<E>::Begin,
                scratch,
                allow_overwrite,
                outcomes,
            );
            &&& result == Some(Err::<(), E>(error))
            &&& flash_after == flash + ram.pending.take(taken)
            &&& after.pending == ram.pending.skip(taken)
            &&& after.handed_out == HandedOut::Nothing
        }),
    decreases taken,
{
    assert(ram.pending[0].len() <= scratch.len());
    if taken == 0 {
        reveal_with_fuel(drive_all, 2);
        assert(outcomes.first() == Err::<(), E>(error));
        assert(flash + ram.pending.take(0) =~= flash);
        assert(ram.pending.skip(0) =~= ram.pending);
    } else {
        assert(outcomes[0] is Ok);
        lemma_drain_goes_on(ram, flash, scratch, allow_overwrite, outcomes);
        lemma_front_is_item(scratch, ram.pending);
        let rest = outcomes.drop_first();
        let left = RamSide {
            pending: buffered::without_oldest(ram.pending),
            handed_out: HandedOut::Nothing,
        };
        assert forall|i: int| 0 <= i < taken - 1 implies #[trigger] rest[i] is Ok by {
            assert(rest[i] == outcomes[i + 1]);
        }
        assert forall|i: int| 0 <= i <= taken - 1 implies #[trigger] left.pending[i].len()
            <= scratch.len() by {
            assert(left.pending[i] == ram.pending[i + 1]);
        }
        law_refused_drain_keeps_the_rest(
            left,
            flash.push(ram.pending.first()),
            buffered::with_front(scratch, ram.pending.first()),
            allow_overwrite,
            rest,
            taken - 1,
            error,
        );
        assert(flash.push(ram.pending.first()) + left.pending.take(taken - 1) =~= flash
            + ram.pending.take(taken));
        assert(left.pending.skip(taken - 1) =~= ram.pending.skip(taken));
    }
}

/// A push that was not asked for discards nothing and counts for nothing.
pub proof fn law_push_that_was_not_asked_for<E>(
    ram: RamSide,
    scratch: Seq<u8>,
    allow_overwrite: bool,
)
    requires
        ram.handed_out == HandedOut::Nothing,
    ensures
        buffered::drain_one_step(
            ram,
            DrainEvent::<E>::Pushed(Ok(())),
            scratch,
            allow_overwrite,
        ) == (ram, DrainAction::<bool, E>::Finished(Ok(false)), scratch),
{
}

/// A drain discards the item that it has handed out and no other, even if another item was enqueued
/// meanwhile: if that has evicted the item, nothing more is discarded.
pub proof fn law_drain_discards_what_it_handed_out<E>(
    ram: RamSide,
    scratch: Seq<u8>,
    allow_overwrite: bool,
    data: Seq<u8>,
    policy: OverflowPolicy,
    capacity: int,
)
    requires
        buffered::oldest_fits(ram.pending, scratch.len()),
        buffered::enqueued(ram.pending, data, policy, capacity) is Ok,
    ensures
        ({
            let enqueued = buffered::enqueued(ram.pending, data, policy, capacity)->Ok_0;
            let begun = buffered::drain_one_step(
                ram,
                DrainEvent::<E>::Begin,
                scratch,
                allow_overwrite,
            ).0;
            let (after, action, _) = buffered::drain_one_step(
                begun.after_enqueue(enqueued),
                DrainEvent::<E>::Pushed(Ok(())),
                scratch,
                allow_overwrite,
            );
            &&& action == DrainAction::<bool, E>::Finished(Ok(true))
            &&& if enqueued == ram.pending.push(data) {
                enqueued.first() == ram.pending.first() && after.pending == enqueued.drop_first()
            } else {
                after.pending == enqueued
            }
        }),
{
    let enqueued = buffered::enqueued(ram.pending, data, policy, capacity)->Ok_0;
    let room = capacity - PREFIX_SIZE - data.len();
    law_newest_are_kept(ram.pending, room);
    if enqueued.len() > ram.pending.len() {
        assert(ram.pending.skip(0) =~= ram.pending);
    }
}

/// A call on a buffered queue, and whether the flash works during it.
pub enum QueueCall {
    Enqueue { data: Seq<u8>, policy: OverflowPolicy },
    DrainOne { scratch_size: nat, flash_works: bool },
    Pop { buffer_size: nat, flash_works: bool },
}

/// What has gone through a buffered queue whose flash queue takes items at its end and gives its
/// first.
pub struct QueueHistory {
    /// The items of the flash queue, oldest first.
    pub flash: Seq<Seq<u8>>,
    /// The items of the RAM ring, oldest first.
    pub pending: Seq<Seq<u8>>,
    /// All items that were ever accepted, in the order in which they were.
    pub accepted: Seq<Seq<u8>>,
    /// All items that were ever popped, in the order in which they were.
    pub popped: Seq<Seq<u8>>,
}

impl QueueHistory {
    /// All items that were ever popped, then those that are still there, oldest first.
    pub open spec fn kept(self) -> Seq<Seq<u8>> {
        self.popped + whole_queue(self.flash, self.pending)
    }

    /// What a call makes of the queue, with a RAM ring of the given capacity.
    pub open spec fn after(self, call: QueueCall, capacity: int) -> QueueHistory {
        match call {
            QueueCall::Enqueue { data, policy } => match buffered::enqueued(
                self.pending,
                data,
                policy,
                capacity,
            ) {
                Ok(pending) => QueueHistory {
                    pending,
                    accepted: self.accepted.push(data),
                    ..self
                },
                Err(()) => self,
            },
            QueueCall::DrainOne { scratch_size, flash_works } => if flash_works
                && buffered::oldest_fits(self.pending, scratch_size) {
                QueueHistory {
                    flash: self.flash.push(self.pending.first()),
                    pending: buffered::without_oldest(self.pending),
                    ..self
                }
            } else {
                self
            },
            QueueCall::Pop { buffer_size, flash_works } => if !flash_works {
                self
            } else if self.flash.len() > 0 {
                if self.flash.first().len() <= buffer_size {
                    QueueHistory {
                        flash: self.flash.drop_first(),
                        popped: self.popped.push(self.flash.first()),
                        ..self
                    }
                } else {
                    self
                }
            } else if buffered::oldest_fits(self.pending, buffer_size) {
                QueueHistory {
                    pending: buffered::without_oldest(self.pending),
                    popped: self.popped.push(self.pending.first()),
                    ..self
                }
            } else {
                self
            },
        }
    }

    /// What calls make of the queue, one after the other.
    pub open spec fn after_all(self, calls: Seq<QueueCall>, capacity: int) -> QueueHistory
        decreases calls.len(),
    {
        if calls.len() == 0 {
            self
        } else {
            self.after_all(calls.drop_last(), capacity).after(calls.last(), capacity)
        }
    }

    /// The items that were kept stand in the order in which they were accepted: each at its place
    /// among those, the later ones further behind.
    pub open spec fn in_order(self) -> bool {
        exists|places: Seq<int>| #[trigger] stand_at(self.kept(), self.accepted, places)
    }
}

/// What a drain of one item that is driven to its end makes of the queue is what the history says.
pub proof fn law_history_of_drain_one<E>(
    history: QueueHistory,
    handed_out: HandedOut,
    scratch: Seq<u8>,
    allow_overwrite: bool,
    outcome: Result<(), E>,
    capacity: int,
)
    requires
        scratch.len() <= usize::MAX,
    ensures
        ({
            let ram = RamSide { pending: history.pending, handed_out };
            let (after, flash, _) = drive_one(
                ram,
                history.flash,
                scratch,
                allow_overwrite,
                outcome,
            );
            history.after(
                QueueCall::DrainOne { scratch_size: scratch.len(), flash_works: outcome is Ok },
                capacity,
            ) == (QueueHistory { flash, pending: after.pending, ..history })
        }),
{
    law_drain_one(
        RamSide { pending: history.pending, handed_out },
        history.flash,
        scratch,
        allow_overwrite,
        outcome,
    );
}

/// What the flash queue replies when it is popped into a buffer, which it leaves as given: its first
/// item, if it has one that fits, or an error.
pub open spec fn flash_pop_replies<E>(
    flash: Seq<Seq<u8>>,
    flash_works: bool,
    reply: Result<Option<usize>, E>,
    buffer: Seq<u8>,
) -> bool {
    if !flash_works || flash.len() > 0 && flash.first().len() > buffer.len() {
        reply is Err
    } else if flash.len() == 0 {
        reply == Ok::<Option<usize>, E>(None)
    } else {
        reply matches Ok(Some(len)) && buffer.take(len as int) == flash.first()
    }
}

/// What popping makes of the queue is what the history says, and the item that is given is the one
/// that was popped.
pub proof fn law_history_of_pop<E>(
    history: QueueHistory,
    handed_out: HandedOut,
    flash_works: bool,
    reply: Result<Option<usize>, E>,
    buffer: Seq<u8>,
    capacity: int,
)
    requires
        flash_pop_replies(history.flash, flash_works, reply, buffer),
    ensures
        ({
            let after = history.after(
                QueueCall::Pop { buffer_size: buffer.len(), flash_works },
                capacity,
            );
            let ram = RamSide { pending: history.pending, handed_out };
            &&& after.pending == ram.after_pop(reply, buffer.len()).pending
            &&& after.flash == if reply matches Ok(Some(_)) {
                history.flash.drop_first()
            } else {
                history.flash
            }
            &&& after.popped == match buffered::oldest_of_all(history.pending, reply, buffer) {
                Ok(Some(item)) => history.popped.push(item),
                _ => history.popped,
            }
        }),
{
}

/// The items stand at the given places among all, and in their order.
pub open spec fn stand_at(items: Seq<Seq<u8>>, all: Seq<Seq<u8>>, places: Seq<int>) -> bool {
    &&& places.len() == items.len()
    &&& forall|i: int|
        0 <= i < items.len() ==> 0 <= #[trigger] places[i] < all.len() && items[i] == all[places[i]]
    &&& forall|i: int, j: int| 0 <= i < j < places.len() ==> places[i] < places[j]
}

/// The calls never discard an item to make room.
pub open spec fn nothing_is_discarded(calls: Seq<QueueCall>) -> bool {
    forall|i: int|
        0 <= i < calls.len() ==> (#[trigger] calls[i] matches QueueCall::Enqueue { policy, .. }
            ==> policy == OverflowPolicy::ReturnErr)
}

/// A call that accepts nothing leaves the items that were kept.
proof fn lemma_call_keeps_items(history: QueueHistory, call: QueueCall, capacity: int)
    ensures
        !(call is Enqueue) ==> history.after(call, capacity).kept() == history.kept()
            && history.after(call, capacity).accepted == history.accepted,
{
    if call is DrainOne && history.pending.len() > 0 {
        law_drain_keeps_order(history.flash, history.pending);
    } else if call is Pop {
        law_pop_takes_oldest(history.flash, history.pending);
        assert(history.after(call, capacity).kept() =~= history.kept());
    }
}

/// FIFO ordering is preserved: over any calls, as long as no item is discarded to make room, the
/// items that were popped and those that are still there are all that were accepted, in the order
/// in which they were.
pub proof fn law_fifo(history: QueueHistory, calls: Seq<QueueCall>, capacity: int)
    requires
        history.kept() == history.accepted,
        nothing_is_discarded(calls),
    ensures
        history.after_all(calls, capacity).kept() == history.after_all(calls, capacity).accepted,
    decreases calls.len(),
{
    if calls.len() > 0 {
        let before = history.after_all(calls.drop_last(), capacity);
        let call = calls.last();
        assert(calls[calls.len() - 1] == call);
        assert forall|i: int| 0 <= i < calls.drop_last().len() implies (
        #[trigger] calls.drop_last()[i] matches QueueCall::Enqueue { policy, .. } ==> policy
            == OverflowPolicy::ReturnErr) by {
            assert(calls.drop_last()[i] == calls[i]);
        }
        law_fifo(history, calls.drop_last(), capacity);
        lemma_call_keeps_items(before, call, capacity);
        if call is Enqueue {
            assert(before.after(call, capacity).kept() =~= before.after(call, capacity).accepted);
        }
    }
}

/// FIFO ordering is preserved even if items are discarded to make room: those that are left, popped
/// or still there, stand in the order in which they were accepted.
pub proof fn law_order_survives_discarding(
    history: QueueHistory,
    calls: Seq<QueueCall>,
    capacity: int,
)
    requires
        history.in_order(),
    ensures
        history.after_all(calls, capacity).in_order(),
    decreases calls.len(),
{
    if calls.len() > 0 {
        let before = history.after_all(calls.drop_last(), capacity);
        let call = calls.last();
        law_order_survives_discarding(history, calls.drop_last(), capacity);
        lemma_call_keeps_items(before, call, capacity);
        if let QueueCall::Enqueue { data, policy } = call {
            let after = before.after(call, capacity);
            let places = choose|places: Seq<int>|
                #[trigger] stand_at(before.kept(), before.accepted, places);
            if buffered::enqueued(before.pending, data, policy, capacity) is Ok {
                let room = capacity - PREFIX_SIZE - data.len();
                law_newest_are_kept(before.pending, room);
                let lost = match policy {
                    OverflowPolicy::ReturnErr => 0,
                    OverflowPolicy::DiscardOldest => discarded(before.pending, room),
                };
                let older = (before.popped + before.flash).len() as int;
                let kept_places = (places.take(older) + places.skip(older + lost)).push(
                    before.accepted.len() as int,
                );
                assert(after.pending =~= before.pending.skip(lost).push(data));
                assert(before.kept() =~= before.popped + before.flash + before.pending);
                assert(after.kept() =~= (before.kept().take(older) + before.kept().skip(
                    older + lost,
                )).push(data));
                assert(stand_at(after.kept(), after.accepted, kept_places));
            }
        }
    }
}

/// The framed bytes of a ring tell the items apart: no two lists of items are stored alike.
pub proof fn law_framing_is_unambiguous(items: Seq<Seq<u8>>, others: Seq<Seq<u8>>)
    requires
        buffered::framed_all(items) == buffered::framed_all(others),
        forall|i: int| 0 <= i < items.len() ==> (#[trigger] items[i]).len() <= u16::MAX,
        forall|i: int| 0 <= i < others.len() ==> (#[trigger] others[i]).len() <= u16::MAX,
    ensures
        items == others,
    decreases items.len(),
{
    if items.len() == 0 {
        if others.len() > 0 {
            assert(buffered::framed_all(others).len() >= PREFIX_SIZE);
        }
        assert(items =~= others);
    } else if others.len() == 0 {
        assert(buffered::framed_all(items).len() >= PREFIX_SIZE);
    } else {
        let bytes = buffered::framed_all(items);
        let first = items.first();
        let other = others.first();
        assert(items[0].len() <= u16::MAX && others[0].len() <= u16::MAX);
        assert(bytes[0] == (first.len() % 256) as u8 && bytes[0] == (other.len() % 256) as u8);
        assert(bytes[1] == (first.len() / 256) as u8 && bytes[1] == (other.len() / 256) as u8);
        assert(first.len() == other.len());
        let len = first.len() as int;
        assert(first =~= bytes.subrange(PREFIX_SIZE as int, PREFIX_SIZE + len));
        assert(other =~= bytes.subrange(PREFIX_SIZE as int, PREFIX_SIZE + len));
        let rest = items.drop_first();
        let other_rest = others.drop_first();
        assert(buffered::framed_all(rest) =~= bytes.skip(PREFIX_SIZE + len));
        assert(buffered::framed_all(other_rest) =~= bytes.skip(PREFIX_SIZE + len));
        assert forall|i: int| 0 <= i < rest.len() implies (#[trigger] rest[i]).len()
            <= u16::MAX by {
            assert(rest[i] == items[i + 1]);
        }
        assert forall|i: int| 0 <= i < other_rest.len() implies (#[trigger] other_rest[i]).len()
            <= u16::MAX by {
            assert(other_rest[i] == others[i + 1]);
        }
        law_framing_is_unambiguous(rest, other_rest);
        assert(items =~= seq![first] + rest);
        assert(others =~= seq![other] + other_rest);
    }
}

} // verus!
