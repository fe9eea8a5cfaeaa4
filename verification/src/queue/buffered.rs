//! RAM-buffered wrapper for a queue on flash.
//!
//! NOR flash writes are slow and erases are very slow. If a producer emits data faster than the
//! flash interface can commit it, [`BufferedQueue`] accepts items into a fixed-size RAM ring
//! buffer via the synchronous [`enqueue`][BufferedQueue::enqueue] call (no flash I/O) and
//! drains them to flash via [`drain_one`][BufferedQueue::drain_one] or
//! [`drain_all`][BufferedQueue::drain_all].
//!
//! The queue does not call the flash queue itself. What is to be pushed there it hands out, and
//! what came of it, or of popping and peeking there, it is told. It remembers which item it has
//! handed out, and once that was pushed discards that one and no other.
//!
//! # Overflow policy
//!
//! When the RAM ring is full, [`enqueue`][BufferedQueue::enqueue] behaviour is controlled by
//! [`OverflowPolicy`]: either return `Err(())` or silently evict the oldest buffered item.
//!
//! # Ordering
//!
//! FIFO ordering is preserved: flash items are always older than RAM items.
//! [`pop`][BufferedQueue::pop] and [`peek`][BufferedQueue::peek] read from flash first,
//! falling back to the oldest RAM item if flash is empty.
//!
//! # Power-fail note
//!
//! Items that are in the RAM ring and have not yet been drained to flash **will be lost** on
//! power loss.

use vstd::prelude::*;

use crate::le;
use crate::storage::DeletableFlash;

verus! {

/// Bytes of the length prefix that precedes each item in the ring.
pub const PREFIX_SIZE: usize = 2;

/// An item as the ring stores it: its length prefix, then its bytes.
pub open spec fn framed(item: Seq<u8>) -> Seq<u8> {
    le::le_bytes(item.len()) + item
}

/// The items one behind the other, each framed.
pub open spec fn framed_all(items: Seq<Seq<u8>>) -> Seq<u8>
    decreases items.len(),
{
    if items.len() == 0 {
        Seq::empty()
    } else {
        framed(items.first()) + framed_all(items.drop_first())
    }
}

/// The bytes that the items occupy in a ring: two for each prefix, and the data.
pub open spec fn framed_size(items: Seq<Seq<u8>>) -> nat
    decreases items.len(),
{
    if items.len() == 0 {
        0
    } else {
        PREFIX_SIZE as nat + items.first().len() + framed_size(items.drop_first())
    }
}

/// The newest of the items that together occupy at most `room` bytes: what is left once the
/// oldest have been discarded one by one until the rest fits.
pub open spec fn newest_within(items: Seq<Seq<u8>>, room: int) -> Seq<Seq<u8>>
    decreases items.len(),
{
    if items.len() == 0 || framed_size(items) <= room {
        items
    } else {
        newest_within(items.drop_first(), room)
    }
}

proof fn lemma_framed_all_len(items: Seq<Seq<u8>>)
    ensures
        framed_all(items).len() == framed_size(items),
    decreases items.len(),
{
    if items.len() != 0 {
        lemma_framed_all_len(items.drop_first());
    }
}

proof fn lemma_item_count_bounded(items: Seq<Seq<u8>>)
    ensures
        PREFIX_SIZE * items.len() <= framed_size(items),
    decreases items.len(),
{
    if items.len() != 0 {
        lemma_item_count_bounded(items.drop_first());
    }
}

/// An item that is pushed is framed behind the others.
pub proof fn lemma_framed_push(items: Seq<Seq<u8>>, item: Seq<u8>)
    ensures
        framed_all(items.push(item)) == framed_all(items) + framed(item),
        framed_size(items.push(item)) == framed_size(items) + PREFIX_SIZE + item.len(),
    decreases items.len(),
{
    if items.len() == 0 {
        assert(items.push(item).drop_first() =~= items);
        assert(framed_all(items.push(item).drop_first()) =~= Seq::<u8>::empty());
        assert(framed_size(items.push(item).drop_first()) == 0);
        assert(framed_all(items.push(item)) =~= framed_all(items) + framed(item));
    } else {
        assert(items.push(item).drop_first() =~= items.drop_first().push(item));
        lemma_framed_push(items.drop_first(), item);
        assert(framed_all(items.push(item)) =~= framed_all(items) + framed(item));
    }
}

/// A compact, fixed-capacity ring buffer for variable-length byte items.
///
/// Each item is stored as a 2-byte little-endian length prefix followed by the item's bytes,
/// so the usable capacity for data is `N - 2` bytes per item at most.
pub struct RamRing<const N: usize> {
    buf: [u8; N],
    read_pos: usize,
    write_pos: usize,
    /// Total bytes occupied (length prefixes + data).
    used: usize,
    item_count: usize,
    /// The items, oldest first.
    items: Ghost<Seq<Seq<u8>>>,
}

impl<const N: usize> View for RamRing<N> {
    type V = Seq<Seq<u8>>;

    /// The buffered items, oldest first.
    closed spec fn view(&self) -> Seq<Seq<u8>> {
        self.items@
    }
}

impl<const N: usize> RamRing<N> {
    /// The buffer position that lies `offset` bytes behind `pos`.
    spec fn wrapped(pos: int, offset: int) -> int {
        if pos + offset >= N {
            pos + offset - N
        } else {
            pos + offset
        }
    }

    /// The byte that lies `offset` bytes behind the read position.
    spec fn slot(&self, offset: int) -> u8 {
        self.buf@[Self::wrapped(self.read_pos as int, offset)]
    }

    /// The positions stand inside the buffer.
    spec fn positioned(&self) -> bool {
        &&& self.used <= N
        &&& N == 0 ==> self.read_pos == 0 && self.write_pos == 0
        &&& N > 0 ==> self.read_pos < N && self.write_pos < N
    }

    /// The ring's invariant: the occupied bytes, from the read position on, are the framed items.
    pub closed spec fn wf(&self) -> bool {
        &&& self.positioned()
        &&& N > 0 ==> self.write_pos == Self::wrapped(self.read_pos as int, self.used as int)
        &&& self.item_count == self.items@.len()
        &&& self.used == framed_size(self.items@)
        &&& forall|i: int| 0 <= i < self.used ==> self.slot(i) == framed_all(self.items@)[i]
        &&& forall|i: int|
            0 <= i < self.items@.len() ==> (#[trigger] self.items@[i]).len() <= u16::MAX
    }

    /// Create a new empty ring.
    pub fn new() -> (ring: Self)
        ensures
            ring.wf(),
            ring@ == Seq::<Seq<u8>>::empty(),
    {
        Self {
            buf: [0u8; N],
            read_pos: 0,
            write_pos: 0,
            used: 0,
            item_count: 0,
            items: Ghost(Seq::empty()),
        }
    }

    /// Number of items currently buffered.
    pub fn len(&self) -> (count: usize)
        requires
            self.wf(),
        ensures
            count == self@.len(),
    {
        self.item_count
    }

    /// Returns `true` if the ring contains no items.
    pub fn is_empty(&self) -> (empty: bool)
        requires
            self.wf(),
        ensures
            empty == (self@.len() == 0),
    {
        self.item_count == 0
    }

    /// Bytes currently occupied (including length prefixes).
    pub fn bytes_used(&self) -> (used: usize)
        requires
            self.wf(),
        ensures
            used == framed_size(self@),
            used <= N,
    {
        self.used
    }

    /// The position that lies `by` bytes behind `pos`, around the end of the buffer.
    fn advanced(pos: usize, by: usize) -> (next: usize)
        requires
            pos < N,
            by <= N,
        ensures
            next < N,
            next == Self::wrapped(pos as int, by as int),
    {
        if by >= N - pos {
            by - (N - pos)
        } else {
            pos + by
        }
    }

    /// Byte length of the oldest buffered item, or `None` if the ring is empty.
    pub fn oldest_len(&self) -> (len: Option<usize>)
        requires
            self.wf(),
        ensures
            len == (if self@.len() == 0 {
                None
            } else {
                Some(self@.first().len() as usize)
            }),
            len is Some ==> len->0 == self@.first().len() && len->0 + PREFIX_SIZE <= N,
    {
        if self.item_count == 0 {
            return None;
        }
        proof {
            lemma_framed_all_len(self.items@.drop_first());
            lemma_framed_all_len(self.items@);
        }
        let low = self.buf[self.read_pos];
        let high = self.buf[Self::advanced(self.read_pos, 1)];
        proof {
            let len = self.items@.first().len();
            assert(self.items@[0].len() <= u16::MAX);
            assert(self.slot(0) == framed_all(self.items@)[0] == le::le_bytes(len)[0]);
            assert(self.slot(1) == framed_all(self.items@)[1] == le::le_bytes(len)[1]);
        }
        Some(le::from_le_bytes(low, high) as usize)
    }

    /// Push an item into the ring.
    ///
    /// Returns `Err(())` if there is insufficient space or the item exceeds `u16::MAX` bytes.
    pub fn push(&mut self, data: &[u8]) -> (result: Result<(), ()>)
        requires
            old(self).wf(),
        ensures
            final(self).wf(),
            result is Err <==> data@.len() > u16::MAX || framed_size(old(self)@) + PREFIX_SIZE
                + data@.len() > N,
            result is Err ==> *final(self) == *old(self),
            result is Ok ==> final(self)@ == old(self)@.push(data@),
    {
        let len = data.len();
        if len > u16::MAX as usize {
            return Err(());
        }
        let total: usize = PREFIX_SIZE + len;
        if total > N - self.used {
            return Err(());
        }
        self.write_raw(data);
        Ok(())
    }

    /// Push an item, discarding the oldest item(s) to make room if necessary.
    ///
    /// Returns `Err(())` only if the item is larger than the entire ring capacity, or than a
    /// length prefix can say.
    pub fn push_overwriting(&mut self, data: &[u8]) -> (result: Result<(), ()>)
        requires
            old(self).wf(),
        ensures
            final(self).wf(),
            result is Err <==> data@.len() > u16::MAX || PREFIX_SIZE + data@.len() > N,
            result is Err ==> *final(self) == *old(self),
            result is Ok ==> final(self)@ == newest_within(
                old(self)@,
                N - PREFIX_SIZE - data@.len(),
            ).push(data@),
    {
        let len = data.len();
        if len > u16::MAX as usize {
            return Err(());
        }
        let total: usize = PREFIX_SIZE + len;
        if total > N {
            return Err(());
        }
        while total > N - self.used
            invariant
                self.wf(),
                total == PREFIX_SIZE + data@.len(),
                total <= N,
                newest_within(self@, N - total) == newest_within(old(self)@, N - total),
            decreases self@.len(),
        {
            self.discard_oldest();
        }
        self.write_raw(data);
        Ok(())
    }

    /// Copy the oldest item into `buf` and return a slice of the written bytes.
    ///
    /// Returns `None` if the ring is empty or `buf` is smaller than [`oldest_len`][Self::oldest_len].
    pub fn peek_into<'b>(&self, buf: &'b mut [u8]) -> (item: Option<&'b [u8]>)
        requires
            self.wf(),
        ensures
            item is None <==> self@.len() == 0 || old(buf)@.len() < self@.first().len(),
            item is None ==> final(buf)@ == old(buf)@,
            item is Some ==> item->0@ == self@.first() && final(buf)@ == self@.first()
                + old(buf)@.skip(self@.first().len() as int),
    {
        let len: usize = match self.oldest_len() {
            Some(len) => len,
            None => return None,
        };
        if buf.len() < len {
            return None;
        }
        let ghost item = self.items@.first();
        proof {
            lemma_framed_all_len(self.items@.drop_first());
            lemma_framed_all_len(self.items@);
        }
        let mut pos: usize = Self::advanced(self.read_pos, PREFIX_SIZE);
        let mut copied: usize = 0;
        while copied < len
            invariant
                self.wf(),
                self@.len() > 0,
                item == self@.first(),
                len == item.len(),
                len <= buf@.len(),
                buf@.len() == old(buf)@.len(),
                len + PREFIX_SIZE <= N,
                copied <= len,
                copied < len ==> pos == Self::wrapped(self.read_pos as int, PREFIX_SIZE + copied),
                buf@ == item.take(copied as int) + old(buf)@.skip(copied as int),
            decreases len - copied,
        {
            proof {
                lemma_framed_all_len(self.items@.drop_first());
                assert(self.slot(PREFIX_SIZE + copied) == framed_all(self.items@)[PREFIX_SIZE
                    + copied] == item[copied as int]);
            }
            buf[copied] = self.buf[pos];
            pos = Self::advanced(pos, 1);
            copied = copied + 1;
            assert(buf@ =~= item.take(copied as int) + old(buf)@.skip(copied as int));
        }
        assert(item.take(len as int) =~= item);
        Some(&buf[0..len])
    }

    /// Discard the oldest item without copying it. Does nothing if the ring is empty.
    pub fn discard_oldest(&mut self)
        requires
            old(self).wf(),
        ensures
            final(self).wf(),
            old(self)@.len() == 0 ==> *final(self) == *old(self),
            old(self)@.len() > 0 ==> final(self)@ == old(self)@.drop_first(),
    {
        if let Some(len) = self.oldest_len() {
            proof {
                lemma_framed_all_len(self.items@.drop_first());
            }
            self.read_pos = Self::advanced(self.read_pos, PREFIX_SIZE + len);
            self.used = self.used - (PREFIX_SIZE + len);
            self.item_count = self.item_count - 1;
            self.items = Ghost(self.items@.drop_first());
            assert forall|i: int| 0 <= i < self.used implies self.slot(i) == framed_all(
                self.items@,
            )[i] by {
                assert(self.slot(i) == old(self).slot(i + PREFIX_SIZE + len));
                assert(framed_all(old(self).items@)[i + PREFIX_SIZE + len] == framed_all(
                    self.items@,
                )[i]);
            }
        }
    }

    fn write_raw(&mut self, data: &[u8])
        requires
            old(self).wf(),
            data@.len() <= u16::MAX,
            old(self).used + PREFIX_SIZE + data@.len() <= N,
        ensures
            final(self).wf(),
            final(self)@ == old(self)@.push(data@),
    {
        let len: usize = data.len();
        let ghost frame = framed(data@);
        let (low, high) = le::to_le_bytes(len as u16);
        assert(seq![low, high][0] == low && seq![low, high][1] == high);
        self.write_byte(low);
        self.write_byte(high);
        let mut written: usize = 0;
        while written < len
            invariant
                len == data@.len(),
                len <= u16::MAX,
                frame == framed(data@),
                written <= len,
                old(self).wf(),
                old(self).used + PREFIX_SIZE + len <= N,
                self.positioned(),
                self.read_pos == old(self).read_pos,
                self.used == old(self).used,
                self.item_count == old(self).item_count,
                self.items == old(self).items,
                self.write_pos == Self::wrapped(
                    self.read_pos as int,
                    self.used + PREFIX_SIZE + written,
                ),
                forall|i: int| 0 <= i < self.used ==> self.slot(i) == old(self).slot(i),
                forall|i: int| 0 <= i < PREFIX_SIZE + written ==> self.slot(self.used + i) == frame[i],
            decreases len - written,
        {
            self.write_byte(data[written]);
            written = written + 1;
        }
        let ghost filled = *self;
        self.used = self.used + (PREFIX_SIZE + len);
        proof {
            lemma_item_count_bounded(self.items@);
        }
        self.item_count = self.item_count + 1;
        self.items = Ghost(self.items@.push(data@));
        proof {
            lemma_framed_push(old(self).items@, data@);
            lemma_framed_all_len(old(self).items@);
            assert forall|i: int| 0 <= i < self.used implies self.slot(i) == framed_all(
                self.items@,
            )[i] by {
                assert(self.slot(i) == filled.slot(i));
                if i >= old(self).used {
                    let k = i - old(self).used;
                    assert(filled.slot(filled.used + k) == frame[k]);
                }
            }
        }
    }

    fn write_byte(&mut self, b: u8)
        requires
            N > 0,
            old(self).positioned(),
        ensures
            final(self).positioned(),
            final(self).buf@ == old(self).buf@.update(old(self).write_pos as int, b),
            final(self).write_pos == Self::wrapped(old(self).write_pos as int, 1),
            final(self).read_pos == old(self).read_pos,
            final(self).used == old(self).used,
            final(self).item_count == old(self).item_count,
            final(self).items == old(self).items,
    {
        self.buf[self.write_pos] = b;
        self.write_pos = Self::advanced(self.write_pos, 1);
    }
}

impl<const N: usize> Default for RamRing<N> {
    fn default() -> (ring: Self)
        ensures
            ring.wf(),
            ring@ == Seq::<Seq<u8>>::empty(),
    {
        Self::new()
    }
}

/// Controls what happens when [`enqueue`][BufferedQueue::enqueue] is called on a full RAM ring.
#[derive(Debug, Clone, Copy, PartialEq, Eq, Structural)]
pub enum OverflowPolicy {
    /// Return `Err(())`: the caller decides whether to drop the item or drain first.
    ReturnErr,
    /// Silently discard the oldest buffered item(s) to make room for the new one.
    ///
    /// The new item is always accepted as long as it physically fits in the ring
    /// (i.e. `data.len() + 2 <= RAM_BYTES`) and its length in the 2-byte prefix.
    DiscardOldest,
}

/// What is to become of the buffered items when one is enqueued, or `Err(())` if it is refused.
pub open spec fn enqueued(
    pending: Seq<Seq<u8>>,
    data: Seq<u8>,
    policy: OverflowPolicy,
    capacity: int,
) -> Result<Seq<Seq<u8>>, ()> {
    let room = capacity - PREFIX_SIZE - data.len();
    if data.len() > u16::MAX {
        Err(())
    } else {
        match policy {
            OverflowPolicy::ReturnErr => if framed_size(pending) <= room {
                Ok(pending.push(data))
            } else {
                Err(())
            },
            OverflowPolicy::DiscardOldest => if 0 <= room {
                Ok(newest_within(pending, room).push(data))
            } else {
                Err(())
            },
        }
    }
}

/// The items without the oldest one.
pub open spec fn without_oldest(pending: Seq<Seq<u8>>) -> Seq<Seq<u8>> {
    if pending.len() == 0 {
        pending
    } else {
        pending.drop_first()
    }
}

/// There is an oldest item, and it fits in a buffer of the given size.
pub open spec fn oldest_fits(pending: Seq<Seq<u8>>, size: nat) -> bool {
    pending.len() > 0 && pending.first().len() <= size
}

/// A buffer after an item was copied to its front.
pub open spec fn with_front(buffer: Seq<u8>, item: Seq<u8>) -> Seq<u8> {
    item + buffer.skip(item.len() as int)
}

/// What has happened to a drain.
#[derive(Debug)]
pub enum DrainEvent<E> {
    /// It begins.
    Begin,
    /// The item was handed to the flash queue, and this came of it.
    Pushed(Result<(), E>),
}

/// How a drain goes on.
#[derive(Debug)]
pub enum DrainAction<T, E> {
    /// The first `len` bytes of the scratch buffer are to be pushed to the flash queue.
    Push { len: usize, allow_overwrite: bool },
    /// It is done.
    Finished(Result<T, E>),
}

/// The item that a drain has handed out and has not yet been told about.
#[derive(Debug, Clone, Copy, PartialEq, Eq, Structural)]
pub enum HandedOut {
    /// There is none.
    Nothing,
    /// The oldest item in the RAM ring.
    Oldest,
    /// An item that has left the RAM ring since.
    Gone,
}

impl HandedOut {
    /// What becomes of it when the oldest item leaves the RAM ring.
    pub open spec fn without_oldest(self) -> HandedOut {
        match self {
            HandedOut::Oldest => HandedOut::Gone,
            _ => self,
        }
    }

    fn oldest_has_left(self) -> (handed_out: HandedOut)
        ensures
            handed_out == self.without_oldest(),
    {
        match self {
            HandedOut::Oldest => HandedOut::Gone,
            other => other,
        }
    }
}

/// The RAM side of a buffered queue.
pub struct RamSide {
    /// The items in the RAM ring, oldest first.
    pub pending: Seq<Seq<u8>>,
    /// The item that a drain has handed out.
    pub handed_out: HandedOut,
}

impl RamSide {
    /// What is left when the items have become others with a new one behind. If there are no more
    /// than before, the oldest was discarded.
    pub open spec fn after_enqueue(self, pending: Seq<Seq<u8>>) -> RamSide {
        RamSide {
            pending,
            handed_out: if pending.len() <= self.pending.len() {
                self.handed_out.without_oldest()
            } else {
                self.handed_out
            },
        }
    }

    /// What is left when the queue is popped into a buffer of the given size: without the oldest
    /// item if flash was empty and the item fits.
    pub open spec fn after_pop<E>(self, flash: Result<Option<usize>, E>, size: nat) -> RamSide {
        if flash == Ok::<Option<usize>, E>(None) && oldest_fits(self.pending, size) {
            RamSide {
                pending: without_oldest(self.pending),
                handed_out: self.handed_out.without_oldest(),
            }
        } else {
            self
        }
    }
}

/// The oldest item of all, where `flash` is what came of reading the flash queue into `buffer`:
/// that of the flash queue, if it has one, else that of the RAM ring, if it fits.
pub open spec fn oldest_of_all<E>(
    pending: Seq<Seq<u8>>,
    flash: Result<Option<usize>, E>,
    buffer: Seq<u8>,
) -> Result<Option<Seq<u8>>, E> {
    match flash {
        Err(error) => Err(error),
        Ok(Some(len)) => Ok(Some(buffer.take(len as int))),
        Ok(None) => if oldest_fits(pending, buffer.len()) {
            Ok(Some(pending.first()))
        } else {
            Ok(None)
        },
    }
}

/// How the drain of one item goes on from an event, and what it leaves in RAM and in the scratch
/// buffer. It hands out the oldest item if that fits in the scratch buffer. Once that was pushed
/// it discards the item, unless the item has left the RAM ring already.
pub open spec fn drain_one_step<E>(
    ram: RamSide,
    event: DrainEvent<E>,
    scratch: Seq<u8>,
    allow_overwrite: bool,
) -> (RamSide, DrainAction<bool, E>, Seq<u8>) {
    match event {
        DrainEvent::Begin => if oldest_fits(ram.pending, scratch.len()) {
            let item = ram.pending.first();
            (
                RamSide { handed_out: HandedOut::Oldest, ..ram },
                DrainAction::Push { len: item.len() as usize, allow_overwrite },
                with_front(scratch, item),
            )
        } else {
            (
                RamSide { handed_out: HandedOut::Nothing, ..ram },
                DrainAction::Finished(Ok(false)),
                scratch,
            )
        },
        DrainEvent::Pushed(Ok(())) => (
            RamSide {
                pending: if ram.handed_out == HandedOut::Oldest {
                    without_oldest(ram.pending)
                } else {
                    ram.pending
                },
                handed_out: HandedOut::Nothing,
            },
            DrainAction::Finished(Ok(ram.handed_out != HandedOut::Nothing)),
            scratch,
        ),
        DrainEvent::Pushed(Err(error)) => (
            RamSide { handed_out: HandedOut::Nothing, ..ram },
            DrainAction::Finished(Err(error)),
            scratch,
        ),
    }
}

/// How the drain of all items goes on from an event, and what it leaves in RAM and in the scratch
/// buffer: once an item was drained, it begins with the next.
pub open spec fn drain_all_step<E>(
    ram: RamSide,
    event: DrainEvent<E>,
    scratch: Seq<u8>,
    allow_overwrite: bool,
) -> (RamSide, DrainAction<(), E>, Seq<u8>) {
    let (after, action, filled) = drain_one_step(ram, event, scratch, allow_overwrite);
    match action {
        DrainAction::Push { len, allow_overwrite } => (
            after,
            DrainAction::Push { len, allow_overwrite },
            filled,
        ),
        DrainAction::Finished(Err(error)) => (after, DrainAction::Finished(Err(error)), filled),
        DrainAction::Finished(Ok(false)) => (after, DrainAction::Finished(Ok(())), filled),
        DrainAction::Finished(Ok(true)) => {
            let (next, action, refilled) = drain_one_step(
                after,
                DrainEvent::<E>::Begin,
                filled,
                allow_overwrite,
            );
            match action {
                DrainAction::Push { len, allow_overwrite } => (
                    next,
                    DrainAction::Push { len, allow_overwrite },
                    refilled,
                ),
                DrainAction::Finished(_) => (next, DrainAction::Finished(Ok(())), refilled),
            }
        },
    }
}

/// A write-buffered queue that accepts items into a RAM ring and drains them to a queue on flash.
///
/// ## Type parameters
///
/// - `Q`: The queue on flash.
/// - `RAM_BYTES`: Capacity of the RAM ring buffer in bytes (includes 2-byte per-item overhead).
pub struct BufferedQueue<Q, const RAM_BYTES: usize> {
    storage: Q,
    ram: RamRing<RAM_BYTES>,
    /// The item that a drain has handed out and has not yet been told about.
    handed_out: HandedOut,
}

impl<Q, const RAM_BYTES: usize> BufferedQueue<Q, RAM_BYTES> {
    /// The invariant of the RAM ring. An item that was handed out as the oldest is there.
    pub closed spec fn wf(&self) -> bool {
        self.ram.wf() && (self.handed_out == HandedOut::Oldest ==> self.ram@.len() > 0)
    }

    /// The RAM ring, and the item of it that was handed out.
    pub closed spec fn ram_side(&self) -> RamSide {
        RamSide { pending: self.ram@, handed_out: self.handed_out }
    }

    /// The items in the RAM ring, oldest first.
    pub open spec fn pending(&self) -> Seq<Seq<u8>> {
        self.ram_side().pending
    }

    /// The queue on flash.
    pub closed spec fn flash_queue(&self) -> Q {
        self.storage
    }

    /// Wrap an existing flash queue with a RAM ring buffer.
    pub fn new(storage: Q) -> (queue: Self)
        ensures
            queue.wf(),
            queue.flash_queue() == storage,
            queue.ram_side() == (RamSide {
                pending: Seq::empty(),
                handed_out: HandedOut::Nothing,
            }),
    {
        Self { storage, ram: RamRing::new(), handed_out: HandedOut::Nothing }
    }

    /// Get a reference to the flash queue.
    pub fn storage(&mut self) -> (storage: &mut Q)
        requires
            old(self).wf(),
        ensures
            *storage == old(self).flash_queue(),
            final(self).wf(),
            final(self).flash_queue() == *final(storage),
            final(self).ram_side() == old(self).ram_side(),
    {
        &mut self.storage
    }

    /// Enqueue an item into the RAM ring buffer.
    ///
    /// This is **synchronous and never touches flash**. When the ring is full the behaviour
    /// is determined by `policy`: return `Err(())` or evict the oldest item.
    pub fn enqueue(&mut self, data: &[u8], policy: OverflowPolicy) -> (result: Result<(), ()>)
        requires
            old(self).wf(),
        ensures
            final(self).wf(),
            match enqueued(old(self).pending(), data@, policy, RAM_BYTES as int) {
                Ok(pending) => {
                    &&& result is Ok
                    &&& final(self).ram_side() == old(self).ram_side().after_enqueue(pending)
                    &&& final(self).flash_queue() == old(self).flash_queue()
                },
                Err(()) => result is Err && *final(self) == *old(self),
            },
    {
        let count: usize = self.ram.len();
        match policy {
            OverflowPolicy::ReturnErr => self.ram.push(data)?,
            OverflowPolicy::DiscardOldest => self.ram.push_overwriting(data)?,
        }
        if self.ram.len() <= count {
            self.handed_out = self.handed_out.oldest_has_left();
        }
        Ok(())
    }

    /// Drain one item from the RAM ring to flash.
    ///
    /// `scratch` is caller-provided temporary storage; it must be at least as large as the
    /// oldest pending item.
    ///
    /// Finishes with `Ok(true)` if an item was committed to flash, with `Ok(false)` if the ring
    /// was empty or the item does not fit in `scratch`. A push that was not asked for discards
    /// nothing and finishes with `Ok(false)` too.
    pub fn drain_one<E>(
        &mut self,
        event: DrainEvent<E>,
        scratch: &mut [u8],
        allow_overwrite: bool,
    ) -> (action: DrainAction<bool, E>)
        requires
            old(self).wf(),
        ensures
            final(self).wf(),
            final(self).flash_queue() == old(self).flash_queue(),
            (final(self).ram_side(), action, final(scratch)@) == drain_one_step(
                old(self).ram_side(),
                event,
                old(scratch)@,
                allow_overwrite,
            ),
    {
        match event {
            DrainEvent::Begin => {
                let len: usize = match self.ram.peek_into(scratch) {
                    Some(data) => data.len(),
                    None => {
                        self.handed_out = HandedOut::Nothing;
                        return DrainAction::Finished(Ok(false));
                    },
                };
                self.handed_out = HandedOut::Oldest;
                DrainAction::Push { len, allow_overwrite }
            },
            DrainEvent::Pushed(Ok(())) => {
                let committed: bool = self.handed_out != HandedOut::Nothing;
                if self.handed_out == HandedOut::Oldest {
                    self.ram.discard_oldest();
                }
                self.handed_out = HandedOut::Nothing;
                DrainAction::Finished(Ok(committed))
            },
            DrainEvent::Pushed(Err(error)) => {
                self.handed_out = HandedOut::Nothing;
                DrainAction::Finished(Err(error))
            },
        }
    }

    /// Drain all RAM-buffered items to flash.
    ///
    /// `scratch` must be large enough for the largest pending item: at one that does not fit the
    /// drain finishes.
    pub fn drain_all<E>(
        &mut self,
        event: DrainEvent<E>,
        scratch: &mut [u8],
        allow_overwrite: bool,
    ) -> (action: DrainAction<(), E>)
        requires
            old(self).wf(),
        ensures
            final(self).wf(),
            final(self).flash_queue() == old(self).flash_queue(),
            (final(self).ram_side(), action, final(scratch)@) == drain_all_step(
                old(self).ram_side(),
                event,
                old(scratch)@,
                allow_overwrite,
            ),
    {
        match self.drain_one(event, scratch, allow_overwrite) {
            DrainAction::Push { len, allow_overwrite } => DrainAction::Push { len, allow_overwrite },
            DrainAction::Finished(Err(error)) => DrainAction::Finished(Err(error)),
            DrainAction::Finished(Ok(false)) => DrainAction::Finished(Ok(())),
            DrainAction::Finished(Ok(true)) => {
                let next: DrainEvent<E> = DrainEvent::Begin;
                match self.drain_one(next, scratch, allow_overwrite) {
                    DrainAction::Push { len, allow_overwrite } => DrainAction::Push {
                        len,
                        allow_overwrite,
                    },
                    DrainAction::Finished(_) => DrainAction::Finished(Ok(())),
                }
            },
        }
    }

    /// Peek at the oldest item without removing it.
    ///
    /// Flash items are always older than RAM items, so flash is read first: `flash` is what came
    /// of peeking at the flash queue into `data_buffer`, the length of its item if it had one. If
    /// flash is empty the oldest item is read directly from the RAM ring without writing to flash.
    pub fn peek<'d, E>(&self, flash: Result<Option<usize>, E>, data_buffer: &'d mut [u8]) -> (item:
        Result<Option<&'d mut [u8]>, E>)
        requires
            self.wf(),
            flash matches Ok(Some(len)) ==> len <= old(data_buffer)@.len(),
        ensures
            match oldest_of_all(self.pending(), flash, old(data_buffer)@) {
                Err(error) => {
                    &&& item == Err::<Option<&'d mut [u8]>, E>(error)
                    &&& final(data_buffer)@ == old(data_buffer)@
                },
                Ok(Some(oldest)) => item matches Ok(Some(data)) && data@ == oldest
                    && final(data_buffer)@ == final(data)@ + old(data_buffer)@.skip(
                    oldest.len() as int,
                ),
                Ok(None) => {
                    &&& item == Ok::<Option<&'d mut [u8]>, E>(None)
                    &&& final(data_buffer)@ == old(data_buffer)@
                },
            },
    {
        let flash_len: Option<usize> = match flash {
            Ok(flash_len) => flash_len,
            Err(error) => return Err(error),
        };
        let len: usize = match flash_len {
            Some(len) => len,
            None => match self.ram.peek_into(data_buffer) {
                Some(data) => data.len(),
                None => return Ok(None),
            },
        };
        let (data, _rest) = data_buffer.split_at_mut(len);
        Ok(Some(data))
    }

    /// Total capacity of the RAM ring in bytes (including 2-byte per-item length prefixes).
    pub fn ram_capacity_bytes() -> (capacity: usize)
        ensures
            capacity == RAM_BYTES,
    {
        RAM_BYTES
    }

    /// Free bytes remaining in the RAM ring.
    pub fn ram_free_bytes(&self) -> (free: usize)
        requires
            self.wf(),
        ensures
            free == RAM_BYTES - framed_size(self.pending()),
    {
        RAM_BYTES - self.ram.bytes_used()
    }

    /// Number of items currently buffered in RAM (not yet committed to flash).
    pub fn ram_pending_count(&self) -> (count: usize)
        requires
            self.wf(),
        ensures
            count == self.pending().len(),
    {
        self.ram.len()
    }

    /// Bytes currently occupied in the RAM ring (including 2-byte per-item length prefixes).
    pub fn ram_bytes_used(&self) -> (used: usize)
        requires
            self.wf(),
        ensures
            used == framed_size(self.pending()),
    {
        self.ram.bytes_used()
    }

    /// Consume this [`BufferedQueue`] and return the inner flash queue.
    ///
    /// **Any items still in the RAM ring are discarded.**
    pub fn into_storage(self) -> (storage: Q)
        ensures
            storage == self.flash_queue(),
    {
        self.storage
    }
}

impl<Q: DeletableFlash, const RAM_BYTES: usize> BufferedQueue<Q, RAM_BYTES> {
    /// Pop the oldest item from the queue.
    ///
    /// Flash items are always older than RAM items, so flash is read first: `flash` is what came
    /// of popping the flash queue into `data_buffer`, the length of its item if it had one. If
    /// flash is empty the oldest item is taken directly from the RAM ring without writing to flash.
    pub fn pop<'d, E>(&mut self, flash: Result<Option<usize>, E>, data_buffer: &'d mut [u8]) -> (item:
        Result<Option<&'d mut [u8]>, E>)
        requires
            old(self).wf(),
            flash matches Ok(Some(len)) ==> len <= old(data_buffer)@.len(),
        ensures
            final(self).wf(),
            final(self).flash_queue() == old(self).flash_queue(),
            final(self).ram_side() == old(self).ram_side().after_pop(
                flash,
                old(data_buffer)@.len(),
            ),
            match oldest_of_all(old(self).pending(), flash, old(data_buffer)@) {
                Err(error) => {
                    &&& item == Err::<Option<&'d mut [u8]>, E>(error)
                    &&& final(data_buffer)@ == old(data_buffer)@
                },
                Ok(Some(oldest)) => item matches Ok(Some(data)) && data@ == oldest
                    && final(data_buffer)@ == final(data)@ + old(data_buffer)@.skip(
                    oldest.len() as int,
                ),
                Ok(None) => {
                    &&& item == Ok::<Option<&'d mut [u8]>, E>(None)
                    &&& final(data_buffer)@ == old(data_buffer)@
                },
            },
    {
        let flash_len: Option<usize> = match flash {
            Ok(flash_len) => flash_len,
            Err(error) => return Err(error),
        };
        let len: usize = match flash_len {
            Some(len) => len,
            None => {
                let len: usize = match self.ram.peek_into(data_buffer) {
                    Some(data) => data.len(),
                    None => return Ok(None),
                };
                self.ram.discard_oldest();
                self.handed_out = self.handed_out.oldest_has_left();
                len
            },
        };
        let (data, _rest) = data_buffer.split_at_mut(len);
        Ok(Some(data))
    }
}

} // verus!
