use sequential_storage::queue::buffered::{BufferedQueue, DrainAction, DrainEvent, OverflowPolicy, RamRing};
use sequential_storage::DeletableFlash;

/// A queue in memory that stands in for the one on flash.
#[derive(Default)]
struct FlashQueue {
    items: Vec<Vec<u8>>,
    failing: bool,
    overwrites_allowed: Vec<bool>,
}

impl DeletableFlash for FlashQueue {}

impl FlashQueue {
    fn push(&mut self, data: &[u8], allow_overwrite: bool) -> Result<(), &'static str> {
        if self.failing {
            return Err("flash failed");
        }
        self.items.push(data.to_vec());
        self.overwrites_allowed.push(allow_overwrite);
        Ok(())
    }

    fn peek(&mut self, data_buffer: &mut [u8]) -> Result<Option<usize>, &'static str> {
        if self.failing {
            return Err("flash failed");
        }
        Ok(self.items.first().map(|item| {
            data_buffer[..item.len()].copy_from_slice(item);
            item.len()
        }))
    }

    fn pop(&mut self, data_buffer: &mut [u8]) -> Result<Option<usize>, &'static str> {
        let len = self.peek(data_buffer)?;
        if len.is_some() {
            self.items.remove(0);
        }
        Ok(len)
    }
}

type Queue<const N: usize> = BufferedQueue<FlashQueue, N>;

fn drain_one<const N: usize>(queue: &mut Queue<N>, scratch: &mut [u8], allow_overwrite: bool) -> Result<bool, &'static str> {
    let mut event = DrainEvent::Begin;
    loop {
        match queue.drain_one(event, scratch, allow_overwrite) {
            DrainAction::Push { len, allow_overwrite } => {
                event = DrainEvent::Pushed(queue.storage().push(&scratch[..len], allow_overwrite));
            }
            DrainAction::Finished(result) => return result,
        }
    }
}

fn drain_all<const N: usize>(queue: &mut Queue<N>, scratch: &mut [u8], allow_overwrite: bool) -> Result<(), &'static str> {
    let mut event = DrainEvent::Begin;
    loop {
        match queue.drain_all(event, scratch, allow_overwrite) {
            DrainAction::Push { len, allow_overwrite } => {
                event = DrainEvent::Pushed(queue.storage().push(&scratch[..len], allow_overwrite));
            }
            DrainAction::Finished(result) => return result,
        }
    }
}

fn pop<'d, const N: usize>(queue: &mut Queue<N>, data_buffer: &'d mut [u8]) -> Result<Option<&'d mut [u8]>, &'static str> {
    let flash = queue.storage().pop(data_buffer);
    queue.pop(flash, data_buffer)
}

fn peek<'d, const N: usize>(queue: &mut Queue<N>, data_buffer: &'d mut [u8]) -> Result<Option<&'d mut [u8]>, &'static str> {
    let flash = queue.storage().peek(data_buffer);
    queue.peek(flash, data_buffer)
}

fn make_queue() -> Queue<256> {
    BufferedQueue::new(FlashQueue::default())
}

#[test]
fn enqueue_drain_pop() {
    let mut queue = make_queue();
    let mut scratch = [0u8; 64];
    let mut out = [0u8; 64];

    queue.enqueue(b"hello", OverflowPolicy::ReturnErr).unwrap();
    queue.enqueue(b"world", OverflowPolicy::ReturnErr).unwrap();
    assert_eq!(queue.ram_pending_count(), 2);

    drain_all(&mut queue, &mut scratch, false).unwrap();
    assert_eq!(queue.ram_pending_count(), 0);

    let data = pop(&mut queue, &mut out).unwrap().unwrap();
    assert_eq!(data, b"hello");

    let data = pop(&mut queue, &mut out).unwrap().unwrap();
    assert_eq!(data, b"world");

    assert!(pop(&mut queue, &mut out).unwrap().is_none());
}

#[test]
fn pop_reads_flash_before_ram() {
    let mut storage = FlashQueue::default();
    let mut aligned = [0u8; 8];
    aligned[..5].copy_from_slice(b"first");
    storage.push(&aligned[..5], false).unwrap();

    let mut queue: Queue<256> = BufferedQueue::new(storage);
    let mut out = [0u8; 64];

    queue.enqueue(b"second", OverflowPolicy::ReturnErr).unwrap();

    let data = pop(&mut queue, &mut out).unwrap().unwrap();
    assert_eq!(data, b"first");

    let data = pop(&mut queue, &mut out).unwrap().unwrap();
    assert_eq!(data, b"second");

    assert!(pop(&mut queue, &mut out).unwrap().is_none());
}

#[test]
fn overflow_policy_err() {
    // 16-byte ring: each item costs 2 (prefix) + data.len() bytes.
    // 3 items of 4 bytes = 3*6 = 18 bytes, which won't all fit.
    let mut queue: Queue<16> = BufferedQueue::new(FlashQueue::default());

    queue.enqueue(b"aaaa", OverflowPolicy::ReturnErr).unwrap(); // 6 bytes used
    queue.enqueue(b"bbbb", OverflowPolicy::ReturnErr).unwrap(); // 12 bytes used
    assert!(queue.enqueue(b"cccc", OverflowPolicy::ReturnErr).is_err()); // 18 > 16
}

#[test]
fn overflow_policy_discard_oldest() {
    let mut queue: Queue<16> = BufferedQueue::new(FlashQueue::default());

    queue.enqueue(b"aaaa", OverflowPolicy::ReturnErr).unwrap();
    queue.enqueue(b"bbbb", OverflowPolicy::ReturnErr).unwrap();
    // "aaaa" is evicted to make room for "cccc"
    queue
        .enqueue(b"cccc", OverflowPolicy::DiscardOldest)
        .unwrap();

    assert_eq!(queue.ram_pending_count(), 2);

    let mut out = [0u8; 64];
    let data = pop(&mut queue, &mut out).unwrap().unwrap();
    assert_eq!(data, b"bbbb");
    let data = pop(&mut queue, &mut out).unwrap().unwrap();
    assert_eq!(data, b"cccc");
}

#[test]
fn capacity_helpers() {
    let queue = make_queue();
    assert_eq!(Queue::<256>::ram_capacity_bytes(), 256);
    assert_eq!(queue.ram_free_bytes(), 256);
    assert_eq!(queue.ram_bytes_used(), 0);
}

#[test]
fn free_bytes_count_the_prefixes() {
    let mut queue = make_queue();
    queue.enqueue(b"abc", OverflowPolicy::ReturnErr).unwrap();
    queue.enqueue(b"", OverflowPolicy::ReturnErr).unwrap();
    assert_eq!(queue.ram_bytes_used(), 7);
    assert_eq!(queue.ram_free_bytes(), 249);
    assert_eq!(queue.ram_pending_count(), 2);
}

#[test]
fn drain_one_moves_the_oldest_item() {
    let mut queue = make_queue();
    let mut scratch = [0u8; 4];
    assert_eq!(drain_one(&mut queue, &mut scratch, true), Ok(false));
    queue.enqueue(b"one", OverflowPolicy::ReturnErr).unwrap();
    queue.enqueue(b"four", OverflowPolicy::ReturnErr).unwrap();
    queue.enqueue(b"seven", OverflowPolicy::ReturnErr).unwrap();
    assert_eq!(drain_one(&mut queue, &mut scratch, true), Ok(true));
    assert_eq!(queue.ram_pending_count(), 2);
    assert_eq!(queue.storage().items, vec![b"one".to_vec()]);
    assert_eq!(queue.storage().overwrites_allowed, vec![true]);
    // Up to the item that does not fit in the scratch buffer.
    drain_all(&mut queue, &mut scratch, false).unwrap();
    assert_eq!(queue.ram_pending_count(), 1);
    assert_eq!(queue.storage().items, vec![b"one".to_vec(), b"four".to_vec()]);
    assert_eq!(queue.storage().overwrites_allowed, vec![true, false]);
    assert_eq!(drain_one(&mut queue, &mut scratch, false), Ok(false));
    let storage = queue.into_storage();
    assert_eq!(storage.items.len(), 2);
}

#[test]
fn an_item_that_flash_refuses_stays_buffered() {
    let mut queue = make_queue();
    let mut scratch = [0u8; 16];
    let mut out = [7u8; 16];
    queue.enqueue(b"one", OverflowPolicy::ReturnErr).unwrap();
    queue.storage().failing = true;
    assert_eq!(drain_one(&mut queue, &mut scratch, false), Err("flash failed"));
    assert_eq!(drain_all(&mut queue, &mut scratch, false), Err("flash failed"));
    assert!(pop(&mut queue, &mut out).is_err());
    assert!(peek(&mut queue, &mut out).is_err());
    assert_eq!(queue.ram_pending_count(), 1);
    queue.storage().failing = false;
    assert_eq!(peek(&mut queue, &mut out).unwrap().unwrap(), b"one");
    assert_eq!(queue.ram_pending_count(), 1);
    assert_eq!(pop(&mut queue, &mut out).unwrap().unwrap(), b"one");
    assert_eq!(queue.ram_pending_count(), 0);
}

#[test]
fn order_is_kept_across_flash_and_ram() {
    let mut queue = make_queue();
    let mut scratch = [0u8; 16];
    let mut out = [0u8; 16];
    for i in 0..6u8 {
        queue.enqueue(&[i], OverflowPolicy::ReturnErr).unwrap();
        if i % 2 == 0 {
            assert_eq!(drain_one(&mut queue, &mut scratch, false), Ok(true));
        }
    }
    for i in 0..6u8 {
        assert_eq!(peek(&mut queue, &mut out).unwrap().unwrap(), &[i]);
        let data = pop(&mut queue, &mut out).unwrap().unwrap();
        assert_eq!(data, &[i]);
        // The item is the caller's to change.
        data[0] = 0xEE;
        assert_eq!(out[0], 0xEE);
    }
    assert!(peek(&mut queue, &mut out).unwrap().is_none());
}

#[test]
fn a_buffer_that_is_too_small_gets_no_ram_item() {
    let mut queue = make_queue();
    queue.enqueue(b"hello", OverflowPolicy::ReturnErr).unwrap();
    let mut out = [9u8; 4];
    assert!(pop(&mut queue, &mut out).unwrap().is_none());
    assert!(peek(&mut queue, &mut out).unwrap().is_none());
    assert_eq!(out, [9u8; 4]);
    assert_eq!(queue.ram_pending_count(), 1);
}

#[test]
fn discard_oldest_discards_as_few_as_possible() {
    let mut ring: RamRing<12> = RamRing::default();
    ring.push(b"a").unwrap();
    ring.push(b"b").unwrap();
    ring.push(b"c").unwrap();
    ring.push_overwriting(b"defg").unwrap();
    assert_eq!(ring.len(), 3);
    assert_eq!(ring.bytes_used(), 12);
    let mut buf = [0u8; 12];
    assert_eq!(ring.peek_into(&mut buf), Some(b"b".as_ref()));
    // The item fits beside none of the others.
    ring.push_overwriting(b"0123456789").unwrap();
    assert_eq!(ring.len(), 1);
    assert_eq!(ring.peek_into(&mut buf), Some(b"0123456789".as_ref()));
    // It is larger than the entire ring.
    assert!(ring.push_overwriting(b"0123456789a").is_err());
    assert_eq!(ring.peek_into(&mut buf), Some(b"0123456789".as_ref()));
}

#[test]
fn lengths_take_two_bytes() {
    let mut ring: Box<RamRing<70000>> = Box::new(RamRing::new());
    let item = vec![3u8; 0x1234];
    ring.push(&item).unwrap();
    assert_eq!(ring.oldest_len(), Some(0x1234));
    assert_eq!(ring.bytes_used(), 0x1236);
    let mut buf = vec![0u8; 0x2000];
    assert_eq!(ring.peek_into(&mut buf), Some(item.as_slice()));
    // A length that two bytes cannot say is refused, though there is room.
    let long = vec![1u8; 65536];
    assert!(ring.push(&long).is_err());
    assert!(ring.push_overwriting(&long).is_err());
    assert_eq!(ring.len(), 1);
    assert!(ring.push(&long[..65535]).is_err());
    ring.push_overwriting(&long[..65535]).unwrap();
    assert_eq!(ring.oldest_len(), Some(65535));
}

#[test]
fn a_ring_without_room_takes_nothing() {
    let mut ring: RamRing<0> = RamRing::new();
    assert!(ring.push(b"").is_err());
    assert!(ring.push_overwriting(b"").is_err());
    assert_eq!(ring.oldest_len(), None);
    ring.discard_oldest();
    assert!(ring.is_empty());
    let mut ring: RamRing<2> = RamRing::new();
    ring.push(b"").unwrap();
    assert_eq!(ring.oldest_len(), Some(0));
    assert!(ring.push(b"").is_err());
    ring.push_overwriting(b"").unwrap();
    assert_eq!(ring.len(), 1);
    let mut buf = [0u8; 1];
    assert_eq!(ring.peek_into(&mut buf), Some(b"".as_ref()));
    ring.discard_oldest();
    assert_eq!(ring.oldest_len(), None);
}

#[test]
fn order_survives_discarding() {
    let mut queue: Queue<9> = BufferedQueue::new(FlashQueue::default());
    let mut scratch = [0u8; 4];
    let mut out = [0u8; 4];
    for i in 0..3u8 {
        queue.enqueue(&[i], OverflowPolicy::DiscardOldest).unwrap();
    }
    assert_eq!(drain_one(&mut queue, &mut scratch, false), Ok(true));
    // The items 1 and 2 are discarded from RAM, the older item 0 stays in flash.
    for i in 3..6u8 {
        queue.enqueue(&[i], OverflowPolicy::DiscardOldest).unwrap();
    }
    assert_eq!(queue.storage().items, vec![vec![0]]);
    for i in [0u8, 3, 4, 5] {
        assert_eq!(pop(&mut queue, &mut out).unwrap().unwrap(), &[i]);
    }
    assert!(pop(&mut queue, &mut out).unwrap().is_none());
}

#[test]
fn a_push_that_was_not_asked_for_discards_nothing() {
    let mut queue = make_queue();
    let mut scratch = [0u8; 8];
    queue.enqueue(b"one", OverflowPolicy::ReturnErr).unwrap();
    let pushed: DrainEvent<&'static str> = DrainEvent::Pushed(Ok(()));
    assert!(matches!(queue.drain_one(pushed, &mut scratch, false), DrainAction::Finished(Ok(false))));
    let pushed: DrainEvent<&'static str> = DrainEvent::Pushed(Ok(()));
    assert!(matches!(queue.drain_all(pushed, &mut scratch, false), DrainAction::Finished(Ok(()))));
    assert_eq!(queue.ram_pending_count(), 1);
    // Nor does one that is reported twice.
    queue.enqueue(b"two", OverflowPolicy::ReturnErr).unwrap();
    assert_eq!(drain_one(&mut queue, &mut scratch, false), Ok(true));
    let pushed: DrainEvent<&'static str> = DrainEvent::Pushed(Ok(()));
    assert!(matches!(queue.drain_one(pushed, &mut scratch, false), DrainAction::Finished(Ok(false))));
    assert_eq!(queue.ram_pending_count(), 1);
}

#[test]
fn a_drain_discards_only_what_it_handed_out() {
    let mut queue: Queue<6> = BufferedQueue::new(FlashQueue::default());
    let mut scratch = [0u8; 4];
    let mut out = [0u8; 4];
    queue.enqueue(&[1], OverflowPolicy::ReturnErr).unwrap();
    queue.enqueue(&[2], OverflowPolicy::ReturnErr).unwrap();
    let begin: DrainEvent<&'static str> = DrainEvent::Begin;
    let DrainAction::Push { len, .. } = queue.drain_one(begin, &mut scratch, false) else {
        panic!("there is an item to push");
    };
    assert_eq!(scratch[..len], [1]);
    // The item that was handed out is evicted meanwhile.
    queue.enqueue(&[3], OverflowPolicy::DiscardOldest).unwrap();
    queue.storage().push(&scratch[..len], false).unwrap();
    let pushed: DrainEvent<&'static str> = DrainEvent::Pushed(Ok(()));
    assert!(matches!(queue.drain_one(pushed, &mut scratch, false), DrainAction::Finished(Ok(true))));
    for item in 1..=3u8 {
        assert_eq!(pop(&mut queue, &mut out).unwrap().unwrap(), &[item]);
    }
    assert!(pop(&mut queue, &mut out).unwrap().is_none());
}

#[test]
fn a_refused_push_keeps_the_rest() {
    let mut queue = make_queue();
    let mut scratch = [0u8; 4];
    for item in 0..4u8 {
        queue.enqueue(&[item], OverflowPolicy::ReturnErr).unwrap();
    }
    let mut event = DrainEvent::Begin;
    let mut pushes = 0;
    let result: Result<(), &'static str> = loop {
        match queue.drain_all(event, &mut scratch, false) {
            DrainAction::Push { len, allow_overwrite } => {
                queue.storage().failing = pushes == 2;
                pushes += 1;
                event = DrainEvent::Pushed(queue.storage().push(&scratch[..len], allow_overwrite));
            }
            DrainAction::Finished(result) => break result,
        }
    };
    assert_eq!(result, Err("flash failed"));
    assert_eq!(queue.storage().items, vec![vec![0], vec![1]]);
    assert_eq!(queue.ram_pending_count(), 2);
    queue.storage().failing = false;
    drain_all(&mut queue, &mut scratch, false).unwrap();
    assert_eq!(queue.storage().items, vec![vec![0], vec![1], vec![2], vec![3]]);
}
