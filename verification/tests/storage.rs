use sequential_storage::flash_layout::{FlashLayout, FLASH_FORMAT_VERSION};
use sequential_storage::geometry::FlashGeometry;
use sequential_storage::marker::MARKER;
use sequential_storage::operation::{Operation, Reply, Request, Step};
use sequential_storage::storage::auto_repair::AutoRepair;
use sequential_storage::versioning::{verify_storage, State, VersionMismatchKind};
use sequential_storage::{
    assert_read_write_sizes, read_write_sizes_are_supported, Error, GenericStorage, PageState,
    StorageVersion, VersionPolicy,
};
use std::collections::HashMap;

/// A flash in memory, with a cache that may remember page states.
struct MockDevice {
    bytes: Vec<u8>,
    remember: bool,
    states: HashMap<usize, PageState>,
    dirty: bool,
    /// The request that fails, counted from one.
    failing_request: Option<usize>,
    requests: usize,
    log: Vec<String>,
}

type MockError = &'static str;

impl MockDevice {
    fn new(len: usize) -> Self {
        MockDevice {
            bytes: vec![0xFF; len],
            remember: false,
            states: HashMap::new(),
            dirty: false,
            failing_request: None,
            requests: 0,
            log: Vec::new(),
        }
    }

    fn caching(len: usize) -> Self {
        MockDevice { remember: true, ..MockDevice::new(len) }
    }

    fn write(&mut self, offset: usize, data: &[u8]) {
        for (place, byte) in self.bytes[offset..].iter_mut().zip(data) {
            *place &= byte;
        }
    }

    fn perform<M: Operation<MockError>>(&mut self, operation: M) -> Step<M, Result<M::Value, Error<MockError>>> {
        self.requests += 1;
        let failing = self.failing_request == Some(self.requests);
        match operation.request() {
            Request::LookupPageState { page_index } => {
                self.log.push(format!("lookup {page_index}"));
                operation.resume(Reply::CachedPageState(self.states.get(&page_index).copied()))
            }
            Request::NoticePageState { page_index, state, dirty } => {
                self.log.push(format!("notice {page_index} {state:?} {dirty}"));
                self.dirty |= dirty;
                if self.remember {
                    self.states.insert(page_index, state);
                }
                operation.resume(Reply::Noted)
            }
            Request::InvalidateCacheState => {
                self.log.push(format!("invalidate"));
                self.states.clear();
                self.dirty = false;
                operation.resume(Reply::Noted)
            }
            Request::Read { offset, len } => {
                self.log.push(format!("read {offset} {len}"));
                if failing {
                    return operation.resume(Reply::Read(Err("read failed")));
                }
                let bytes = self.bytes[offset as usize..offset as usize + len].to_vec();
                operation.resume(Reply::Read(Ok(&bytes)))
            }
            Request::Write { offset, data, len } => {
                self.log.push(format!("write {offset} {len}"));
                if failing {
                    return operation.resume(Reply::Changed(Err("write failed")));
                }
                self.write(offset as usize, &data[..len]);
                operation.resume(Reply::Changed(Ok(())))
            }
            Request::Erase { from, to } => {
                self.log.push(format!("erase {from} {to}"));
                if failing {
                    return operation.resume(Reply::Changed(Err("erase failed")));
                }
                self.bytes[from as usize..to as usize].fill(0xFF);
                operation.resume(Reply::Changed(Ok(())))
            }
        }
    }

    fn run<M: Operation<MockError>>(&mut self, mut operation: M) -> Result<M::Value, Error<MockError>> {
        loop {
            match self.perform(operation) {
                Step::Pending(next) => operation = next,
                Step::Finished(result) => return result,
            }
        }
    }
}

/// Four pages of 64 words of four bytes.
fn words_of_four() -> FlashGeometry {
    FlashGeometry { read_size: 4, write_size: 4, erase_size: 256 }
}

/// Two pages of 64 words of one byte.
fn words_of_one() -> FlashGeometry {
    FlashGeometry { read_size: 1, write_size: 1, erase_size: 64 }
}

#[test]
fn test_find_pages() {
    // Page setup:
    // 0: closed
    // 1: closed
    // 2: partial-open
    // 3: open

    let mut flash = MockDevice::new(0x400);

    // Page 0 markers
    flash.write(0x000, &[MARKER, 0, 0, 0]);
    flash.write(0x100 - 4, &[0, 0, 0, MARKER]);
    // Page 1 markers
    flash.write(0x100, &[MARKER, 0, 0, 0]);
    flash.write(0x200 - 4, &[0, 0, 0, MARKER]);
    // Page 2 markers
    flash.write(0x200, &[MARKER, 0, 0, 0]);

    let mut storage = GenericStorage {
        flash: (),
        geometry: words_of_four(),
        flash_range: 0x000..0x400,
        cache: (),
        version: StorageVersion::new(0),
    };

    assert_eq!(flash.run(storage.find_first_page(0, PageState::Open)).unwrap(), Some(3));
    assert_eq!(flash.run(storage.find_first_page(0, PageState::PartialOpen)).unwrap(), Some(2));
    assert_eq!(flash.run(storage.find_first_page(1, PageState::PartialOpen)).unwrap(), Some(2));
    assert_eq!(flash.run(storage.find_first_page(2, PageState::PartialOpen)).unwrap(), Some(2));
    assert_eq!(flash.run(storage.find_first_page(3, PageState::Open)).unwrap(), Some(3));

    storage.flash_range = 0x000..0x200;
    assert_eq!(flash.run(storage.find_first_page(0, PageState::PartialOpen)).unwrap(), None);
    storage.flash_range = 0x000..0x400;

    assert_eq!(flash.run(storage.find_first_page(0, PageState::Closed)).unwrap(), Some(0));
    assert_eq!(flash.run(storage.find_first_page(1, PageState::Closed)).unwrap(), Some(1));
    assert_eq!(flash.run(storage.find_first_page(2, PageState::Closed)).unwrap(), Some(0));
    assert_eq!(flash.run(storage.find_first_page(3, PageState::Closed)).unwrap(), Some(0));

    storage.flash_range = 0x200..0x400;
    assert_eq!(flash.run(storage.find_first_page(0, PageState::Closed)).unwrap(), None);
}

#[test]
fn read_write_sizes() {
    assert_read_write_sizes(1, 1);
    assert_read_write_sizes(1, 4);
    assert_read_write_sizes(4, 4);
    assert_read_write_sizes(4, 1);
}

#[test]
fn read_write_sizes_that_do_not_fit_are_refused() {
    assert!(!read_write_sizes_are_supported(4, 3));
    assert!(!read_write_sizes_are_supported(3, 4));
    assert!(!read_write_sizes_are_supported(4, 6));
    assert!(read_write_sizes_are_supported(4, 1));
    assert!(read_write_sizes_are_supported(1, 4));
    assert!(read_write_sizes_are_supported(0, 4));
    assert!(read_write_sizes_are_supported(0, 0));
}

fn make_versioned_storage() -> GenericStorage<(), ()> {
    GenericStorage {
        flash: (),
        geometry: words_of_one(),
        flash_range: 0..128,
        cache: (),
        version: StorageVersion::new(7),
    }
}

#[test]
fn verify_accepts_erased_storage() {
    let mut flash = MockDevice::new(128);
    let storage = make_versioned_storage();

    flash.run(storage.verify(VersionPolicy::ErrorOnMismatch)).unwrap();
}

#[test]
fn verify_reports_internal_version_mismatch() {
    let mut flash = MockDevice::new(128);
    flash.write(0x00, &[MARKER, 42, 7, 0]);

    let storage = GenericStorage {
        flash: (),
        geometry: words_of_one(),
        flash_range: 0..128,
        cache: (),
        version: StorageVersion::with_internal_version(43, 7),
    };

    assert_eq!(
        flash.run(storage.verify(VersionPolicy::ErrorOnMismatch)),
        Err(Error::VersionMismatch {
            expected: StorageVersion::new(7),
            actual: StorageVersion::with_internal_version(43, 7),
        })
    );
}

#[test]
fn verify_reports_user_version_mismatch() {
    let mut flash = MockDevice::new(128);
    flash.write(0x00, &[MARKER, FLASH_FORMAT_VERSION, 9, 0]);

    let storage = make_versioned_storage();

    assert_eq!(
        flash.run(storage.verify(VersionPolicy::ErrorOnMismatch)),
        Err(Error::VersionMismatch {
            expected: StorageVersion::new(9),
            actual: StorageVersion::new(7),
        })
    );
}

#[test]
fn verify_erase_policy_clears_mismatched_storage() {
    let mut flash = MockDevice::new(128);
    flash.write(0x00, &[MARKER, FLASH_FORMAT_VERSION, 9, 0]);

    let storage = make_versioned_storage();
    flash.run(storage.verify(VersionPolicy::EraseOnMismatch)).unwrap();

    assert!(flash.bytes.iter().all(|byte| *byte == u8::MAX));
}

#[test]
fn versioned_partial_close_writes_four_byte_header_on_byte_flash() {
    let mut flash = MockDevice::new(128);
    let storage = make_versioned_storage();

    assert_eq!(flash.run(storage.partial_close_page(0)).unwrap(), PageState::PartialOpen);
    assert_eq!(&flash.bytes[..4], &[MARKER, FLASH_FORMAT_VERSION, 7, 0]);
}

#[test]
fn mismatch_reports_what_was_read_and_what_was_expected() {
    let mut flash = MockDevice::new(128);
    flash.write(0x40, &[MARKER, 42, 0x34, 0x12]);
    let storage = make_versioned_storage();

    match flash.run(storage.verify(VersionPolicy::ErrorOnMismatch)) {
        Err(Error::VersionMismatch { expected, actual }) => {
            assert_eq!(expected, StorageVersion::with_internal_version(FLASH_FORMAT_VERSION, 7));
            assert_eq!(actual, StorageVersion::with_internal_version(42, 0x1234));
        }
        other => panic!("{other:?}"),
    }
}

#[test]
fn verify_invalidates_the_cache_and_reads_every_page() {
    let mut flash = MockDevice::caching(128);
    flash.states.insert(1, PageState::Closed);
    flash.dirty = true;
    let storage = make_versioned_storage();
    flash.run(storage.verify(VersionPolicy::ErrorOnMismatch)).unwrap();
    assert_eq!(flash.log, vec!["invalidate", "read 0 4", "read 64 4"]);
    assert!(flash.states.is_empty());
    assert!(!flash.dirty);
}

#[test]
fn verify_erase_policy_erases_the_range_alone() {
    let mut flash = MockDevice::new(256);
    flash.bytes.fill(0);
    flash.bytes[64..192].fill(0xFF);
    flash.write(128, &[MARKER, FLASH_FORMAT_VERSION, 9, 0]);
    let storage = GenericStorage {
        flash_range: 64..192,
        ..make_versioned_storage()
    };
    flash.run(storage.verify(VersionPolicy::EraseOnMismatch)).unwrap();
    assert_eq!(
        flash.log,
        vec!["invalidate", "read 64 4", "read 128 4", "erase 64 192", "invalidate"]
    );
    assert!(flash.bytes[64..192].iter().all(|byte| *byte == 0xFF));
    assert!(flash.bytes[..64].iter().all(|byte| *byte == 0));
    assert!(flash.bytes[192..].iter().all(|byte| *byte == 0));
    flash.run(storage.verify(VersionPolicy::ErrorOnMismatch)).unwrap();
}

#[test]
fn verify_reports_corrupted_page() {
    let mut flash = MockDevice::new(128);
    // The version was written, the marker was not.
    flash.write(0, &[0xFF, 2, 7, 0]);
    let storage = make_versioned_storage();
    assert_eq!(flash.run(storage.verify(VersionPolicy::EraseOnMismatch)), Err(Error::Corrupted));
}

#[test]
fn written_version_is_accepted_and_another_refused() {
    let mut flash = MockDevice::new(128);
    let storage = make_versioned_storage();
    flash.run(storage.partial_close_page(1)).unwrap();
    flash.run(storage.verify(VersionPolicy::ErrorOnMismatch)).unwrap();
    let other = GenericStorage { version: StorageVersion::new_with_tombstones(7), ..make_versioned_storage() };
    match flash.run(other.verify(VersionPolicy::ErrorOnMismatch)) {
        Err(Error::VersionMismatch { expected, actual }) => {
            assert_eq!(expected, StorageVersion::with_internal_version(3, 7));
            assert_eq!(actual, StorageVersion::with_internal_version(2, 7));
        }
        other => panic!("{other:?}"),
    }
}

#[test]
fn a_page_goes_from_open_to_closed_and_back() {
    let mut flash = MockDevice::new(128);
    let storage = make_versioned_storage();

    assert_eq!(flash.run(storage.get_page_state(0)).unwrap(), PageState::Open);
    flash.run(storage.partial_close_page(0)).unwrap();
    assert_eq!(flash.run(storage.get_page_state(0)).unwrap(), PageState::PartialOpen);
    assert_eq!(flash.run(storage.partial_close_page(0)).unwrap(), PageState::PartialOpen);
    flash.run(storage.close_page(0)).unwrap();
    assert_eq!(flash.run(storage.get_page_state(0)).unwrap(), PageState::Closed);
    assert_eq!(flash.bytes[63], MARKER);
    assert_eq!(flash.run(storage.partial_close_page(0)).unwrap(), PageState::Closed);
    flash.run(storage.close_page(0)).unwrap();
    assert_eq!(flash.run(storage.get_page_state(1)).unwrap(), PageState::Open);
    flash.run(storage.open_page(0)).unwrap();
    assert_eq!(flash.run(storage.get_page_state(0)).unwrap(), PageState::Open);
    assert!(flash.bytes.iter().all(|byte| *byte == 0xFF));

    flash.run(storage.close_page(1)).unwrap();
    assert_eq!(flash.run(storage.get_page_state(1)).unwrap(), PageState::Closed);
    assert_eq!(&flash.bytes[64..68], &[MARKER, FLASH_FORMAT_VERSION, 7, 0]);
    assert!(flash.bytes[..64].iter().all(|byte| *byte == 0xFF));
}

#[test]
fn markers_on_big_words() {
    let mut flash = MockDevice::new(1024);
    let storage = GenericStorage {
        flash: (),
        geometry: FlashGeometry { read_size: 4, write_size: 32, erase_size: 512 },
        flash_range: 0..1024,
        cache: (),
        version: StorageVersion::new(0x0102),
    };
    flash.run(storage.close_page(1)).unwrap();
    let mut start = [0xFF; 32];
    start[..4].copy_from_slice(&[0, 2, 2, 1]);
    assert_eq!(&flash.bytes[512..544], &start);
    assert_eq!(&flash.bytes[992..], &[0; 32]);
    assert!(flash.bytes[544..992].iter().all(|byte| *byte == 0xFF));
    assert_eq!(
        flash.log,
        vec![
            "lookup 1",
            "read 512 32",
            "read 992 4",
            "notice 1 Open false",
            "notice 1 PartialOpen true",
            "write 512 32",
            "notice 1 Closed true",
            "write 992 32",
        ]
    );
    // Padding that is not erased is corrupted.
    flash.bytes[520] = 0;
    assert_eq!(flash.run(storage.get_page_state(1)), Err(Error::Corrupted));
}

#[test]
fn the_cache_is_asked_first_and_told_after() {
    let mut flash = MockDevice::caching(128);
    let storage = make_versioned_storage();
    assert_eq!(flash.run(storage.get_page_state(0)).unwrap(), PageState::Open);
    assert_eq!(flash.run(storage.get_page_state(0)).unwrap(), PageState::Open);
    assert_eq!(
        flash.log,
        vec!["lookup 0", "read 0 4", "read 63 1", "notice 0 Open false", "lookup 0"]
    );
}

#[test]
fn occasional_bitflips_are_survived() {
    let mut flash = MockDevice::new(128);
    let storage = make_versioned_storage();
    // Three bits of the erased start and end marker have flipped.
    flash.bytes[0] = 0b1010_1011;
    flash.bytes[63] = 0b1010_1011;
    assert_eq!(flash.run(storage.get_page_state(0)).unwrap(), PageState::Open);
    // The marker is written over the flipped bits.
    flash.run(storage.partial_close_page(0)).unwrap();
    assert_eq!(&flash.bytes[..4], &[MARKER, FLASH_FORMAT_VERSION, 7, 0]);
    // Four bits of the written marker have flipped.
    flash.bytes[0] = 0b0101_0101;
    assert_eq!(flash.run(storage.get_page_state(0)).unwrap(), PageState::PartialOpen);
    // So it is with the end marker.
    flash.bytes[63] = 0b0101_0101;
    assert_eq!(flash.run(storage.get_page_state(0)).unwrap(), PageState::Closed);
}

#[test]
fn end_marker_alone_is_corrupted_and_repaired() {
    let mut flash = MockDevice::new(128);
    let storage = make_versioned_storage();
    flash.run(storage.close_page(1)).unwrap();
    flash.bytes[10] = 5;
    flash.write(63, &[MARKER]);
    assert_eq!(flash.run(storage.get_page_state(0)), Err(Error::Corrupted));
    assert_eq!(flash.run(storage.find_first_page(0, PageState::Closed)), Err(Error::Corrupted));
    assert_eq!(flash.run(storage.find_first_page(1, PageState::Closed)).unwrap(), Some(1));
    let page_1 = flash.bytes[64..].to_vec();

    flash.run(storage.try_general_repair()).unwrap();
    assert!(flash.bytes[..64].iter().all(|byte| *byte == 0xFF));
    assert_eq!(&flash.bytes[64..], &page_1);
    assert_eq!(flash.run(storage.find_first_page(0, PageState::Closed)).unwrap(), Some(1));
}

#[test]
fn auto_repair_runs_the_operation_again() {
    let mut flash = MockDevice::new(128);
    let storage = make_versioned_storage();
    flash.write(63, &[MARKER]);
    let search = storage.find_first_page(0, PageState::Open);
    let operation = AutoRepair::run_with_auto_repair(search, storage.try_general_repair());
    assert_eq!(flash.run(operation).unwrap(), Some(0));
    assert!(flash.bytes.iter().all(|byte| *byte == 0xFF));

    // Nothing is repaired where nothing is corrupted.
    let requests = flash.requests;
    let search = storage.find_first_page(0, PageState::Closed);
    let operation = AutoRepair::run_with_auto_repair(search, storage.try_general_repair());
    assert_eq!(flash.run(operation).unwrap(), None);
    assert_eq!(flash.requests, requests + 8);
}

#[test]
fn auto_repair_reports_an_error_of_the_repair() {
    let mut flash = MockDevice::new(128);
    let storage = make_versioned_storage();
    flash.write(63, &[MARKER]);
    // The search makes three requests until it is corrupted, so does the repair; it then tells the
    // cache, and the erase fails.
    flash.failing_request = Some(8);
    let search = storage.find_first_page(0, PageState::Open);
    let operation = AutoRepair::run_with_auto_repair(search, storage.try_general_repair());
    assert_eq!(flash.run(operation), Err(Error::Storage { value: "erase failed" }));
}

#[test]
fn flash_errors_are_reported() {
    let storage = make_versioned_storage();
    let fail = |request: usize| {
        let mut flash = MockDevice::new(128);
        flash.failing_request = Some(request);
        flash
    };
    let read = Err(Error::Storage { value: "read failed" });
    assert_eq!(fail(2).run(storage.get_page_state(0)), read);
    assert_eq!(fail(3).run(storage.get_page_state(0)), Err(Error::Storage { value: "read failed" }));
    assert_eq!(fail(2).run(storage.open_page(0)), Err(Error::Storage { value: "erase failed" }));
    assert_eq!(fail(6).run(storage.partial_close_page(0)), Err(Error::Storage { value: "write failed" }));
    assert_eq!(fail(8).run(storage.close_page(0)), Err(Error::Storage { value: "write failed" }));
    assert_eq!(fail(6).run(storage.find_first_page(0, PageState::Closed)), Err(Error::Storage { value: "read failed" }));
    assert_eq!(
        fail(3).run(storage.verify(VersionPolicy::ErrorOnMismatch)),
        Err(Error::Storage { value: "read failed" })
    );
    assert_eq!(fail(1).run(storage.erase_all()), Err(Error::Storage { value: "erase failed" }));
    // A repair leaves a page that cannot be read.
    assert_eq!(fail(2).run(storage.try_general_repair()), Ok(()));
}

#[test]
fn a_reply_to_another_request_is_a_logic_bug() {
    let storage = make_versioned_storage();
    let reply: Reply<MockError> = Reply::Noted;
    match storage.get_page_state(0).resume(reply) {
        Step::Finished(Err(Error::LogicBug)) => {}
        _ => panic!("a lookup is not answered by a note"),
    }
    let reply: Reply<MockError> = Reply::CachedPageState(None);
    let Step::Pending(reading) = storage.get_page_state(0).resume(reply) else {
        panic!("the page has to be read");
    };
    let reply: Reply<MockError> = Reply::Read(Ok(&[0xFF; 3]));
    match reading.resume(reply) {
        Step::Finished(Err(Error::LogicBug)) => {}
        _ => panic!("four bytes are a start marker here"),
    }
}

#[test]
fn stopped_operations_leave_a_cache_that_can_be_trusted() {
    let storage = make_versioned_storage();
    for replies in 0..10 {
        let mut flash = MockDevice::caching(128);
        let mut step = Step::Pending(storage.close_page(0));
        for _ in 0..replies {
            if let Step::Pending(operation) = step {
                step = flash.perform(operation);
            }
        }
        let remembered = flash.states.get(&0).copied();
        flash.states.clear();
        let state = flash.run(storage.get_page_state(0)).unwrap();
        assert!(flash.dirty || remembered.is_none() || remembered == Some(state));
        assert_eq!(flash.dirty, replies >= 5);
    }
}

#[test]
fn erase_all_erases_the_range() {
    let mut flash = MockDevice::new(256);
    flash.bytes.fill(0);
    let storage = GenericStorage { flash_range: 64..128, ..make_versioned_storage() };
    flash.run(storage.erase_all()).unwrap();
    assert_eq!(flash.log, vec!["erase 64 128"]);
    assert!(flash.bytes[64..128].iter().all(|byte| *byte == 0xFF));
    assert!(flash.bytes[..64].iter().all(|byte| *byte == 0));
    assert!(flash.bytes[128..].iter().all(|byte| *byte == 0));
}

#[test]
fn pages_are_visited_around() {
    let storage = GenericStorage {
        flash: 5,
        geometry: words_of_four(),
        flash_range: 0x000..0x400,
        cache: 6,
        version: StorageVersion::new(0),
    };
    assert_eq!(storage.get_pages(0), vec![0, 1, 2, 3]);
    assert_eq!(storage.get_pages(2), vec![2, 3, 0, 1]);
    assert_eq!(storage.next_page(2), 3);
    assert_eq!(storage.next_page(3), 0);
    assert_eq!(storage.previous_page(3), 2);
    assert_eq!(storage.previous_page(0), 3);
    assert_eq!(storage.flash_range(), 0..0x400);
    assert_eq!(storage.layout(), FlashLayout::new(0..0x400, words_of_four()));
    let mut storage = storage;
    *storage.flash() += 2;
    assert_eq!(storage.destroy(), (7, 6));
}

#[test]
fn verify_storage_tells_mismatches_apart() {
    let layout = FlashLayout::new(0..128, words_of_one());
    let mut flash = MockDevice::new(128);
    let verify = verify_storage(layout, State::new(7), VersionPolicy::ErrorOnMismatch);
    let mismatch = |result: Result<(), Error<MockError>>| match result {
        Err(Error::VersionMismatchOf(kind)) => kind,
        other => panic!("{other:?}"),
    };
    assert_eq!(flash.run(verify), Ok(()));

    flash.write(64, &State::new(9).page_start_buffer()[..4]);
    assert_eq!(
        mismatch(flash.run(verify)),
        VersionMismatchKind::User { expected: 7, actual: 9 }
    );

    // Where both differ, the flash format's version is reported, and the flash stays as it is.
    flash.bytes.fill(0xFF);
    flash.write(0, &[0x00, 42, 9, 0]);
    let written = flash.bytes.clone();
    let state = State::with_internal_version(43, 7);
    assert_eq!(
        mismatch(flash.run(verify_storage(layout, state, VersionPolicy::ErrorOnMismatch))),
        VersionMismatchKind::Internal { expected: 43, actual: 42 }
    );
    assert_eq!(flash.bytes, written);
    let erase = verify_storage(layout, State::new(7), VersionPolicy::EraseOnMismatch);
    assert_eq!(flash.run(erase), Ok(()));
    assert!(flash.bytes.iter().all(|byte| *byte == 0xFF));

    flash.write(0, &[0xFF, 1, 2, 3]);
    assert_eq!(flash.run(verify), Err(Error::Corrupted));
}

#[test]
fn closing_a_page_writes_its_markers_alone() {
    let mut flash = MockDevice::new(128);
    flash.bytes[10] = 0x5A;
    flash.bytes[100] = 0xA5;
    let mut expected = flash.bytes.clone();
    let storage = make_versioned_storage();
    flash.run(storage.close_page(0)).unwrap();
    expected[..4].copy_from_slice(&[MARKER, FLASH_FORMAT_VERSION, 7, 0]);
    expected[63] = MARKER;
    assert_eq!(flash.bytes, expected);
}

#[test]
fn only_the_first_byte_of_an_end_marker_counts() {
    let mut flash = MockDevice::new(0x400);
    let storage = GenericStorage {
        flash: (),
        geometry: words_of_four(),
        flash_range: 0x000..0x400,
        cache: (),
        version: StorageVersion::new(0),
    };
    flash.write(0x100 - 4, &[0xFF, 0, 0, 0]);
    assert_eq!(flash.run(storage.get_page_state(0)).unwrap(), PageState::Open);
    flash.write(0x100 - 4, &[0x0F, 0xFF, 0xFF, 0xFF]);
    assert_eq!(flash.run(storage.get_page_state(0)), Err(Error::Corrupted));
}
