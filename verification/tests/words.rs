use sequential_storage::flash_layout::FlashLayout;
use sequential_storage::geometry::FlashGeometry;
use sequential_storage::storage::report::{PrintItems, ReportAction, ReportEvent};
use sequential_storage::versioning::{version_mismatch, VersionMismatchKind};
use sequential_storage::{Error, GenericStorage, PageState, StorageVersion};

type TestError = Error<u8, char>;

#[test]
fn errors_in_words() {
    let words = |error: TestError| error.message("it");
    assert_eq!(words(Error::Storage { value: 3 }), "Storage error: it");
    assert_eq!(words(Error::FullStorage), "Storage is full");
    assert_eq!(words(Error::Corrupted), "Storage is corrupted");
    assert_eq!(words(Error::LogicBug), "Logic bug");
    assert_eq!(
        words(Error::VersionMismatch {
            expected: StorageVersion::with_internal_version(2, 7),
            actual: StorageVersion::with_internal_version(255, 65535),
        }),
        "Storage version mismatch. Expected StorageVersion { internal: 2, user: 7 }, \
         found StorageVersion { internal: 255, user: 65535 }"
    );
    assert_eq!(
        words(Error::VersionMismatchOf(VersionMismatchKind::Internal { expected: 43, actual: 42 })),
        "Storage version mismatch. Expected internal version 43, found 42"
    );
    assert_eq!(
        words(Error::VersionMismatchOf(VersionMismatchKind::User { expected: 7, actual: 65535 })),
        "Storage version mismatch. Expected user version 7, found 65535"
    );
    assert_eq!(words(Error::BufferTooBig), "A provided buffer was to big to be used");
    assert_eq!(
        words(Error::BufferTooSmall(1230)),
        "A provided buffer was to small to be used. Needed was 1230"
    );
    assert_eq!(words(Error::SerializationError('x')), "Map value error: it");
    assert_eq!(words(Error::ItemTooBig), "The item is too big to fit in the flash");
    assert_eq!(
        words(Error::BufferTooSmall(usize::MAX)),
        format!("A provided buffer was to small to be used. Needed was {}", usize::MAX)
    );
    assert_eq!(
        StorageVersion::new(10).message(),
        "StorageVersion { internal: 2, user: 10 }"
    );
}

#[test]
fn errors_are_compared_by_kind() {
    let mismatch = |user: u16| -> TestError {
        Error::VersionMismatch { expected: StorageVersion::new(user), actual: StorageVersion::new(1) }
    };
    assert!(mismatch(3) == mismatch(4));
    let mismatch_of = |actual: u16| -> TestError {
        Error::VersionMismatchOf(VersionMismatchKind::User { expected: 1, actual })
    };
    assert!(mismatch_of(3) == mismatch_of(4));
    let serialization = |value: char| -> TestError { Error::SerializationError(value) };
    assert!(serialization('a') == serialization('b'));
    let storage = |value: u8| -> TestError { Error::Storage { value } };
    assert!(storage(1) == storage(1));
    assert!(storage(1) != storage(2));
    let too_small = |needed: usize| -> TestError { Error::BufferTooSmall(needed) };
    assert!(too_small(1) == too_small(1));
    assert!(too_small(1) != too_small(2));
    let kinds: Vec<TestError> = vec![
        storage(1),
        Error::FullStorage,
        Error::Corrupted,
        Error::LogicBug,
        mismatch(3),
        mismatch_of(3),
        Error::BufferTooBig,
        too_small(1),
        serialization('a'),
        Error::ItemTooBig,
    ];
    for (i, left) in kinds.iter().enumerate() {
        for (j, right) in kinds.iter().enumerate() {
            assert_eq!(left == right, i == j);
        }
    }
}

#[test]
fn serialization_errors_become_errors() {
    match TestError::from('q') {
        Error::SerializationError(value) => assert_eq!(value, 'q'),
        other => panic!("{other:?}"),
    }
}

#[test]
fn mismatches_are_named() {
    let version = StorageVersion::with_internal_version;
    assert_eq!(version_mismatch(version(2, 7), version(2, 7)), None);
    assert_eq!(
        version_mismatch(version(2, 7), version(3, 8)),
        Some(VersionMismatchKind::Internal { expected: 2, actual: 3 })
    );
    assert_eq!(
        version_mismatch(version(2, 7), version(2, 8)),
        Some(VersionMismatchKind::User { expected: 7, actual: 8 })
    );
}

#[test]
fn items_are_reported_page_by_page() {
    let storage = GenericStorage {
        flash: (),
        geometry: FlashGeometry { read_size: 4, write_size: 4, erase_size: 256 },
        flash_range: 256..1024,
        cache: (),
        version: StorageVersion::new(0),
    };
    let mut report = storage.print_items();
    assert_eq!(
        report.step(ReportEvent::PageState(Ok(PageState::Closed))),
        ReportAction::FirstItem { data_start: 260, data_end: 508 }
    );
    let item = ReportEvent::Item { address: 260, next_address: 280, item: "[1, 2]" };
    assert_eq!(report.step(item), ReportAction::NextItem);
    assert_eq!(report.step(ReportEvent::NoMoreItems), ReportAction::GetPageState { page_index: 1 });
    assert_eq!(
        report.step(ReportEvent::PageState(Err("Corrupted"))),
        ReportAction::FirstItem { data_start: 516, data_end: 764 }
    );
    assert_eq!(report.step(ReportEvent::NoMoreItems), ReportAction::GetPageState { page_index: 2 });
    report.step(ReportEvent::PageState(Ok(PageState::PartialOpen)));
    assert_eq!(report.step(ReportEvent::NoMoreItems), ReportAction::Finished);
    assert_eq!(
        report.into_text(),
        "Items in flash:\n  Page 0 (Closed):\n   Item [1, 2] at 260..280\n  Page 1 (Error (Corrupted)):\n  Page 2 (PartialOpen):\n"
    );
}

#[test]
fn the_report_stops_at_an_unreadable_item() {
    let geometry = FlashGeometry { read_size: 1, write_size: 1, erase_size: 64 };
    let mut report = PrintItems::begin(FlashLayout::new(0..64, geometry));
    report.step(ReportEvent::PageState(Ok(PageState::Open)));
    let item = ReportEvent::UnreadableItem { address: 4, next_address: 100 };
    assert_eq!(report.step(item), ReportAction::Failed);
    assert_eq!(
        report.into_text(),
        "Items in flash:\n  Page 0 (Open):\n   Item COULD NOT BE READ at 4..100\n"
    );
}
