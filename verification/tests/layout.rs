use sequential_storage::flash_layout::{
    FlashLayout, StorageVersion, FLASH_FORMAT_VERSION, TOMBSTONE_FLASH_FORMAT_VERSION,
};
use sequential_storage::geometry::FlashGeometry;
use sequential_storage::marker::{marker_byte_is_set, marker_is_set, range_is_erased};
use sequential_storage::versioning;
use sequential_storage::versioning::PageStartStatus;
use sequential_storage::versioning_disabled;
use sequential_storage::{Error, PageState};

fn geometry(read_size: usize, write_size: usize, erase_size: usize) -> FlashGeometry {
    FlashGeometry { read_size, write_size, erase_size }
}

#[test]
fn word_size_is_the_largest() {
    assert_eq!(geometry(1, 4, 64).word_size(), 4);
    assert_eq!(geometry(8, 4, 64).word_size(), 8);
    assert_eq!(geometry(4, 4, 64).word_size(), 4);
}

#[test]
fn numbers_are_rounded_to_words() {
    let four = geometry(1, 4, 64);
    assert_eq!(four.round_up_to_alignment(0), 0);
    assert_eq!(four.round_up_to_alignment(1), 4);
    assert_eq!(four.round_up_to_alignment(4), 4);
    assert_eq!(four.round_up_to_alignment(u32::MAX - 4), u32::MAX - 3);
    assert_eq!(four.round_up_to_alignment_usize(13), 16);
    assert_eq!(four.round_down_to_alignment(0), 0);
    assert_eq!(four.round_down_to_alignment(7), 4);
    assert_eq!(four.round_down_to_alignment(8), 8);
    assert_eq!(four.round_down_to_alignment_usize(15), 12);
    // An aligned number is not changed, however big it is.
    assert_eq!(four.round_down_to_alignment_usize(usize::MAX - 3), usize::MAX - 3);
    let twelve = geometry(12, 4, 64);
    assert_eq!(twelve.round_up_to_alignment(13), 24);
    assert_eq!(twelve.round_down_to_alignment(35), 24);
}

#[test]
fn pages_hold_what_their_markers_leave() {
    assert_eq!(geometry(1, 1, 64).calculate_page_size(), 64 - 4 - 1);
    assert_eq!(geometry(4, 4, 256).calculate_page_size(), 256 - 4 - 4);
    assert_eq!(geometry(4, 32, 512).calculate_page_size(), 512 - 32 - 32);
    assert_eq!(geometry(1, 1, 64).start_marker_size(), 4);
    assert_eq!(geometry(1, 1, 64).end_marker_size(), 1);
    assert_eq!(geometry(8, 8, 64).start_marker_size(), 8);
    let layout = FlashLayout::new(100..612, geometry(8, 8, 128));
    assert_eq!(layout.page_data_size(), 112);
    let page = layout.page(2);
    assert_eq!((page.data_end_address() - page.data_start_address()) as usize, layout.page_data_size());
}

#[test]
fn pages_lie_one_behind_the_other() {
    let layout = FlashLayout::new(0x200..0x600, geometry(4, 4, 0x100));
    assert_eq!(layout.page_count(), 4);
    let mut address = 0x200;
    for index in 0..4 {
        let page = layout.page(index);
        assert_eq!(page.start_address(), address);
        assert_eq!(page.start_marker_address(), address);
        assert_eq!(page.start_marker_size(), 4);
        assert_eq!(page.data_start_address(), address + 4);
        assert_eq!(page.data_end_address(), address + 0xFC);
        assert_eq!(page.end_marker_address(), address + 0xFC);
        assert_eq!(page.end_marker_size(), 4);
        address = page.end_address();
        for inside in page.start_address()..page.end_address() {
            assert_eq!(layout.page_index(inside), index);
        }
    }
    assert_eq!(address, 0x600);
}

#[test]
fn a_range_has_at_least_one_page() {
    assert_eq!(FlashLayout::new(0..0, geometry(4, 4, 256)).page_count(), 1);
    assert_eq!(FlashLayout::new(0..255, geometry(4, 4, 256)).page_count(), 1);
    assert_eq!(FlashLayout::new(0..511, geometry(4, 4, 256)).page_count(), 1);
    assert_eq!(FlashLayout::new(0..512, geometry(4, 4, 256)).page_count(), 2);
}

#[test]
fn every_page_is_visited_once() {
    let layout = FlashLayout::new(0..1280, geometry(4, 4, 256));
    assert_eq!(layout.pages_from(0), vec![0, 1, 2, 3, 4]);
    assert_eq!(layout.pages_from(3), vec![3, 4, 0, 1, 2]);
    assert_eq!(layout.pages_from(13), vec![3, 4, 0, 1, 2]);
    assert_eq!(layout.page_from(3, 2), 0);
    for index in 0..5 {
        assert_eq!(layout.previous_page_index(layout.next_page_index(index)), index);
        assert_eq!(layout.next_page_index(layout.previous_page_index(index)), index);
    }
    assert_eq!(layout.next_page_index(4), 0);
    assert_eq!(layout.previous_page_index(0), 4);
}

#[test]
fn half_a_byte_makes_a_marker() {
    assert!(marker_byte_is_set(0));
    assert!(marker_byte_is_set(0b0000_1111));
    assert!(marker_byte_is_set(0b1010_1010));
    assert!(!marker_byte_is_set(0b1010_1011));
    assert!(!marker_byte_is_set(0xFF));
    for byte in 0..=255u8 {
        assert_eq!(marker_byte_is_set(byte), byte.count_zeros() >= 4);
        assert_eq!(marker_is_set(&[byte]), byte.count_zeros() >= 4);
        // Only the first byte counts.
        assert_eq!(marker_is_set(&[byte, 0xFF, 0xFF, 0xFF]), byte.count_zeros() >= 4);
        assert_eq!(marker_is_set(&[byte, 0, 0, 0]), byte.count_zeros() >= 4);
        assert!(!marker_is_set(&[0xFF, byte, 0xFF, 0xFF]));
    }
    assert!(!marker_is_set(&[0xFE, 0xFD, 0xFB, 0xF7]));
    assert!(!marker_is_set(&[0b1010_1011, 0, 0, 0]));
    assert!(!marker_is_set(&[0xFF; 32]));
    assert!(!marker_is_set(&[]));
    assert!(range_is_erased(&[0, 0xFF, 0xFF, 1], 1, 3));
    assert!(!range_is_erased(&[0, 0xFF, 0xFF, 1], 1, 4));
    assert!(range_is_erased(&[0], 1, 1));
}

#[test]
fn a_version_is_read_back() {
    let big = FlashLayout::new(0..1024, geometry(32, 32, 512)).page(0);
    let small = FlashLayout::new(0..1024, geometry(1, 1, 512)).page(0);
    for version in [
        StorageVersion::new(0),
        StorageVersion::new(0xFFFF),
        StorageVersion::new(0x1234),
        StorageVersion::new_with_tombstones(7),
        StorageVersion::with_internal_version(0xFF, 0xFFFF),
    ] {
        let buffer = version.page_start_buffer();
        assert_eq!(big.get_page_start_status::<(), ()>(&buffer), Ok(Some(version)));
        assert_eq!(small.get_page_start_status::<(), ()>(&buffer[..4]), Ok(Some(version)));
        assert_eq!(small.start_is_marked::<(), ()>(&buffer[..4]), Ok(true));
        assert_eq!(
            versioning::get_page_start_status(&big, &buffer),
            PageStartStatus::Written(version)
        );
    }
    let buffer = StorageVersion::new(0x1234).page_start_buffer();
    assert_eq!(&buffer[..5], &[0, FLASH_FORMAT_VERSION, 0x34, 0x12, 0xFF]);
    assert!(buffer[5..].iter().all(|byte| *byte == 0xFF));
    assert_eq!(FLASH_FORMAT_VERSION, 2);
    assert_eq!(TOMBSTONE_FLASH_FORMAT_VERSION, 3);
}

#[test]
fn start_markers_are_open_written_or_corrupted() {
    let page = FlashLayout::new(0..1024, geometry(8, 8, 512)).page(0);
    let erased = [0xFF; 8];
    assert_eq!(page.get_page_start_status::<(), ()>(&erased), Ok(None));
    assert_eq!(page.start_is_marked::<(), ()>(&erased), Ok(false));
    assert_eq!(versioning::get_page_start_status(&page, &erased), PageStartStatus::Open);
    assert_eq!(versioning::page_start_is_marked::<(), ()>(&page, &erased), Ok(false));

    // A marker with three zero bits is not set.
    let flipped = [0b1010_1011, 0xFF, 0xFF, 0xFF, 0xFF, 0xFF, 0xFF, 0xFF];
    assert_eq!(page.get_page_start_status::<(), ()>(&flipped), Ok(None));
    // A version without a marker.
    let unmarked = [0b1010_1011, 0xFF, 0xFE, 0xFF, 0xFF, 0xFF, 0xFF, 0xFF];
    assert_eq!(page.get_page_start_status::<(), ()>(&unmarked), Err(Error::Corrupted));
    // Padding that is not erased, without and with a marker.
    let padded = [0xFF, 0xFF, 0xFF, 0xFF, 0xFF, 0xFF, 0xFF, 0x7F];
    assert_eq!(page.get_page_start_status::<(), ()>(&padded), Err(Error::Corrupted));
    let marked = [0, 2, 7, 0, 0xFF, 0xFF, 0xFF, 0x7F];
    assert_eq!(page.start_is_marked::<(), ()>(&marked), Err(Error::Corrupted));
    assert_eq!(versioning::get_page_start_status(&page, &marked), PageStartStatus::Corrupted);
    assert_eq!(versioning::page_start_is_marked::<(), ()>(&page, &marked), Err(Error::Corrupted));
    assert_eq!(versioning::page_start_size(&page.layout.geometry), 8);

    assert!(page.end_is_marked(&[0, 0xFF, 0xFF, 0xFF, 0xFF, 0xFF, 0xFF, 0xFF]));
    assert!(!page.end_is_marked(&[0xFF; 8]));
    assert!(!page.end_is_marked(&[0xFF, 0, 0, 0, 0, 0, 0, 0]));
}

#[test]
fn start_markers_without_a_version() {
    let state = versioning_disabled::State::new();
    assert_eq!(state, versioning_disabled::State::default());
    let four = geometry(1, 4, 64);
    let size = versioning_disabled::page_start_size(&four);
    assert_eq!(size, 4);
    assert_eq!(versioning_disabled::page_start_size(&geometry(1, 1, 64)), 1);
    assert!(versioning_disabled::page_start_is_marked(&state.page_start_buffer()[..size]));
    assert!(!versioning_disabled::page_start_is_marked(&[0xFF; 4]));
}

#[test]
fn page_states_come_from_markers() {
    assert_eq!(PageState::from_markers(true, true), Some(PageState::Closed));
    assert_eq!(PageState::from_markers(true, false), Some(PageState::PartialOpen));
    assert_eq!(PageState::from_markers(false, true), None);
    assert_eq!(PageState::from_markers(false, false), Some(PageState::Open));
    assert!(PageState::Closed.is_closed() && !PageState::Open.is_closed());
    assert!(PageState::PartialOpen.is_partial_open() && !PageState::Closed.is_partial_open());
    assert!(PageState::Open.is_open() && !PageState::PartialOpen.is_open());
}
