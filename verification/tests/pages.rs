use redb::error::Error;
use redb::node_header::{read_node_header, write_node_header, NodeHeader, NodeKind};
use redb::page_allocator::PageAllocator;
use redb::page_number::PageNumber;
use redb::page_tracker::PageTracker;
use redb::region::{block_size, Region};

fn page(region: u32, page_index: u32, page_order: u8) -> PageNumber {
    PageNumber::new(region, page_index, page_order)
}

#[test]
fn block_size_is_a_power_of_two_within_the_limit() {
    assert_eq!(block_size(0, 10), Some(1));
    assert_eq!(block_size(3, 10), Some(8));
    assert_eq!(block_size(3, 8), Some(8));
    assert_eq!(block_size(3, 7), None);
    assert_eq!(block_size(4, 10), None);
    assert_eq!(block_size(0, 0), None);
    assert_eq!(block_size(255, usize::MAX), None);
    assert_eq!(block_size(20, usize::MAX), Some(1 << 20));
}

#[test]
fn region_hands_out_pages_from_the_bump_pointer_first() {
    let mut region = Region::new(8);
    assert_eq!(region.len(), 8);
    assert_eq!(region.allocate(0), Some(0));
    assert_eq!(region.allocate(1), Some(1));
    assert_eq!(region.allocate(2), Some(3));
    assert_eq!(region.count_allocated(), 7);
    assert_eq!(region.allocate(1), None);
    assert_eq!(region.allocate(0), Some(7));
    assert_eq!(region.allocate(0), None);
    assert_eq!(region.count_allocated(), 8);
}

#[test]
fn region_reuses_freed_pages_when_the_bump_runs_out() {
    let mut region = Region::new(8);
    for page in 0..8 {
        assert_eq!(region.allocate(0), Some(page));
    }
    region.free(2, 0);
    region.free(5, 0);
    region.free(6, 0);
    assert!(region.holds(0, 1));
    assert!(!region.holds(2, 0));
    assert!(!region.holds(4, 1));
    assert!(!region.holds(7, 1));
    assert_eq!(region.count_allocated(), 5);
    assert_eq!(region.allocate(1), Some(5));
    assert_eq!(region.allocate(1), None);
    assert_eq!(region.allocate(0), Some(2));
    assert_eq!(region.allocate(0), None);
}

#[test]
fn freeing_what_was_allocated_restores_the_population() {
    let mut region = Region::new(64);
    region.allocate(2);
    region.allocate(0);
    let before = region.count_allocated();
    let first = region.allocate(3).unwrap();
    let second = region.allocate(1).unwrap();
    assert_eq!(region.count_allocated(), before + 10);
    region.free(second, 1);
    region.free(first, 3);
    assert_eq!(region.count_allocated(), before);
    assert!(region.holds(0, 2));
}

#[test]
fn page_number_is_nine_bytes() {
    let number = page(0x01020304, 0x0a0b0c0d, 3);
    let bytes = number.to_le_bytes();
    assert_eq!(bytes, vec![4, 3, 2, 1, 0x0d, 0x0c, 0x0b, 0x0a, 3]);
    assert_eq!(PageNumber::from_le_bytes(&bytes), Some(number));
    assert_eq!(PageNumber::from_le_bytes(&bytes[..8]), None);
    assert_eq!(PageNumber::from_le_bytes(&[0; 10]), None);
}

#[test]
fn blocks_intersect_when_they_share_a_page() {
    assert!(page(0, 0, 1).intersects(&page(0, 1, 0)));
    assert!(page(0, 4, 2).intersects(&page(0, 7, 3)));
    assert!(!page(0, 0, 1).intersects(&page(0, 2, 0)));
    assert!(!page(0, 0, 1).intersects(&page(1, 0, 1)));
    assert!(page(2, 5, 0).intersects(&page(2, 5, 0)));
    assert!(page(0, 0, 255).intersects(&page(0, u32::MAX, 0)));
}

#[test]
fn allocator_grows_region_by_region_and_then_is_out_of_space() {
    let mut allocator = PageAllocator::new(4, 2);
    assert_eq!(allocator.allocate(1), Ok(page(0, 0, 1)));
    assert_eq!(allocator.allocate(1), Ok(page(0, 2, 1)));
    assert_eq!(allocator.allocate(0), Ok(page(1, 0, 0)));
    assert_eq!(allocator.allocate(2), Err(Error::OutOfSpace));
    assert_eq!(allocator.allocate(1), Ok(page(1, 1, 1)));
    assert_eq!(allocator.allocate(0), Ok(page(1, 3, 0)));
    assert_eq!(allocator.allocate(0), Err(Error::OutOfSpace));
    assert_eq!(allocator.count_allocated(), 8);
}

#[test]
fn allocator_refuses_a_block_that_no_region_can_hold() {
    let mut allocator = PageAllocator::new(4, 2);
    assert_eq!(allocator.allocate(3), Err(Error::OutOfSpace));
    assert_eq!(allocator.count_allocated(), 0);
    let mut none = PageAllocator::new(4, 0);
    assert_eq!(none.allocate(0), Err(Error::OutOfSpace));
}

#[test]
fn allocator_prefers_the_region_of_the_last_block() {
    let mut allocator = PageAllocator::new(2, 3);
    assert_eq!(allocator.allocate(1), Ok(page(0, 0, 1)));
    assert_eq!(allocator.allocate(0), Ok(page(1, 0, 0)));
    allocator.free(page(0, 0, 1));
    assert!(!allocator.holds(page(0, 0, 1)));
    assert!(allocator.holds(page(1, 0, 0)));
    assert_eq!(allocator.allocate(0), Ok(page(1, 1, 0)));
    assert_eq!(allocator.allocate(0), Ok(page(0, 0, 0)));
    assert_eq!(allocator.allocate(1), Ok(page(2, 0, 1)));
    assert_eq!(allocator.allocate(0), Ok(page(0, 1, 0)));
    assert_eq!(allocator.allocate(0), Err(Error::OutOfSpace));
    allocator.free(page(1, 0, 0));
    allocator.free(page(2, 0, 1));
    assert_eq!(allocator.allocate(0), Ok(page(1, 0, 0)));
    assert_eq!(allocator.allocate(0), Ok(page(2, 0, 0)));
}

#[test]
fn abort_restores_the_bitmap_population() {
    let mut pages = PageTracker::new(1024, 64);
    assert!(pages.begin_write());
    for _ in 0..100 {
        pages.allocate(0).unwrap();
    }
    pages.commit();
    let before = pages.allocated_pages();
    assert_eq!(before, 100);
    assert!(pages.begin_write());
    let mut taken = Vec::new();
    for n in 0..10_000u32 {
        taken.push(pages.allocate((n % 3) as u8).unwrap());
    }
    assert!(pages.free(page(0, 5, 0)));
    assert!(pages.free(taken[17]));
    assert!(pages.allocated_pages() > before);
    pages.abort();
    assert_eq!(pages.allocated_pages(), before);
    assert!(pages.holds(page(0, 5, 0)));
    assert!(!pages.holds(taken[0]));
    assert_eq!(pages.pending_len(), 0);
}

#[test]
fn freed_pages_are_kept_while_a_reader_can_see_them() {
    let mut pages = PageTracker::new(16, 1);
    assert!(pages.begin_write());
    let first = pages.allocate(0).unwrap();
    let second = pages.allocate(0).unwrap();
    pages.commit();
    let reader = pages.begin_read();
    assert_eq!(reader, 1);
    assert!(pages.begin_write());
    assert!(pages.free(first));
    let third = pages.allocate(0).unwrap();
    assert_ne!(third, first);
    assert_ne!(third, second);
    pages.commit();
    assert_eq!(pages.pending_len(), 1);
    assert!(pages.holds(first));

    assert!(pages.begin_write());
    assert_eq!(pages.pending_len(), 1);
    assert!(pages.holds(first));
    let fourth = pages.allocate(0).unwrap();
    assert_ne!(fourth, first);
    pages.commit();

    pages.end_read(reader);
    assert_eq!(pages.oldest_live_read(), None);
    assert!(pages.begin_write());
    assert_eq!(pages.pending_len(), 0);
    assert!(!pages.holds(first));
    pages.abort();
}

#[test]
fn a_reader_of_the_freeing_transaction_does_not_keep_the_page() {
    let mut pages = PageTracker::new(16, 1);
    assert!(pages.begin_write());
    let first = pages.allocate(1).unwrap();
    pages.commit();
    assert!(pages.begin_write());
    assert!(pages.free(first));
    pages.commit();
    let reader = pages.begin_read();
    assert_eq!(reader, 2);
    assert!(pages.begin_write());
    assert!(!pages.holds(first));
    assert_eq!(pages.pending_len(), 0);
    pages.abort();
    pages.end_read(reader);
}

#[test]
fn only_one_writer_and_only_sound_frees() {
    let mut pages = PageTracker::new(8, 1);
    assert!(pages.begin_write());
    assert!(!pages.begin_write());
    let own = pages.allocate(1).unwrap();
    assert!(!pages.free(page(0, 4, 0)));
    assert!(!pages.free(page(0, 1, 0)));
    assert!(!pages.free(page(3, 0, 0)));
    assert!(pages.free(own));
    assert!(!pages.free(own));
    assert_eq!(pages.allocated_pages(), 0);
    let kept = pages.allocate(0).unwrap();
    pages.commit();
    assert!(pages.begin_write());
    assert!(pages.free(kept));
    assert!(!pages.free(kept));
    assert_eq!(pages.pending_len(), 1);
    pages.abort();
    assert_eq!(pages.pending_len(), 0);
    assert!(pages.holds(kept));
}

#[test]
fn tracker_is_out_of_space_when_the_file_cannot_grow() {
    let mut pages = PageTracker::new(2, 1);
    assert!(pages.begin_write());
    assert_eq!(pages.allocate(1), Ok(page(0, 0, 1)));
    assert_eq!(pages.allocate(0), Err(Error::OutOfSpace));
    pages.commit();
    assert_eq!(pages.allocated_pages(), 2);
}

#[test]
fn node_header_is_nineteen_little_endian_bytes() {
    let header = NodeHeader {
        kind: NodeKind::Internal,
        entry_count: 0x0102,
        transaction_id: 0x0a0b0c0d0e0f1011,
        checksum: 0xffee_ddcc_bbaa_9988,
    };
    let bytes = write_node_header(&header);
    assert_eq!(
        bytes,
        vec![
            2, 0x02, 0x01, 0x11, 0x10, 0x0f, 0x0e, 0x0d, 0x0c, 0x0b, 0x0a, 0x88, 0x99, 0xaa, 0xbb,
            0xcc, 0xdd, 0xee, 0xff
        ]
    );
    assert_eq!(read_node_header(&bytes), Ok(header));
    let mut page = bytes.clone();
    page.extend_from_slice(&[7; 100]);
    assert_eq!(read_node_header(&page), Ok(header));
    let leaf = NodeHeader { kind: NodeKind::Leaf, entry_count: 0, transaction_id: 1, checksum: 0 };
    assert_eq!(write_node_header(&leaf)[0], 1);
    assert_eq!(read_node_header(&write_node_header(&leaf)), Ok(leaf));
}

#[test]
fn unknown_node_kind_or_short_page_is_corrupt() {
    let mut bytes = vec![0u8; 19];
    assert_eq!(read_node_header(&bytes), Err(Error::Corruption));
    bytes[0] = 3;
    assert_eq!(read_node_header(&bytes), Err(Error::Corruption));
    bytes[0] = 1;
    assert!(read_node_header(&bytes).is_ok());
    assert_eq!(read_node_header(&bytes[..18]), Err(Error::Corruption));
    assert_eq!(read_node_header(&[]), Err(Error::Corruption));
}
