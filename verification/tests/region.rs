use bump_allocator::{AllocError, EarlyAllocator};

const PAGE: usize = 0x1000;

fn ready() -> EarlyAllocator<PAGE> {
    let mut a = EarlyAllocator::<PAGE>::new();
    a.init(0x1000, 0x2000);
    a
}

#[test]
fn fresh_allocator_is_empty() {
    let a = EarlyAllocator::<PAGE>::new();
    assert_eq!(a.total_bytes(), 0);
    assert_eq!(a.used_bytes(), 0);
    assert_eq!(a.available_bytes(), 0);
    assert_eq!(a.total_pages(), 0);
    assert_eq!(a.used_pages(), 0);
    assert_eq!(a.available_pages(), 0);
}

#[test]
fn init_sets_up_the_region() {
    let a = ready();
    assert_eq!(a.total_bytes(), 0x2000);
    assert_eq!(a.used_bytes(), 0);
    assert_eq!(a.available_bytes(), 0x2000);
    assert_eq!(a.total_pages(), 2);
    assert_eq!(a.used_pages(), 0);
    assert_eq!(a.available_pages(), 2);
}

#[test]
fn add_memory_is_unsupported() {
    let mut a = ready();
    assert_eq!(a.add_memory(0x4000, 0x1000), Err(AllocError::Unsupported));
    assert_eq!(a.total_bytes(), 0x2000);
    assert_eq!(a.used_bytes(), 0);
}

#[test]
fn align_helpers_round_to_multiples() {
    let a = EarlyAllocator::<PAGE>::new();
    assert_eq!(a.align_up(0x1001, 8), 0x1008);
    assert_eq!(a.align_up(0x1008, 8), 0x1008);
    assert_eq!(a.align_up(0, 16), 0);
    assert_eq!(a.align_down(0x1001, 8), 0x1000);
    assert_eq!(a.align_down(0x1fff, 0x1000), 0x1000);
    assert_eq!(a.align_down(7, 8), 0);
}

#[test]
fn byte_then_page_allocation() {
    let mut a = ready();
    assert_eq!(a.alloc_bytes(16, 8), Ok(0x1000));
    assert_eq!(a.used_bytes(), 16);
    assert_eq!(a.alloc_pages(1, 12), Ok(0x2000));
    assert_eq!(a.used_pages(), 1);
    assert_eq!(a.available_bytes(), 0x2000 - 0x1010);
}

#[test]
fn byte_allocation_respects_alignment() {
    let mut a = ready();
    assert_eq!(a.alloc_bytes(3, 1), Ok(0x1000));
    assert_eq!(a.alloc_bytes(8, 16), Ok(0x1010));
    assert_eq!(a.used_bytes(), 0x18);
}

#[test]
fn byte_addresses_never_decrease() {
    let mut a = ready();
    let first = a.alloc_bytes(1, 1).unwrap();
    let second = a.alloc_bytes(1, 64).unwrap();
    let third = a.alloc_bytes(32, 8).unwrap();
    assert!(first <= second && second <= third);
}

#[test]
fn byte_exhaustion_leaves_state_unchanged() {
    let mut a = ready();
    assert_eq!(a.alloc_bytes(16, 8), Ok(0x1000));
    assert_eq!(a.alloc_pages(1, 12), Ok(0x2000));
    assert_eq!(a.alloc_bytes(0x1000, 1), Err(AllocError::NoMemory));
    assert_eq!(a.used_bytes(), 0x10);
    assert_eq!(a.used_pages(), 1);
    assert_eq!(a.available_bytes(), 0x2000 - 0x1010);
}

#[test]
fn page_exhaustion_leaves_state_unchanged() {
    let mut a = ready();
    assert_eq!(a.alloc_pages(2, 12), Ok(0x1000));
    assert_eq!(a.alloc_pages(1, 12), Err(AllocError::NoMemory));
    assert_eq!(a.used_pages(), 2);
    assert_eq!(a.available_pages(), 0);
}

#[test]
fn oversized_page_request_fails_cleanly() {
    let mut a = ready();
    assert_eq!(a.alloc_pages(usize::MAX, 0), Err(AllocError::NoMemory));
    assert_eq!(a.alloc_pages(3, 12), Err(AllocError::NoMemory));
    assert_eq!(a.used_pages(), 0);
}

#[test]
fn releasing_last_byte_allocation_reclaims_everything() {
    let mut a = ready();
    assert_eq!(a.alloc_bytes(16, 8), Ok(0x1000));
    a.dealloc(0xdead, 1, 1);
    assert_eq!(a.used_bytes(), 0);
    assert_eq!(a.available_bytes(), a.total_bytes());
}

#[test]
fn byte_area_is_reclaimed_only_at_count_zero() {
    let mut a = ready();
    let x = a.alloc_bytes(16, 8).unwrap();
    let y = a.alloc_bytes(16, 8).unwrap();
    a.dealloc(x, 16, 8);
    assert_eq!(a.used_bytes(), 0x20);
    a.dealloc(y, 16, 8);
    assert_eq!(a.used_bytes(), 0);
}

#[test]
fn releasing_all_pages_reclaims_the_page_area() {
    let mut a = ready();
    assert_eq!(a.alloc_pages(1, 12), Ok(0x2000));
    assert_eq!(a.alloc_bytes(16, 8), Ok(0x1000));
    a.dealloc_pages(0x2000, 1);
    assert_eq!(a.used_pages(), 0);
    assert_eq!(a.available_pages(), a.total_pages());
    assert_eq!(a.total_bytes(), 0x2000);
}

#[test]
fn page_area_is_reclaimed_only_at_count_zero() {
    let mut a = ready();
    assert_eq!(a.alloc_pages(1, 12), Ok(0x2000));
    assert_eq!(a.alloc_pages(1, 12), Ok(0x1000));
    a.dealloc_pages(0x1000, 1);
    assert_eq!(a.used_pages(), 2);
    a.dealloc_pages(0x2000, 1);
    assert_eq!(a.used_pages(), 0);
}

#[test]
fn empty_region_serves_nothing() {
    let mut a = EarlyAllocator::<PAGE>::new();
    a.init(0x1000, 0);
    assert_eq!(a.total_bytes(), 0);
    assert_eq!(a.alloc_bytes(1, 1), Err(AllocError::NoMemory));
    assert_eq!(a.alloc_pages(1, 12), Err(AllocError::NoMemory));
}

#[test]
fn zero_sized_byte_allocation_succeeds() {
    let mut a = ready();
    assert_eq!(a.alloc_bytes(0, 8), Ok(0x1000));
    assert_eq!(a.used_bytes(), 0);
    a.dealloc(0x1000, 0, 8);
    assert_eq!(a.used_bytes(), 0);
}

#[test]
fn zero_page_allocation_still_aligns_the_position() {
    let mut a = ready();
    assert_eq!(a.alloc_pages(0, 13), Ok(0x2000));
    assert_eq!(a.used_pages(), 1);
    assert_eq!(a.available_pages(), 1);
}

#[test]
fn page_alignment_can_skip_space() {
    let mut a = EarlyAllocator::<PAGE>::new();
    a.init(0x1000, 0x4000);
    assert_eq!(a.alloc_pages(1, 13), Ok(0x4000));
    assert_eq!(a.used_pages(), 1);
    assert_eq!(a.available_pages(), 3);
}
