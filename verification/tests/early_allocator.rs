use bump_allocator::region::{AllocError, EarlyAllocator};

const PAGE: usize = 0x1000;

#[test]
fn new_is_empty() {
    let mut a = EarlyAllocator::<PAGE>::new();
    assert_eq!(a.total_bytes(), 0);
    assert_eq!(a.used_bytes(), 0);
    assert_eq!(a.available_bytes(), 0);
    assert_eq!(a.total_pages(), 0);
    assert_eq!(a.alloc_bytes(1, 1), Err(AllocError::OutOfMemory));
}

#[test]
fn initial_scenario() {
    let mut a = EarlyAllocator::<PAGE>::new();
    assert_eq!(a.initialize(0x1000, 0x2000), Ok(()));
    assert_eq!(a.total_bytes(), 0x2000);
    assert_eq!(a.total_pages(), 2);
    assert_eq!(a.alloc_bytes(16, 1), Ok(0x1000));
    assert_eq!(a.used_bytes(), 16);
    assert_eq!(a.alloc_pages(1, PAGE), Ok(0x2000));
    assert_eq!(a.used_pages(), 1);
    assert_eq!(a.available_bytes(), 0x2000 - 16 - 0x1000);
    assert_eq!(a.available_bytes(), 0x0FF0);
}

#[test]
fn initialize_rounds_to_words() {
    let mut a = EarlyAllocator::<PAGE>::new();
    assert_eq!(a.initialize(0x1001, 0x22), Ok(()));
    // start rounds up to 0x1008, its end rounds down from 0x102A to 0x1028
    assert_eq!(a.total_bytes(), 0x20);
    assert_eq!(a.alloc_bytes(8, 1), Ok(0x1008));
}

#[test]
fn byte_allocs_ascend() {
    let mut a = EarlyAllocator::<PAGE>::new();
    assert_eq!(a.initialize(0x1000, 0x100), Ok(()));
    // total 48 bytes requested, well within the 0x100 available
    let x = a.alloc_bytes(16, 1).unwrap();
    let y = a.alloc_bytes(8, 1).unwrap();
    let z = a.alloc_bytes(24, 1).unwrap();
    assert_eq!(x, 0x1000);
    assert_eq!(y, 0x1010);
    assert_eq!(z, 0x1018);
    assert!(x + 16 <= y && y + 8 <= z);
    assert_eq!(a.used_bytes(), 48);
}

#[test]
fn lifo_round_trip() {
    let mut a = EarlyAllocator::<PAGE>::new();
    assert_eq!(a.initialize(0x1000, 0x100), Ok(()));
    a.alloc_bytes(16, 1).unwrap();
    let used_before = a.used_bytes();
    let addr = a.alloc_bytes(32, 1).unwrap();
    a.free_bytes(addr, 32);
    assert_eq!(a.used_bytes(), used_before);
    // the low boundary is back where it was: the same address is served again
    assert_eq!(a.alloc_bytes(32, 1), Ok(addr));
}

#[test]
fn non_lifo_free_is_noop() {
    let mut a = EarlyAllocator::<PAGE>::new();
    assert_eq!(a.initialize(0x1000, 0x100), Ok(()));
    let x = a.alloc_bytes(16, 1).unwrap();
    let y = a.alloc_bytes(16, 1).unwrap();
    a.free_bytes(x, 16);  // not the most recent allocation
    assert_eq!(a.used_bytes(), 32);
    // the low boundary did not move either
    assert_eq!(a.alloc_bytes(8, 1), Ok(y + 16));
}

#[test]
fn alloc_bytes_inserts_no_padding() {
    let mut a = EarlyAllocator::<PAGE>::new();
    assert_eq!(a.initialize(0x1000, 0x100), Ok(()));
    assert_eq!(a.alloc_bytes(1, 1), Ok(0x1000));
    // a stricter alignment request is not honoured: the bump address comes as is
    assert_eq!(a.alloc_bytes(8, 8), Ok(0x1001));
}

#[test]
fn page_allocs_descend() {
    let mut a = EarlyAllocator::<PAGE>::new();
    assert_eq!(a.initialize(0x1000, 0x3000), Ok(()));
    let p1 = a.alloc_pages(1, PAGE).unwrap();
    let p2 = a.alloc_pages(1, PAGE).unwrap();
    assert_eq!(p1, 0x3000);
    assert_eq!(p2, 0x2000);
    assert!(p2 < p1);
    assert_eq!(p2 + PAGE, p1);  // adjacent, no gap
    assert_eq!(p1 % PAGE, 0);
    assert_eq!(p2 % PAGE, 0);
    assert_eq!(a.used_pages(), 2);
}

#[test]
fn free_pages_is_one_way() {
    let mut a = EarlyAllocator::<PAGE>::new();
    assert_eq!(a.initialize(0x1000, 0x3000), Ok(()));
    let p1 = a.alloc_pages(1, PAGE).unwrap();
    assert_eq!(p1, 0x3000);
    a.free_pages(p1, 1);
    assert_eq!(a.used_pages(), 0);
    // only the bookkeeping dropped: the accounting reports the bytes as
    // available again, but the high boundary was not restored, so the next
    // range is served below the first one
    assert_eq!(a.available_bytes(), 0x3000);
    assert_eq!(a.alloc_pages(1, PAGE), Ok(0x2000));
}

#[test]
fn extend_contiguous_grows() {
    let mut a = EarlyAllocator::<PAGE>::new();
    assert_eq!(a.initialize(0x1000, 0x1000), Ok(()));
    assert_eq!(a.total_bytes(), 0x1000);
    // the current high boundary is 0x2000; 0x1005 is trimmed to 0x1000
    assert_eq!(a.extend(0x2000, 0x1005), Ok(()));
    assert_eq!(a.total_bytes(), 0x2000);
    // the new space is on the page side
    assert_eq!(a.alloc_pages(1, PAGE), Ok(0x2000));
}

#[test]
fn extend_elsewhere_fails() {
    let mut a = EarlyAllocator::<PAGE>::new();
    assert_eq!(a.initialize(0x1000, 0x1000), Ok(()));
    assert_eq!(a.extend(0x5000, 0x1000), Err(AllocError::RegionOverlap));
    assert_eq!(a.total_bytes(), 0x1000);
    assert_eq!(a.available_bytes(), 0x1000);
}

#[test]
fn invalid_page_align_rejected() {
    let mut a = EarlyAllocator::<PAGE>::new();
    assert_eq!(a.initialize(0x1000, 0x3000), Ok(()));
    // not a multiple of the page size
    assert_eq!(a.alloc_pages(1, 0x800), Err(AllocError::InvalidParam));
    // a multiple, but the quotient 3 is no power of two
    assert_eq!(a.alloc_pages(1, 0x3000), Err(AllocError::InvalidParam));
    // a zero alignment has no power-of-two quotient either
    assert_eq!(a.alloc_pages(1, 0), Err(AllocError::InvalidParam));
    // every counter is unchanged
    assert_eq!(a.used_pages(), 0);
    assert_eq!(a.used_bytes(), 0);
    assert_eq!(a.total_bytes(), 0x3000);
    assert_eq!(a.available_bytes(), 0x3000);
    // a larger power-of-two multiple is fine
    assert_eq!(a.alloc_pages(1, 0x2000), Ok(0x3000));
}

#[test]
fn bytes_out_of_memory() {
    let mut a = EarlyAllocator::<PAGE>::new();
    assert_eq!(a.initialize(0x1000, 0x100), Ok(()));
    assert_eq!(a.alloc_bytes(0x101, 1), Err(AllocError::OutOfMemory));
    assert_eq!(a.used_bytes(), 0);
    // the whole region is still there
    assert_eq!(a.alloc_bytes(0x100, 1), Ok(0x1000));
}

#[test]
fn pages_out_of_memory() {
    let mut a = EarlyAllocator::<PAGE>::new();
    assert_eq!(a.initialize(0x1000, 0x2000), Ok(()));
    assert_eq!(a.alloc_pages(3, PAGE), Err(AllocError::OutOfMemory));
    assert_eq!(a.used_pages(), 0);
    assert_eq!(a.alloc_pages(2, PAGE), Ok(0x1000));
}

#[test]
fn pages_respect_byte_side() {
    let mut a = EarlyAllocator::<PAGE>::new();
    assert_eq!(a.initialize(0x1000, 0x2000), Ok(()));
    a.alloc_bytes(1, 1).unwrap();
    // two pages would now cross the low boundary
    assert_eq!(a.alloc_pages(2, PAGE), Err(AllocError::OutOfMemory));
    assert_eq!(a.alloc_pages(1, PAGE), Ok(0x2000));
}

#[test]
fn accounting_formulas() {
    let mut a = EarlyAllocator::<PAGE>::new();
    assert_eq!(a.initialize(0, 0x5000), Ok(()));
    a.alloc_bytes(0x10, 1).unwrap();
    a.alloc_pages(2, PAGE).unwrap();
    assert_eq!(a.total_bytes(), 0x5000);
    assert_eq!(a.used_bytes(), 0x10);
    assert_eq!(a.available_bytes(), 0x5000 - 0x10 - 0x2000);
    assert_eq!(a.total_pages(), 5);
    assert_eq!(a.used_pages(), 2);
    assert_eq!(a.available_pages(), (0x5000 - 0x10 - 0x2000) / PAGE);
    assert_eq!(a.available_pages(), 2);
}

#[test]
fn zero_sized_requests() {
    let mut a = EarlyAllocator::<PAGE>::new();
    assert_eq!(a.initialize(0x1000, 0x1000), Ok(()));
    assert_eq!(a.alloc_bytes(0, 1), Ok(0x1000));
    assert_eq!(a.used_bytes(), 0);
    assert_eq!(a.alloc_pages(0, PAGE), Ok(0x2000));
    assert_eq!(a.used_pages(), 0);
}
