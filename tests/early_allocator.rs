use bump_allocator::align::{align_down, align_up};
use bump_allocator::{AllocError, EarlyAllocator};

const PAGE: usize = 0x1000;

fn fresh(start: usize, size: usize) -> EarlyAllocator<PAGE> {
    let mut a = EarlyAllocator::<PAGE>::new();
    a.init(start, size);
    a
}

#[test]
fn align_up_rounds_to_next_multiple() {
    assert_eq!(align_up(0, 8), 0);
    assert_eq!(align_up(1, 8), 8);
    assert_eq!(align_up(8, 8), 8);
    assert_eq!(align_up(9, 8), 16);
    assert_eq!(align_up(0x1001, 0x1000), 0x2000);
    assert_eq!(align_up(5, 1), 5);
}

#[test]
fn align_down_rounds_to_previous_multiple() {
    assert_eq!(align_down(0, 8), 0);
    assert_eq!(align_down(7, 8), 0);
    assert_eq!(align_down(8, 8), 8);
    assert_eq!(align_down(0x2fff, 0x1000), 0x2000);
    assert_eq!(align_down(usize::MAX, 0x1000), usize::MAX - 0xfff);
}

#[test]
fn new_allocator_is_empty() {
    let a = EarlyAllocator::<PAGE>::new();
    assert_eq!(a.total_bytes(), 0);
    assert_eq!(a.used_bytes(), 0);
    assert_eq!(a.available_bytes(), 0);
    assert_eq!(a.total_pages(), 0);
}

#[test]
fn init_leaves_everything_available() {
    let a = fresh(0x8000, 0x5000);
    assert_eq!(a.used_bytes(), 0);
    assert_eq!(a.used_pages(), 0);
    assert_eq!(a.available_bytes(), 0x5000);
    assert_eq!(a.total_bytes(), 0x5000);
    assert_eq!(a.total_pages(), 5);
    assert_eq!(a.available_pages(), 5);
}

#[test]
fn byte_allocations_move_forward() {
    let mut a = fresh(0x1000, 0x1000);
    assert_eq!(a.alloc_bytes(3, 1), Ok(0x1000));
    assert_eq!(a.used_bytes(), 3);
    assert_eq!(a.alloc_bytes(8, 8), Ok(0x1008));
    assert_eq!(a.used_bytes(), 0x10);
    assert_eq!(a.alloc_bytes(0, 16), Ok(0x1010));
    assert_eq!(a.used_bytes(), 0x10);
    assert_eq!(a.available_bytes(), 0x1000 - 0x10);
}

#[test]
fn byte_cursor_never_decreases_nor_passes_page_cursor() {
    let mut a = fresh(0x10000, 0x400);
    let mut last = a.used_bytes();
    let sizes = [1usize, 7, 0, 64, 300, 100, 5, 1000, 2, 3];
    let aligns = [1usize, 4, 8, 16, 2, 64, 1, 8, 32, 4];
    for k in 0..sizes.len() {
        let _ = a.alloc_bytes(sizes[k], aligns[k]);
        let used = a.used_bytes();
        assert!(used >= last);
        assert!(used <= a.total_bytes());
        assert_eq!(used + a.available_bytes(), a.total_bytes());
        last = used;
    }
}

#[test]
fn bulk_free_after_all_deallocated() {
    let mut a = fresh(0x4000, 0x2000);
    let first = a.alloc_bytes(16, 8).unwrap();
    let second = a.alloc_bytes(32, 16).unwrap();
    assert_eq!(first, 0x4000);
    assert_eq!(second, 0x4010);
    a.dealloc(first, 16, 8);
    assert_eq!(a.used_bytes(), 0x30);
    a.dealloc(second, 32, 16);
    assert_eq!(a.used_bytes(), 0);
    assert_eq!(a.alloc_bytes(16, 8), Ok(0x4000));
}

#[test]
fn page_allocations_move_backward_without_overlap() {
    let mut a = fresh(0x10000, 0x8000);
    let p1 = a.alloc_pages(2, PAGE).unwrap();
    assert_eq!(p1, 0x16000);
    assert_eq!(a.used_pages(), 2);
    let p2 = a.alloc_pages(3, PAGE).unwrap();
    assert_eq!(p2, 0x13000);
    assert!(p2 + 3 * PAGE <= p1);
    assert_eq!(a.used_pages(), 5);
    assert_eq!(a.available_pages(), 3);
}

#[test]
fn page_allocation_rounds_down_to_page_boundary() {
    let mut a = fresh(0x1000, 0x2800);
    assert_eq!(a.alloc_pages(1, PAGE), Ok(0x2000));
    assert_eq!(a.used_pages(), 1);
    // The next run would begin at the byte cursor itself.
    assert_eq!(a.alloc_pages(1, PAGE), Err(AllocError::NoMemory));
    assert_eq!(a.used_pages(), 1);
}

#[test]
fn exhaustion_of_an_eight_kib_region() {
    let mut a = fresh(0x1000, 0x2000);
    // Two pages would begin exactly at the byte cursor, which is refused.
    assert_eq!(a.alloc_pages(2, 0x1000), Err(AllocError::NoMemory));
    assert_eq!(a.used_pages(), 0);
    assert_eq!(a.alloc_pages(1, 0x1000), Ok(0x2000));
    assert_eq!(a.alloc_bytes(0x1000, 1), Ok(0x1000));
    assert_eq!(a.available_bytes(), 0);
    assert_eq!(a.alloc_bytes(1, 1), Err(AllocError::NoMemory));
    assert_eq!(a.used_bytes(), 0x1000);
}

#[test]
fn failed_byte_allocation_changes_nothing() {
    let mut a = fresh(0x1000, 0x100);
    assert_eq!(a.alloc_bytes(0x101, 1), Err(AllocError::NoMemory));
    assert_eq!(a.used_bytes(), 0);
    assert_eq!(a.alloc_bytes(0x100, 1), Ok(0x1000));
    assert_eq!(a.available_bytes(), 0);
}

#[test]
fn byte_allocation_near_the_top_of_the_address_space() {
    let mut a = fresh(usize::MAX - 10, 10);
    assert_eq!(a.alloc_bytes(1, 1), Ok(usize::MAX - 10));
    assert_eq!(a.alloc_bytes(1, 0x1000), Err(AllocError::NoMemory));
    assert_eq!(a.used_bytes(), 1);
}

#[test]
fn page_allocation_with_huge_count() {
    let mut a = fresh(0x1000, 0x4000);
    assert_eq!(a.alloc_pages(usize::MAX, PAGE), Err(AllocError::NoMemory));
    assert_eq!(a.alloc_pages(4, PAGE), Err(AllocError::NoMemory));
    assert_eq!(a.alloc_pages(3, 2 * PAGE), Ok(0x2000));
}

#[test]
fn add_memory_and_dealloc_pages_are_unimplemented() {
    let mut a = fresh(0x1000, 0x4000);
    let p = a.alloc_pages(1, PAGE).unwrap();
    assert_eq!(a.add_memory(0x9000, 0x1000), Err(AllocError::Unimplemented));
    assert_eq!(a.add_memory(0, 0), Err(AllocError::Unimplemented));
    assert_eq!(a.dealloc_pages(p, 1), Err(AllocError::Unimplemented));
    assert_eq!(a.dealloc_pages(0, 0), Err(AllocError::Unimplemented));
    assert_eq!(a.used_pages(), 1);
    assert_eq!(a.total_bytes(), 0x4000);
}

#[test]
fn interleaved_requests_keep_cursors_ordered() {
    let mut a = fresh(0x20000, 0x6000);
    let mut live: usize = 0;
    let mut seed: u64 = 0x2545_f491_4f6c_dd1d;
    for _ in 0..500 {
        seed ^= seed << 13;
        seed ^= seed >> 7;
        seed ^= seed << 17;
        match seed % 4 {
            0 | 1 => {
                let size = (seed >> 8) as usize % 0x300;
                let align = 1usize << ((seed >> 20) % 7);
                if a.alloc_bytes(size, align).is_ok() {
                    live += 1;
                }
            }
            2 => {
                if live > 0 {
                    a.dealloc(0, 0, 1);
                    live -= 1;
                    if live == 0 {
                        assert_eq!(a.used_bytes(), 0);
                    }
                }
            }
            _ => {
                let _ = a.alloc_pages(1 + (seed >> 32) as usize % 2, PAGE);
            }
        }
        let page_used = a.used_pages() * PAGE;
        assert_eq!(a.used_bytes() + a.available_bytes() + page_used, a.total_bytes());
        assert!(a.available_pages() <= a.total_pages());
    }
}
