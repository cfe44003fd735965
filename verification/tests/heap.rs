use core::mem::MaybeUninit;
use esp8266_wifi::heap::{
    __wifi_queue_create, block_size, calloc, empty_compat_heap, free, header_address,
    init_compat_heap, malloc, place_payload, realloc_plan, realloc_resize, request_fits, zalloc,
    ReallocPlan, BLOCK_ALIGN, COMPAT_HEAP_SIZE, HEADER_SIZE,
};
use linked_list_allocator::Heap;

fn heap_of(bytes: usize) -> Heap {
    let mem: &'static mut [MaybeUninit<u8>] =
        Box::leak(vec![MaybeUninit::new(0u8); bytes].into_boxed_slice());
    Heap::from_slice(mem)
}

#[test]
fn malloc_zero_is_null() {
    let mut heap = heap_of(1024);
    assert_eq!(malloc(&mut heap, 0), None);
}

#[test]
fn malloc_gives_aligned_payload_past_header() {
    let mut heap = heap_of(1024);
    let p = malloc(&mut heap, 16).expect("block");
    assert!(p >= HEADER_SIZE);
    assert_eq!((p - HEADER_SIZE) % BLOCK_ALIGN, 0);
    assert_eq!(heap.used() >= block_size(16), true);
}

#[test]
fn malloc_on_empty_heap_is_null() {
    let mut heap = Heap::empty();
    assert_eq!(malloc(&mut heap, 16), None);
}

#[test]
fn malloc_runs_out() {
    let mut heap = heap_of(256);
    let mut blocks = 0;
    while malloc(&mut heap, 32).is_some() {
        blocks += 1;
        assert!(blocks < 100);
    }
    assert!(blocks >= 1);
    assert_eq!(malloc(&mut heap, 32), None);
}

#[test]
fn malloc_blocks_do_not_overlap() {
    let mut heap = heap_of(1024);
    let a = malloc(&mut heap, 20).unwrap();
    let b = malloc(&mut heap, 20).unwrap();
    assert!(a + 20 <= b - HEADER_SIZE || b + 20 <= a - HEADER_SIZE);
}

#[test]
fn block_size_adds_header() {
    assert_eq!(block_size(10), 18);
    assert_eq!(block_size(0), 8);
}

#[test]
fn free_null_does_nothing() {
    assert_eq!(free(0), None);
}

#[test]
fn free_finds_block_start() {
    let mut heap = heap_of(1024);
    let p = malloc(&mut heap, 40).unwrap();
    assert_eq!(free(p), Some(p - 8));
    assert_eq!(free(64), Some(56));
    assert_eq!(header_address(p), p - 8);
}

#[test]
fn calloc_reports_zeroed_length() {
    let mut heap = heap_of(1024);
    let (p, len) = calloc(&mut heap, 3, 5).unwrap();
    assert_eq!(len, 15);
    assert!(p >= HEADER_SIZE);
    assert_eq!(calloc(&mut heap, 0, 5), None);
    assert_eq!(calloc(&mut heap, 5, 0), None);
}

#[test]
fn zalloc_is_calloc_of_one() {
    let mut heap = heap_of(1024);
    let (_, len) = zalloc(&mut heap, 24).unwrap();
    assert_eq!(len, 24);
    assert_eq!(zalloc(&mut heap, 0), None);
}

#[test]
fn realloc_plans() {
    assert!(matches!(realloc_plan(0, 10), ReallocPlan::Allocate));
    assert!(matches!(realloc_plan(0, 0), ReallocPlan::Allocate));
    assert!(matches!(realloc_plan(64, 0), ReallocPlan::Release));
    assert!(matches!(realloc_plan(64, 10), ReallocPlan::Resize));
}

#[test]
fn realloc_resize_copies_smaller_size() {
    let mut heap = heap_of(1024);
    let grow = realloc_resize(&mut heap, 32, 10).unwrap();
    assert_eq!(grow.copy_len, 10);
    let shrink = realloc_resize(&mut heap, 4, 10).unwrap();
    assert_eq!(shrink.copy_len, 4);
    assert!(grow.new_ptr != shrink.new_ptr);
}

#[test]
fn realloc_resize_fails_without_room() {
    let mut heap = heap_of(64);
    assert!(realloc_resize(&mut heap, 4096, 10).is_none());
}

#[test]
fn queue_storage_is_allocated() {
    let mut heap = heap_of(1024);
    let (p, size) = __wifi_queue_create(&mut heap, 4, 8).unwrap();
    assert_eq!(size, 40);
    assert!(p >= HEADER_SIZE);
    assert!(heap.used() >= block_size(4 * 8 + 8));
}

#[test]
fn payload_lies_in_heap_memory() {
    let mut heap = heap_of(512);
    let p = malloc(&mut heap, 24).unwrap();
    let bottom = heap.bottom() as usize;
    let top = heap.top() as usize;
    assert!(bottom <= p - HEADER_SIZE);
    assert!(p + 24 <= top);
}

#[test]
fn place_payload_skips_header() {
    assert_eq!(place_payload(Some(16)), Some(24));
    assert_eq!(place_payload(None), None);
}

fn compat_heap() -> Heap {
    let mut heap = empty_compat_heap();
    let mem: &'static mut [MaybeUninit<u8>] =
        Box::leak(vec![MaybeUninit::new(0u8); COMPAT_HEAP_SIZE].into_boxed_slice());
    assert!(init_compat_heap(&mut heap, mem));
    heap
}

#[test]
fn malloc_zero_leaves_heap_unchanged() {
    let mut heap = heap_of(1024);
    let used = heap.used();
    assert_eq!(malloc(&mut heap, 0), None);
    assert_eq!(heap.used(), used);
}

#[test]
fn uninitialised_heap_answers_null() {
    let mut heap = empty_compat_heap();
    for size in [1usize, 8, 100, 16384] {
        assert_eq!(malloc(&mut heap, size), None);
    }
    assert_eq!(calloc(&mut heap, 2, 4), None);
}

#[test]
fn init_compat_heap_only_once() {
    let mut heap = compat_heap();
    let mem: &'static mut [MaybeUninit<u8>] =
        Box::leak(vec![MaybeUninit::new(0u8); 64].into_boxed_slice());
    assert!(!init_compat_heap(&mut heap, mem));
    assert!(heap.size() >= COMPAT_HEAP_SIZE - 8);
}

#[test]
fn fresh_heap_serves_large_request() {
    let mut heap = compat_heap();
    let p = malloc(&mut heap, 16256).expect("fits a fresh heap");
    assert_eq!(p % 8, 0);
    assert!(p - HEADER_SIZE >= heap.bottom() as usize);
    assert!(p + 16256 <= heap.top() as usize);
}

#[test]
fn fresh_heap_refuses_request_larger_than_region() {
    let mut heap = compat_heap();
    let used = heap.used();
    assert_eq!(malloc(&mut heap, 16377), None);
    assert_eq!(heap.used(), used);
}

#[test]
fn oversized_request_is_null_not_panic() {
    let mut heap = compat_heap();
    assert_eq!(malloc(&mut heap, usize::MAX), None);
    assert_eq!(malloc(&mut heap, isize::MAX as usize), None);
    assert!(!request_fits(usize::MAX));
    assert!(request_fits(100));
}

#[test]
fn two_small_blocks_on_fresh_heap() {
    let mut heap = compat_heap();
    let p = malloc(&mut heap, 8).unwrap();
    let q = malloc(&mut heap, 8).unwrap();
    assert_eq!(p % 8, 0);
    assert_eq!(q % 8, 0);
    assert!(q >= p + 16 || p >= q + 16);
}

#[test]
fn calloc_overflow_is_null() {
    let mut heap = compat_heap();
    let used = heap.used();
    assert_eq!(calloc(&mut heap, usize::MAX, 2), None);
    assert_eq!(heap.used(), used);
}

#[test]
fn queue_too_large_for_heap_is_null() {
    let mut heap = compat_heap();
    let used = heap.used();
    assert_eq!(__wifi_queue_create(&mut heap, 65536, 65535), None);
    assert_eq!(heap.used(), used);
}

#[test]
fn failed_resize_leaves_heap() {
    let mut heap = compat_heap();
    let used = heap.used();
    assert!(realloc_resize(&mut heap, 20000, 10).is_none());
    assert_eq!(heap.used(), used);
}
