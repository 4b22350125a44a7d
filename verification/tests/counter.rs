//! Tests for the allocation counter's bookkeeping.

use membench::allocator::{
    get_allocated, get_max_allocated, peak_kib, reset_allocator, Counter,
};

#[test]
fn fresh_counter_is_zero() {
    let c = Counter::new();
    assert_eq!(get_allocated(&c), 0);
    assert_eq!(get_max_allocated(&c), 0);
}

#[test]
fn allocate_raises_current_and_peak() {
    let mut c = Counter::new();
    c.allocate(100);
    assert_eq!(get_allocated(&c), 100);
    assert_eq!(get_max_allocated(&c), 100);
    c.allocate(50);
    assert_eq!(get_allocated(&c), 150);
    assert_eq!(get_max_allocated(&c), 150);
}

#[test]
fn deallocate_lowers_current_keeps_peak() {
    let mut c = Counter::new();
    c.allocate(100);
    c.deallocate(60);
    assert_eq!(get_allocated(&c), 40);
    assert_eq!(get_max_allocated(&c), 100);
}

#[test]
fn peak_tracks_high_water_mark() {
    let mut c = Counter::new();
    c.allocate(80);
    c.deallocate(80);
    c.allocate(30);
    assert_eq!(get_allocated(&c), 30);
    assert_eq!(get_max_allocated(&c), 80);
}

#[test]
fn peak_dominates_current_at_every_step() {
    let mut c = Counter::new();
    let sizes: [usize; 5] = [10, 25, 5, 40, 1];
    for s in sizes {
        c.allocate(s);
        assert!(get_max_allocated(&c) >= get_allocated(&c));
    }
    for s in sizes {
        c.deallocate(s);
        assert!(get_max_allocated(&c) >= get_allocated(&c));
    }
}

#[test]
fn reset_when_idle_reads_zero() {
    let mut c = Counter::new();
    c.allocate(200);
    c.deallocate(200);
    assert_eq!(get_allocated(&c), 0);
    reset_allocator(&mut c);
    assert_eq!(get_max_allocated(&c), 0);
    assert_eq!(get_allocated(&c), 0);
}

#[test]
fn reset_keeps_live_count() {
    let mut c = Counter::new();
    c.allocate(75);
    reset_allocator(&mut c);
    assert_eq!(get_allocated(&c), 75);
    assert_eq!(get_max_allocated(&c), 0);
    c.allocate(1);
    assert_eq!(get_max_allocated(&c), 76);
}

#[test]
fn bulk_allocations_all_freed() {
    let threads = 4usize;
    let per_thread = 8usize;
    let size = 16usize;
    let mut c = Counter::new();
    reset_allocator(&mut c);
    for _ in 0..threads * per_thread {
        c.allocate(size);
    }
    for _ in 0..threads * per_thread {
        c.deallocate(size);
    }
    assert_eq!(get_allocated(&c), 0);
    assert_eq!(get_max_allocated(&c), threads * per_thread * size);
    assert!(get_max_allocated(&c) >= size);
}

#[test]
fn peak_kib_truncates() {
    assert_eq!(peak_kib(0), 0);
    assert_eq!(peak_kib(1023), 0);
    assert_eq!(peak_kib(1024), 1);
    assert_eq!(peak_kib(10 * 1024 + 512), 10);
}
