use naturalneighbor3d::perf::memory::{
    align_slice, align_slice_from_address, push_growth, reserve_growth, AlignedVec,
};
use naturalneighbor3d::perf::parallel::{parallel_chunk_size, should_parallelize, MIN_CHUNK_SIZE};
use naturalneighbor3d::perf::{DEFAULT_PARALLEL_THRESHOLD, MEMORY_ALIGNMENT};

#[test]
fn test_aligned_vec_basic_operations() {
    let mut vec = AlignedVec::<i32>::new_cache_aligned();
    assert!(vec.is_empty());

    vec.push(1);
    vec.push(2);
    vec.push(3);

    assert_eq!(vec.len(), 3);
    assert_eq!(vec.as_slice(), &[1, 2, 3]);
}

#[test]
fn test_aligned_vec_reserve() {
    let mut vec = AlignedVec::<i32>::new_cache_aligned();
    vec.reserve(100);

    for i in 0..50 {
        vec.push(i);
    }

    assert_eq!(vec.len(), 50);
}

#[test]
fn aligned_vec_keeps_order_across_growth() {
    let mut vec = AlignedVec::<u64>::new(16);
    for i in 0..20u64 {
        vec.push(i * 3);
    }
    let expected: Vec<u64> = (0..20u64).map(|i| i * 3).collect();
    assert_eq!(vec.as_slice(), expected.as_slice());
    assert!(!vec.is_empty());
}

#[test]
fn aligned_vec_mutable_slice_writes_through() {
    let mut vec = AlignedVec::<i32>::new(8);
    vec.push(1);
    vec.push(2);
    vec.as_mut_slice()[1] = 20;
    assert_eq!(vec.as_slice(), &[1, 20]);
    assert_eq!(vec.len(), 2);
}

#[test]
fn aligned_vec_reserve_keeps_elements() {
    let mut vec = AlignedVec::<i32>::new(MEMORY_ALIGNMENT);
    vec.push(7);
    vec.reserve(3);
    vec.reserve(1000);
    assert_eq!(vec.as_slice(), &[7]);
}

#[test]
fn test_align_slice() {
    let data = vec![1, 2, 3, 4, 5, 6, 7, 8];
    let aligned = align_slice(&data, 8);
    assert!(!aligned.is_empty());
}

#[test]
fn align_slice_drops_less_than_one_alignment_unit() {
    let data: Vec<u32> = (0..64).collect();
    let aligned = align_slice(&data, 64);
    let dropped = data.len() - aligned.len();
    assert!(dropped * 4 < 64);
    assert_eq!(aligned, &data[dropped..]);
}

#[test]
fn align_slice_from_address_skips_to_boundary() {
    let data: Vec<u32> = (0..10).collect();
    // Storage at address 100 with 4-byte elements: the next 16-byte boundary
    // is 112, three elements in.
    assert_eq!(align_slice_from_address(&data, 100, 16), &data[3..]);
    // Already on a boundary: nothing is dropped.
    assert_eq!(align_slice_from_address(&data, 96, 16), &data[..]);
    // The boundary lies past the end of a short slice.
    assert!(align_slice_from_address(&data[..2], 100, 16).is_empty());
    // A boundary beyond the address space.
    assert!(align_slice_from_address(&data, usize::MAX - 2, 16).is_empty());
}

#[test]
fn test_should_parallelize() {
    assert!(!should_parallelize(500, Some(1000)));
    assert!(should_parallelize(1500, Some(1000)));
    assert!(!should_parallelize(500, None));
}

#[test]
fn should_parallelize_at_threshold() {
    assert!(should_parallelize(1000, Some(1000)));
    assert!(should_parallelize(DEFAULT_PARALLEL_THRESHOLD, None));
    assert!(!should_parallelize(DEFAULT_PARALLEL_THRESHOLD - 1, None));
}

#[test]
fn test_parallel_chunk_size() {
    assert_eq!(parallel_chunk_size(1000, 4), 250);
    assert_eq!(parallel_chunk_size(100, 4), 100); // min chunk size
    // Whatever the number of threads the machine offers, the size is positive.
    for threads in 1..=64 {
        assert!(parallel_chunk_size(1000, threads) > 0);
    }
}

#[test]
fn parallel_chunk_size_rounds_up() {
    assert_eq!(parallel_chunk_size(1001, 4), 251);
    assert_eq!(parallel_chunk_size(0, 3), MIN_CHUNK_SIZE);
    assert_eq!(parallel_chunk_size(usize::MAX, 1), usize::MAX);
}

#[test]
fn aligned_vec_call_checks() {
    let mut vec = AlignedVec::<i32>::new(8);
    assert!(vec.can_push());
    assert!(vec.can_reserve(10));
    assert!(!vec.can_reserve(usize::MAX));
    vec.push(1);
    // One element plus usize::MAX - 1 more fits in a usize, but its next
    // power of two does not.
    assert!(!vec.can_reserve(usize::MAX - 1));
    assert!(vec.can_reserve(3));
    for i in 0..3 {
        vec.push(i);
    }
    assert!(vec.can_push());
}

#[test]
fn align_slice_keeps_elements_of_a_large_enough_slice() {
    let data: Vec<u64> = (0..16).collect();
    for alignment in [1usize, 2, 4, 8, 16, 32, 64, 128] {
        let aligned = align_slice(&data, alignment);
        assert!(!aligned.is_empty());
        assert_eq!(aligned, &data[data.len() - aligned.len()..]);
        assert!((data.len() - aligned.len()) * 8 < alignment);
    }
}

#[test]
fn growth_decisions() {
    assert_eq!(push_growth(0), 4);
    assert_eq!(push_growth(4), 8);
    assert_eq!(push_growth(64), 128);
    assert_eq!(reserve_growth(3, 4, 1), None);
    assert_eq!(reserve_growth(3, 4, 2), Some(8));
    assert_eq!(reserve_growth(0, 0, 0), None);
    assert_eq!(reserve_growth(0, 0, 1000), Some(1024));
    assert_eq!(reserve_growth(1, 1, 1023), Some(1024));
}
