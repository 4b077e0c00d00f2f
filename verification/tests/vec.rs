use alloc_checked::allocator::{AllocError, Allocator, Global, TryReserveError};
use alloc_checked::claim::Claim;
use alloc_checked::try_clone::TryClone;
use alloc_checked::vec::Vec;
use std::cell::Cell;
use std::mem::size_of;
use std::rc::Rc;

/// Grants requests until the bytes in use would pass the watermark.
#[derive(Clone)]
struct WatermarkAllocator {
    watermark: usize,
    in_use: Rc<Cell<usize>>,
}

impl WatermarkAllocator {
    fn new(watermark: usize) -> Self {
        Self { watermark, in_use: Rc::new(Cell::new(0)) }
    }

    fn in_use(&self) -> usize {
        self.in_use.get()
    }
}

impl Claim for WatermarkAllocator {}

impl Allocator for WatermarkAllocator {
    fn allocate(&self, size: usize, _align: usize) -> Result<(), AllocError> {
        let new_in_use = self.in_use.get() + size;
        if new_in_use > self.watermark {
            return Err(AllocError);
        }
        self.in_use.set(new_in_use);
        Ok(())
    }

    fn deallocate(&self, size: usize, _align: usize) {
        self.in_use.set(self.in_use.get() - size);
    }
}

#[test]
fn test_basics() {
    let wma = WatermarkAllocator::new(32);
    let mut vec = Vec::new_in(wma.clone());
    assert_eq!(vec.len(), 0);
    assert_eq!(vec.capacity(), 0);
    assert!(vec.is_empty());
    vec.push(1).unwrap();
    assert_eq!(vec.len(), 1);
    assert!(!vec.is_empty());
    vec.push(2).unwrap();
    vec.push(3).unwrap();
    vec.push(4).unwrap();
    assert_eq!(vec.len(), 4);
    assert_eq!(vec.capacity(), 4);
    assert_eq!(wma.in_use(), vec.capacity() * size_of::<i32>());
    assert_eq!(vec.allocator().in_use(), vec.capacity() * size_of::<i32>());
    let _err: TryReserveError = vec.push(5).unwrap_err();
    assert_eq!(vec.as_slice(), &[1, 2, 3, 4]);
    assert_eq!(vec.len(), 4);
    vec.clear();
    assert_eq!(vec.len(), 0);
    assert!(vec.is_empty());
    assert_eq!(vec.capacity(), 4);
}

#[test]
fn test_with_capacity_in() {
    let wma = WatermarkAllocator::new(32);
    let vec: Vec<usize, _> = Vec::with_capacity_in(4, wma.clone()).ok().unwrap();
    assert_eq!(vec.len(), 0);
    assert_eq!(vec.as_slice(), &[]);
    assert_eq!(vec.capacity(), 4);
    assert_eq!(wma.in_use(), 4 * size_of::<usize>());

    let _err: TryReserveError = Vec::<i8, _>::with_capacity_in(5, wma).err().unwrap();
}

#[test]
fn test_reserve() {
    let wma = WatermarkAllocator::new(32);
    let mut vec: Vec<bool, _> = Vec::new_in(wma);
    vec.reserve(32).unwrap();
    assert_eq!(vec.capacity(), 32);

    let _err: TryReserveError = vec.reserve(33).unwrap_err();
}

/// A type that implements `Clone` and `Claim`, but not `Copy`.
#[derive(Clone, Eq, PartialEq)]
struct Claimable(i32);

impl Claim for Claimable {}

#[test]
fn test_extend_from_slice_clone() {
    let wma = WatermarkAllocator::new(32);
    let mut vec = Vec::new_in(wma);
    vec.extend_from_slice(&[Claimable(1), Claimable(2), Claimable(3), Claimable(4)])
        .unwrap();
}

#[test]
fn test_extend_from_slice_copy() {
    let wma = WatermarkAllocator::new(32);
    let mut vec = Vec::new_in(wma);
    vec.extend_from_slice(&[1, 2, 3, 4]).unwrap();
    assert_eq!(vec.as_slice(), &[1, 2, 3, 4]);

    let _err: TryReserveError = vec.extend_from_slice(&[5, 6]).unwrap_err();

    vec.extend_from_slice(&[]).unwrap();
}

struct MyIter {
    counter: usize,
    min_size_hint: usize,
}

impl MyIter {
    fn new(min_size_hint: usize) -> Self {
        Self { counter: 0, min_size_hint }
    }
}

impl Iterator for MyIter {
    type Item = usize;

    fn next(&mut self) -> Option<Self::Item> {
        if self.counter >= 10 {
            return None;
        }
        self.counter += 1;
        Some(self.counter - 1)
    }

    // The lower bound is whatever the test asks for, true or not.
    fn size_hint(&self) -> (usize, Option<usize>) {
        (self.min_size_hint, None)
    }
}

#[test]
fn test_extend() {
    // A lower bound under the truth: some slots reserved at once, the rest one by one.
    let wma = WatermarkAllocator::new(32 * size_of::<usize>());
    {
        let mut vec = Vec::new_in(wma.clone());
        vec.extend(MyIter::new(5)).unwrap();
        assert_eq!(vec.as_slice(), &[0, 1, 2, 3, 4, 5, 6, 7, 8, 9]);
    }
    assert_eq!(wma.in_use(), 0);

    // An exact lower bound.
    {
        let mut vec = Vec::new_in(wma.clone());
        vec.extend(MyIter::new(10)).unwrap();
        assert_eq!(vec.as_slice(), &[0, 1, 2, 3, 4, 5, 6, 7, 8, 9]);
    }
    assert_eq!(wma.in_use(), 0);

    // A lower bound over the truth.
    {
        let mut vec = Vec::new_in(wma.clone());
        vec.extend(MyIter::new(20)).unwrap();
        assert_eq!(vec.as_slice(), &[0, 1, 2, 3, 4, 5, 6, 7, 8, 9]);
    }
    assert_eq!(wma.in_use(), 0);

    // No lower bound: every slot is reserved as it is needed.
    {
        let mut vec = Vec::new_in(wma.clone());
        vec.extend(MyIter::new(0)).unwrap();
        assert_eq!(vec.as_slice(), &[0, 1, 2, 3, 4, 5, 6, 7, 8, 9]);
    }
    assert_eq!(wma.in_use(), 0);
}

#[test]
fn test_truncate() {
    let wma = WatermarkAllocator::new(32);
    let mut vec = Vec::new_in(wma);
    vec.push(1).unwrap();
    vec.push(2).unwrap();
    vec.push(3).unwrap();
    vec.push(4).unwrap();
    vec.truncate(2);
    assert_eq!(vec.as_slice(), &[1, 2]);
    vec.truncate(0);
    let empty: &[i32] = &[];
    assert_eq!(vec.as_slice(), empty);
}

#[test]
fn test_extend_with() {
    let wma = WatermarkAllocator::new(32);
    let mut vec = Vec::new_in(wma);
    vec.extend_with(3, 1).unwrap();
    assert_eq!(vec.as_slice(), &[1, 1, 1]);
}

#[test]
fn test_resize() {
    let wma = WatermarkAllocator::new(64);
    let mut vec = Vec::new_in(wma);
    vec.resize(3, 1).unwrap();
    assert_eq!(vec.as_slice(), &[1, 1, 1]);
    vec.resize(5, 2).unwrap();
    assert_eq!(vec.as_slice(), &[1, 1, 1, 2, 2]);
    vec.resize(2, 3).unwrap();
    assert_eq!(vec.as_slice(), &[1, 1]);
}

#[test]
fn test_resize_with() {
    let wma = WatermarkAllocator::new(64);
    let mut vec = Vec::new_in(wma);
    vec.resize_with(3, || 1).unwrap();
    assert_eq!(vec.as_slice(), &[1, 1, 1]);
    vec.resize_with(5, || 2).unwrap();
    assert_eq!(vec.as_slice(), &[1, 1, 1, 2, 2]);
    vec.resize_with(2, || 3).unwrap();
    assert_eq!(vec.as_slice(), &[1, 1]);
}

#[test]
fn vec_test_try_clone() {
    let wma = WatermarkAllocator::new(64);
    let mut vec1 = Vec::new_in(wma.clone());
    vec1.extend([1usize, 2, 3, 4, 5, 6, 7, 8].into_iter()).unwrap();
    assert_eq!(vec1.len(), 8);
    assert_eq!(vec1.capacity(), 8);
    assert_eq!(wma.in_use(), 64);
    assert!(vec1.try_clone().is_err());
}

#[test]
fn global_never_refuses() {
    let mut vec = Vec::new_in(Global);
    for i in 0..1000u32 {
        vec.push(i).unwrap();
    }
    assert_eq!(vec.len(), 1000);
    assert_eq!(vec.capacity(), 1024);
}

#[derive(PartialEq, Debug)]
struct IntWrapper(pub i32);

impl PartialEq<i32> for IntWrapper {
    fn eq(&self, other: &i32) -> bool {
        self.0 == *other
    }
}

impl PartialEq<IntWrapper> for i32 {
    fn eq(&self, other: &IntWrapper) -> bool {
        self == &other.0
    }
}

fn w(i: i32) -> IntWrapper {
    IntWrapper(i)
}

#[test]
fn test_eq() {
    let wma = WatermarkAllocator::new(64);

    // An array and an array with another allocator.
    {
        let mut lhs = Vec::new_in(wma.clone());
        let mut rhs = Vec::new_in(Global);

        lhs.extend(vec![1, 2, 3].into_iter()).unwrap();
        rhs.extend(vec![w(1), w(2), w(3)].into_iter()).unwrap();
        assert!(lhs == rhs);
        assert!(rhs == lhs);

        rhs.push(w(4)).unwrap();
        assert!(lhs != rhs);
        assert!(rhs != lhs);
    }

    // An array and a slice.
    {
        let mut lhs = Vec::new_in(wma.clone());
        lhs.extend(vec![1, 2, 3].into_iter()).unwrap();
        let rhs: &[IntWrapper] = &[w(1), w(2), w(3)];
        assert!(lhs == rhs);
        assert!(rhs == lhs);

        let rhs2: &[IntWrapper] = &[w(1), w(2), w(3), w(4)];
        assert!(lhs != rhs2);
        assert!(rhs2 != lhs);
    }

    // An array and a mutable slice.
    {
        let mut lhs = Vec::new_in(wma.clone());
        lhs.extend(vec![1, 2, 3].into_iter()).unwrap();

        let mut rhs_vec = vec![w(1), w(2), w(3)];
        let rhs: &mut [IntWrapper] = &mut rhs_vec;

        assert!(lhs == rhs);
        assert!(rhs == lhs);

        rhs_vec.push(w(4));
        let rhs2: &mut [IntWrapper] = &mut rhs_vec;
        assert!(lhs != rhs2);
        assert!(rhs2 != lhs);
    }

    // An array and an unsized slice.
    {
        let mut lhs = Vec::new_in(wma.clone());
        lhs.extend(vec![1, 2, 3].into_iter()).unwrap();

        let rhs: Box<[IntWrapper]> = Box::new([w(1), w(2), w(3)]);
        assert!(lhs == *rhs);
        assert!(*rhs == lhs);

        let rhs2: Box<[IntWrapper]> = Box::new([w(1), w(2), w(3), w(4)]);
        assert!(lhs != *rhs2);
        assert!(*rhs2 != lhs);
    }

    // An array and a fixed array.
    {
        let mut lhs = Vec::new_in(wma.clone());
        lhs.extend(vec![1, 2, 3].into_iter()).unwrap();

        let rhs: [IntWrapper; 3] = [w(1), w(2), w(3)];
        assert!(lhs == rhs);
        assert!(rhs == lhs);

        let rhs2: [IntWrapper; 4] = [w(1), w(2), w(3), w(4)];
        assert!(lhs != rhs2);
        assert!(rhs2 != lhs);
    }

    // An array and a reference to a fixed array.
    {
        let mut lhs = Vec::new_in(wma.clone());
        lhs.extend(vec![1, 2, 3].into_iter()).unwrap();

        let rhs_arr: [IntWrapper; 3] = [w(1), w(2), w(3)];
        let rhs: &[IntWrapper; 3] = &rhs_arr;
        assert!(lhs == rhs);
        assert!(rhs == lhs);

        lhs.push(4).unwrap();
        assert!(lhs != rhs);
        assert!(rhs != lhs);
    }
}

#[test]
fn test_index() {
    let wma = WatermarkAllocator::new(32);
    let mut vec = Vec::new_in(wma);
    vec.push(1).unwrap();
    vec.push(2).unwrap();
    vec.push(3).unwrap();
    vec.push(4).unwrap();
    assert_eq!(vec[0], 1);
    assert_eq!(vec[1], 2);
    assert_eq!(vec[2], 3);
    assert_eq!(vec[3], 4);
}

#[test]
fn test_deref() {
    let wma = WatermarkAllocator::new(32);
    let mut vec = Vec::new_in(wma);
    vec.push(1).unwrap();
    vec.push(2).unwrap();
    vec.push(3).unwrap();
    vec.push(4).unwrap();
    assert_eq!(&*vec, &[1, 2, 3, 4]);
}

#[test]
fn vec_test_iter() {
    let wma = WatermarkAllocator::new(32);
    let mut vec = Vec::new_in(wma);
    vec.push(1).unwrap();
    vec.push(2).unwrap();
    vec.push(3).unwrap();
    vec.push(4).unwrap();
    let mut iter = vec.iter();
    assert_eq!(iter.next(), Some(&1));
    assert_eq!(iter.next(), Some(&2));
    assert_eq!(iter.next(), Some(&3));
    assert_eq!(iter.next(), Some(&4));
    assert_eq!(iter.next(), None);
}

#[test]
fn vec_test_iter_mut() {
    let wma = WatermarkAllocator::new(32);
    let mut vec = Vec::new_in(wma);
    vec.push(1).unwrap();
    vec.push(2).unwrap();
    vec.push(3).unwrap();
    vec.push(4).unwrap();
    let mut iter = vec.iter_mut();
    assert_eq!(iter.next(), Some(&mut 1));
    assert_eq!(iter.next(), Some(&mut 2));
    assert_eq!(iter.next(), Some(&mut 3));
    assert_eq!(iter.next(), Some(&mut 4));
    assert_eq!(iter.next(), None);
}

#[test]
fn iter_mut_writes_through() {
    let mut vec = Vec::new_in(Global);
    vec.extend_from_slice(&[1, 2, 3]).unwrap();
    for value in vec.iter_mut() {
        *value *= 10;
    }
    assert_eq!(vec.as_slice(), &[10, 20, 30]);
    assert_eq!(vec.len(), 3);
}

#[test]
fn index_by_range_gives_a_slice() {
    let mut vec = Vec::new_in(Global);
    vec.extend_from_slice(&[1, 2, 3, 4, 5]).unwrap();
    assert_eq!(&vec[1..3], &[2, 3]);
    assert_eq!(&vec[..], &[1, 2, 3, 4, 5]);
    assert_eq!(vec[4], 5);
}

#[test]
fn as_ref_gives_the_elements() {
    fn first<T: Clone>(slice: impl AsRef<[T]>) -> T {
        slice.as_ref()[0].clone()
    }
    let mut vec = Vec::new_in(Global);
    vec.extend_from_slice(&[7, 8]).unwrap();
    assert_eq!(first(vec), 7);
}

/// Counts the requests it is asked and grants them all.
#[derive(Clone)]
struct CountingAllocator {
    allocations: Rc<Cell<usize>>,
    deallocations: Rc<Cell<usize>>,
}

impl CountingAllocator {
    fn new() -> Self {
        Self { allocations: Rc::new(Cell::new(0)), deallocations: Rc::new(Cell::new(0)) }
    }
}

impl Claim for CountingAllocator {}

impl Allocator for CountingAllocator {
    fn allocate(&self, _size: usize, _align: usize) -> Result<(), AllocError> {
        self.allocations.set(self.allocations.get() + 1);
        Ok(())
    }

    fn deallocate(&self, _size: usize, _align: usize) {
        self.deallocations.set(self.deallocations.get() + 1);
    }
}

#[test]
fn reserve_then_pushes_ask_nothing_more() {
    let counter = CountingAllocator::new();
    let mut vec: Vec<u64, _> = Vec::new_in(counter.clone());
    vec.push(0).unwrap();
    assert_eq!(counter.allocations.get(), 1);

    vec.reserve(100).unwrap();
    assert_eq!(counter.allocations.get(), 2);
    let reserved = vec.capacity();
    assert!(reserved >= 101);

    for i in 0..100 {
        vec.push(i).unwrap();
    }
    assert_eq!(counter.allocations.get(), 2);
    assert_eq!(vec.capacity(), reserved);
    assert_eq!(vec.len(), 101);
}

#[test]
fn growth_hands_the_old_block_back() {
    let wma = WatermarkAllocator::new(1024);
    let mut vec: Vec<u32, _> = Vec::new_in(wma.clone());
    for i in 0..5 {
        vec.push(i).unwrap();
    }
    assert_eq!(vec.capacity(), 8);
    assert_eq!(wma.in_use(), 8 * size_of::<u32>());
    drop(vec);
    assert_eq!(wma.in_use(), 0);
}

#[test]
fn capacity_grows_by_the_amortized_policy() {
    // One-byte elements start at eight slots.
    let mut bytes: Vec<u8, _> = Vec::new_in(Global);
    bytes.push(1).unwrap();
    assert_eq!(bytes.capacity(), 8);

    // Elements of up to 1024 bytes start at four slots, and the capacity doubles.
    let mut words: Vec<u32, _> = Vec::new_in(Global);
    words.push(1).unwrap();
    assert_eq!(words.capacity(), 4);
    words.extend_from_slice(&[2, 3, 4, 5]).unwrap();
    assert_eq!(words.capacity(), 8);
    words.extend_from_slice(&[6, 7, 8, 9]).unwrap();
    assert_eq!(words.capacity(), 16);

    // Larger elements start at one slot.
    let mut blocks: Vec<[u8; 2048], _> = Vec::new_in(Global);
    blocks.push([0; 2048]).unwrap();
    assert_eq!(blocks.capacity(), 1);
    blocks.push([0; 2048]).unwrap();
    assert_eq!(blocks.capacity(), 2);

    // What is required wins over twice the capacity when it is more.
    let mut wide: Vec<u32, _> = Vec::new_in(Global);
    wide.push(1).unwrap();
    wide.reserve(20).unwrap();
    assert_eq!(wide.capacity(), 21);

    // With room already, the capacity stays.
    wide.reserve(20).unwrap();
    assert_eq!(wide.capacity(), 21);
}

#[test]
fn errors_name_what_failed() {
    // The fifth four-byte element needs eight slots: 32 bytes aligned to 4.
    let wma = WatermarkAllocator::new(16);
    let mut vec: Vec<i32, _> = Vec::new_in(wma.clone());
    vec.extend_from_slice(&[1, 2, 3, 4]).unwrap();
    assert_eq!(vec.push(5), Err(TryReserveError::AllocError { size: 32, align: 4 }));
    assert_eq!(vec.as_slice(), &[1, 2, 3, 4]);
    assert_eq!(vec.len(), 4);
    assert_eq!(vec.capacity(), 4);
    assert_eq!(wma.in_use(), 16);

    // More slots than an address space holds.
    assert_eq!(vec.reserve(usize::MAX), Err(TryReserveError::CapacityOverflow));
    assert_eq!(vec.capacity(), 4);
    assert_eq!(vec.as_slice(), &[1, 2, 3, 4]);

    let whole: Result<Vec<u64, _>, _> = Vec::with_capacity_in(usize::MAX / 4, Global);
    assert_eq!(whole.err(), Some(TryReserveError::CapacityOverflow));

    let refused: Result<Vec<u64, _>, _> = Vec::with_capacity_in(3, wma.clone());
    assert_eq!(refused.err(), Some(TryReserveError::AllocError { size: 24, align: 8 }));
    assert_eq!(wma.in_use(), 16);
}

#[test]
fn failed_operations_leave_the_array_as_it_was() {
    let wma = WatermarkAllocator::new(16);
    let mut vec: Vec<i32, _> = Vec::new_in(wma.clone());
    vec.extend_from_slice(&[1, 2, 3, 4]).unwrap();

    assert!(vec.extend_from_slice(&[5]).is_err());
    assert!(vec.extend_with(1, 5).is_err());
    assert!(vec.resize(5, 0).is_err());
    assert!(vec.resize_with(5, || 0).is_err());
    assert!(vec.reserve(1).is_err());
    assert!(vec.extend([5, 6].into_iter()).is_err());

    assert_eq!(vec.as_slice(), &[1, 2, 3, 4]);
    assert_eq!(vec.capacity(), 4);
    assert_eq!(wma.in_use(), 16);
}

#[test]
fn extend_appends_all_or_nothing() {
    // Room for eight elements; the iterator claims none and gives ten.
    let wma = WatermarkAllocator::new(12 * size_of::<usize>());
    let mut vec = Vec::new_in(wma.clone());
    assert_eq!(
        vec.extend(MyIter::new(0)),
        Err(TryReserveError::AllocError { size: 16 * size_of::<usize>(), align: size_of::<usize>() })
    );
    assert!(vec.is_empty());
    assert_eq!(vec.capacity(), 0);
    assert_eq!(wma.in_use(), 0);

    // The same from an array that holds a block already: the block stays.
    let wma = WatermarkAllocator::new(100);
    let mut vec: Vec<u32, _> = Vec::new_in(wma.clone());
    vec.extend_from_slice(&[1, 2, 3, 4]).unwrap();
    assert_eq!(wma.in_use(), 16);
    // Eight slots are granted beside the four; sixteen beside both are not.
    assert_eq!(
        vec.extend([5, 6, 7, 8, 9].into_iter().filter(|_| true)),
        Err(TryReserveError::AllocError { size: 64, align: 4 })
    );
    assert_eq!(vec.as_slice(), &[1, 2, 3, 4]);
    assert_eq!(vec.capacity(), 4);
    assert_eq!(wma.in_use(), 16);

    // With the budget for it, every item goes in and the old block is handed back.
    let wma = WatermarkAllocator::new(200);
    let mut vec: Vec<u32, _> = Vec::new_in(wma.clone());
    vec.extend_from_slice(&[1, 2, 3, 4]).unwrap();
    vec.extend([5, 6, 7, 8, 9].into_iter().filter(|_| true)).unwrap();
    assert_eq!(vec.as_slice(), &[1, 2, 3, 4, 5, 6, 7, 8, 9]);
    assert_eq!(vec.capacity(), 16);
    assert_eq!(wma.in_use(), 64);

    // The first reservation refused: nothing is taken from the iterator's items.
    let wma = WatermarkAllocator::new(16);
    let mut vec: Vec<u32, _> = Vec::new_in(wma.clone());
    vec.extend_from_slice(&[1, 2, 3, 4]).unwrap();
    assert_eq!(
        vec.extend([5, 6].into_iter()),
        Err(TryReserveError::AllocError { size: 32, align: 4 })
    );
    assert_eq!(vec.as_slice(), &[1, 2, 3, 4]);
    assert_eq!(vec.capacity(), 4);
    assert_eq!(wma.in_use(), 16);
}

#[test]
fn truncate_keeps_the_capacity() {
    let mut vec = Vec::new_in(Global);
    vec.extend_from_slice(&[1, 2, 3, 4, 5]).unwrap();
    let capacity = vec.capacity();

    vec.truncate(7);
    assert_eq!(vec.as_slice(), &[1, 2, 3, 4, 5]);
    vec.truncate(5);
    assert_eq!(vec.as_slice(), &[1, 2, 3, 4, 5]);
    vec.truncate(0);
    assert_eq!(vec.len(), 0);
    assert_eq!(vec.capacity(), capacity);

    // Nothing to drop: nothing happens.
    vec.truncate(0);
    assert_eq!(vec.len(), 0);
    assert_eq!(vec.capacity(), capacity);
}

#[test]
fn a_clone_and_its_source_go_their_own_ways() {
    let wma = WatermarkAllocator::new(1024);
    let mut source = Vec::new_in(wma.clone());
    source.extend_from_slice(&[1, 2, 3]).unwrap();
    let mut copy = source.try_clone().ok().unwrap();
    assert_eq!(copy.as_slice(), &[1, 2, 3]);
    // One slot for each element, asked of a clone of the allocator.
    assert_eq!(copy.capacity(), 3);
    assert_eq!(wma.in_use(), (source.capacity() + 3) * size_of::<i32>());

    source.push(4).unwrap();
    source.truncate(1);
    assert_eq!(copy.as_slice(), &[1, 2, 3]);

    copy.push(9).unwrap();
    copy.clear();
    assert_eq!(source.as_slice(), &[1]);
}

#[test]
fn try_clone_from_replaces_or_leaves() {
    let wma = WatermarkAllocator::new(64);
    let mut source = Vec::new_in(wma.clone());
    source.extend_from_slice(&[1u64, 2, 3, 4]).unwrap();
    let mut target = Vec::new_in(wma.clone());
    target.extend_from_slice(&[9u64, 9]).unwrap();
    // 32 bytes for the source and 32 for the target are in use: no room for a copy.
    assert_eq!(
        target.try_clone_from(&source),
        Err(TryReserveError::AllocError { size: 32, align: 8 })
    );
    assert_eq!(target.as_slice(), &[9, 9]);

    let mut small = Vec::new_in(Global);
    small.extend_from_slice(&[5u64]).unwrap();
    let mut other = Vec::new_in(Global);
    other.extend_from_slice(&[7u64, 8]).unwrap();
    other.try_clone_from(&small).unwrap();
    assert_eq!(other.as_slice(), &[5]);
}

#[test]
fn elements_without_size_need_no_slots() {
    let counter = CountingAllocator::new();
    let mut vec: Vec<(), _> = Vec::new_in(counter.clone());
    assert_eq!(vec.capacity(), usize::MAX);
    for _ in 0..100 {
        vec.push(()).unwrap();
    }
    vec.reserve(1000).unwrap();
    assert_eq!(vec.len(), 100);
    assert_eq!(vec.capacity(), usize::MAX);
    assert_eq!(counter.allocations.get(), 0);
    assert_eq!(vec.reserve(usize::MAX), Err(TryReserveError::CapacityOverflow));

    let sized: Vec<(), _> = Vec::with_capacity_in(5, counter.clone()).ok().unwrap();
    assert_eq!(sized.capacity(), usize::MAX);
    assert_eq!(counter.allocations.get(), 0);
}

#[test]
fn with_capacity_of_zero_asks_nothing() {
    let counter = CountingAllocator::new();
    let vec: Vec<u32, _> = Vec::with_capacity_in(0, counter.clone()).ok().unwrap();
    assert_eq!(vec.capacity(), 0);
    assert_eq!(counter.allocations.get(), 0);
    drop(vec);
    assert_eq!(counter.deallocations.get(), 0);
}

#[test]
fn extend_with_clones_the_value() {
    let mut vec = Vec::new_in(Global);
    vec.push(Claimable(0)).unwrap();
    vec.extend_with(2, Claimable(7)).unwrap();
    assert!(vec.as_slice() == &[Claimable(0), Claimable(7), Claimable(7)]);
    vec.extend_with(0, Claimable(1)).unwrap();
    assert_eq!(vec.len(), 3);
}

#[test]
fn resize_with_calls_the_producer_in_order() {
    let mut next = 0;
    let mut vec = Vec::new_in(Global);
    vec.resize_with(3, || {
        next += 1;
        next
    })
    .unwrap();
    assert_eq!(vec.as_slice(), &[1, 2, 3]);
}

#[test]
fn extend_leaves_the_capacity_its_reservations_make() {
    // Five slots reserved at once, then one push that doubles them.
    let mut vec = Vec::new_in(Global);
    vec.extend(MyIter::new(5)).unwrap();
    assert_eq!(vec.capacity(), 10);

    // All ten reserved at once.
    let mut vec = Vec::new_in(Global);
    vec.extend(MyIter::new(10)).unwrap();
    assert_eq!(vec.capacity(), 10);

    // Twenty reserved, ten of them left unused.
    let mut vec = Vec::new_in(Global);
    vec.extend(MyIter::new(20)).unwrap();
    assert_eq!(vec.capacity(), 20);
    assert_eq!(vec.len(), 10);

    // Nothing reserved at once: four slots, then eight, then sixteen.
    let mut vec = Vec::new_in(Global);
    vec.extend(MyIter::new(0)).unwrap();
    assert_eq!(vec.capacity(), 16);

    // With room for everything, nothing is asked.
    let counter = CountingAllocator::new();
    let mut vec = Vec::with_capacity_in(12, counter.clone()).ok().unwrap();
    vec.extend(MyIter::new(3)).unwrap();
    assert_eq!(vec.capacity(), 12);
    assert_eq!(counter.allocations.get(), 1);
}

#[test]
fn test_deref_mut() {
    let wma = WatermarkAllocator::new(32);
    let mut vec = Vec::new_in(wma);
    vec.push(1).unwrap();
    vec.push(2).unwrap();
    vec.push(3).unwrap();
    vec.push(4).unwrap();
    let vec: &mut [i32] = &mut vec;
    vec[0] = 5;
    vec[1] = 6;
    vec[2] = 7;
    vec[3] = 8;
    assert_eq!(&*vec, &[5, 6, 7, 8]);
}

#[test]
fn as_mut_and_index_mut_write_into_the_array() {
    fn doubled_first_elem_slice(mut vec: impl AsMut<[i32]>) -> i32 {
        let vec = vec.as_mut();
        vec[0] *= 2;
        vec[0]
    }
    let wma = WatermarkAllocator::new(128);
    let mut vec = Vec::new_in(wma);
    vec.extend(vec![1, 2, 3].into_iter()).unwrap();
    vec[0] *= 2;
    vec[2] = 9;
    assert_eq!(vec.as_slice(), &[2, 2, 9]);
    assert_eq!(vec.capacity(), 4);
    let copy = vec.try_clone().ok().unwrap();
    assert_eq!(doubled_first_elem_slice(copy), 4);
    vec.sort();
    assert_eq!(vec.as_slice(), &[2, 2, 9]);
    vec.reverse();
    assert_eq!(vec.as_slice(), &[9, 2, 2]);
    assert_eq!(vec.len(), 3);
}

fn get_first_elem_vec<T: Claim, A: Allocator>(vec: impl AsRef<Vec<T, A>>) -> T {
    let vec = vec.as_ref();
    vec.first().unwrap().clone()
}

fn get_first_elem_slice<T: Claim>(slice: impl AsRef<[T]>) -> T {
    let vec = slice.as_ref();
    vec.first().unwrap().clone()
}

#[test]
fn test_as_ref() {
    let wma = WatermarkAllocator::new(128);
    let mut vec1 = Vec::new_in(wma);
    vec1.extend(vec![1, 2, 3].into_iter()).unwrap();
    let vec2 = vec1.try_clone().ok().unwrap();

    assert!(vec1 == vec2);
    let e0vec1 = get_first_elem_vec(vec1);
    let e0vec2 = get_first_elem_slice(vec2);
    assert_eq!(e0vec1, 1);
    assert_eq!(e0vec2, 1);
}

fn doubled_first_elem_vec(mut vec: impl AsMut<Vec<i32, WatermarkAllocator>>) -> i32 {
    let vec = vec.as_mut();
    vec[0] *= 2;
    vec[0]
}

fn doubled_first_elem_slice(mut vec: impl AsMut<[i32]>) -> i32 {
    let vec = vec.as_mut();
    vec[0] *= 2;
    vec[0]
}

#[test]
fn test_as_mut() {
    let wma = WatermarkAllocator::new(128);
    let mut vec1 = Vec::new_in(wma);
    vec1.extend(vec![1, 2, 3].into_iter()).unwrap();
    let vec2 = vec1.try_clone().ok().unwrap();
    assert!(vec1 == vec2);

    let d0vec1 = doubled_first_elem_vec(vec1);
    let d0vec2 = doubled_first_elem_slice(vec2);

    assert_eq!(d0vec1, 2);
    assert_eq!(d0vec2, 2);
}

#[test]
fn extend_cannot_fail_on_elements_without_size() {
    // Whatever the iterator claims, there is room.
    struct Units {
        left: usize,
        claimed: usize,
    }
    impl Iterator for Units {
        type Item = ();

        fn next(&mut self) -> Option<()> {
            if self.left == 0 {
                return None;
            }
            self.left -= 1;
            Some(())
        }

        fn size_hint(&self) -> (usize, Option<usize>) {
            (self.claimed, None)
        }
    }
    for claimed in [0, 3, 7, usize::MAX] {
        let counter = CountingAllocator::new();
        let mut vec = Vec::new_in(counter.clone());
        assert_eq!(vec.extend(Units { left: 3, claimed }), Ok(()));
        assert_eq!(vec.len(), 3);
        assert_eq!(vec.capacity(), usize::MAX);
        assert_eq!(counter.allocations.get(), 0);
    }
}

#[test]
fn extend_with_a_lower_bound_too_large_changes_nothing() {
    let mut vec: Vec<u32, _> = Vec::new_in(Global);
    vec.push(1).unwrap();
    let capacity = vec.capacity();
    struct Liar;
    impl Iterator for Liar {
        type Item = u32;

        fn next(&mut self) -> Option<u32> {
            Some(2)
        }

        fn size_hint(&self) -> (usize, Option<usize>) {
            (usize::MAX, None)
        }
    }
    assert_eq!(vec.extend(Liar), Err(TryReserveError::CapacityOverflow));
    assert_eq!(vec.as_slice(), &[1]);
    assert_eq!(vec.capacity(), capacity);
}
