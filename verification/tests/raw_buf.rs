use alloc_checked::allocator::{AllocError, Allocator, Global, TryReserveError};
use alloc_checked::claim::Claim;
use alloc_checked::raw_buf::RawBuf;
use alloc_checked::try_clone::TryClone;
use alloc_checked::vec::Vec;
use std::cell::RefCell;
use std::rc::Rc;
use std::sync::Arc;

/// Writes down every call, and grants a request unless told to refuse.
#[derive(Clone)]
struct Recorder {
    refuse: bool,
    calls: Rc<RefCell<std::vec::Vec<(&'static str, usize, usize)>>>,
}

impl Recorder {
    fn new(refuse: bool) -> Self {
        Self { refuse, calls: Rc::new(RefCell::new(std::vec::Vec::new())) }
    }

    fn calls(&self) -> std::vec::Vec<(&'static str, usize, usize)> {
        self.calls.borrow().clone()
    }
}

impl Allocator for Recorder {
    fn allocate(&self, size: usize, align: usize) -> Result<(), AllocError> {
        self.calls.borrow_mut().push(("allocate", size, align));
        if self.refuse {
            Err(AllocError)
        } else {
            Ok(())
        }
    }

    fn deallocate(&self, size: usize, align: usize) {
        self.calls.borrow_mut().push(("deallocate", size, align));
    }
}

#[test]
fn a_new_buffer_holds_nothing() {
    let recorder = Recorder::new(false);
    let buf = RawBuf::new::<u32>(recorder.clone());
    assert_eq!(buf.capacity(), 0);
    drop(buf);
    assert!(recorder.calls().is_empty());
}

#[test]
fn with_capacity_asks_once_for_the_exact_size() {
    let recorder = Recorder::new(false);
    let buf = RawBuf::with_capacity::<u64>(5, recorder.clone()).ok().unwrap();
    assert_eq!(buf.capacity(), 5);
    assert_eq!(recorder.calls(), [("allocate", 40, 8)]);
    drop(buf);
    assert_eq!(recorder.calls(), [("allocate", 40, 8), ("deallocate", 40, 8)]);
}

#[test]
fn with_capacity_keeps_nothing_when_refused() {
    let recorder = Recorder::new(true);
    let refused = RawBuf::with_capacity::<u64>(5, recorder.clone());
    assert_eq!(refused.err(), Some(TryReserveError::AllocError { size: 40, align: 8 }));
    // One request, and no block to hand back.
    assert_eq!(recorder.calls(), [("allocate", 40, 8)]);
}

#[test]
fn with_capacity_that_cannot_be_laid_out_asks_nothing() {
    let recorder = Recorder::new(false);
    let huge = RawBuf::with_capacity::<u16>(usize::MAX, recorder.clone());
    assert_eq!(huge.err(), Some(TryReserveError::CapacityOverflow));
    let edge = RawBuf::with_capacity::<u16>(usize::MAX / 4 + 1, recorder.clone());
    assert_eq!(edge.err(), Some(TryReserveError::CapacityOverflow));
    assert!(recorder.calls().is_empty());
}

#[test]
fn reserve_grows_and_hands_the_old_block_back() {
    let recorder = Recorder::new(false);
    let mut buf = RawBuf::new::<u32>(recorder.clone());
    buf.reserve(0, 1).unwrap();
    assert_eq!(buf.capacity(), 4);
    buf.reserve(4, 1).unwrap();
    assert_eq!(buf.capacity(), 8);
    // Room for three more already.
    buf.reserve(5, 3).unwrap();
    assert_eq!(buf.capacity(), 8);
    assert_eq!(
        recorder.calls(),
        [("allocate", 16, 4), ("allocate", 32, 4), ("deallocate", 16, 4)]
    );
}

#[test]
fn reserve_refused_leaves_the_buffer() {
    let recorder = Recorder::new(true);
    let mut buf = RawBuf::new::<u8>(recorder.clone());
    assert_eq!(buf.reserve(0, 3), Err(TryReserveError::AllocError { size: 8, align: 1 }));
    assert_eq!(buf.capacity(), 0);
    assert_eq!(buf.reserve(0, 0), Ok(()));
    drop(buf);
    assert_eq!(recorder.calls(), [("allocate", 8, 1)]);
}

#[test]
fn settle_takes_either_answer() {
    let recorder = Recorder::new(false);
    let mut buf = RawBuf::with_capacity::<u32>(2, recorder.clone()).ok().unwrap();

    assert_eq!(
        buf.settle(6, 24, Err(AllocError)),
        Err(TryReserveError::AllocError { size: 24, align: 4 })
    );
    assert_eq!(buf.capacity(), 2);

    assert_eq!(buf.settle(6, 24, Ok(())), Ok(()));
    assert_eq!(buf.capacity(), 6);
    assert_eq!(recorder.calls(), [("allocate", 8, 4), ("deallocate", 8, 4)]);
    drop(buf);
    assert_eq!(recorder.calls().last(), Some(&("deallocate", 24, 4)));
}

#[test]
fn a_kept_block_comes_back_on_rollback() {
    let recorder = Recorder::new(false);
    let mut buf = RawBuf::with_capacity::<u32>(2, recorder.clone()).ok().unwrap();
    buf.keep();
    buf.reserve(2, 1).unwrap();
    assert_eq!(buf.capacity(), 4);
    buf.reserve(4, 1).unwrap();
    assert_eq!(buf.capacity(), 8);
    // The block of two slots is still held; the one of four went back.
    assert_eq!(
        recorder.calls(),
        [("allocate", 8, 4), ("allocate", 16, 4), ("allocate", 32, 4), ("deallocate", 16, 4)]
    );
    buf.rollback();
    assert_eq!(buf.capacity(), 2);
    assert_eq!(recorder.calls().last(), Some(&("deallocate", 32, 4)));
    assert_eq!(recorder.calls().len(), 5);
    drop(buf);
    assert_eq!(recorder.calls().last(), Some(&("deallocate", 8, 4)));
    assert_eq!(recorder.calls().len(), 6);
}

#[test]
fn a_kept_block_goes_back_on_commit() {
    let recorder = Recorder::new(false);
    let mut buf = RawBuf::with_capacity::<u32>(2, recorder.clone()).ok().unwrap();
    buf.keep();
    buf.reserve(2, 1).unwrap();
    buf.commit();
    assert_eq!(buf.capacity(), 4);
    assert_eq!(
        recorder.calls(),
        [("allocate", 8, 4), ("allocate", 16, 4), ("deallocate", 8, 4)]
    );
    // From here on the buffer grows as ever.
    buf.reserve(4, 1).unwrap();
    assert_eq!(recorder.calls().last(), Some(&("deallocate", 16, 4)));

    // Keeping and letting go without growth asks nothing.
    let quiet = Recorder::new(false);
    let mut buf = RawBuf::new::<u32>(quiet.clone());
    buf.keep();
    buf.rollback();
    buf.keep();
    buf.commit();
    assert_eq!(buf.capacity(), 0);
    assert!(quiet.calls().is_empty());
}

#[test]
fn a_kept_block_is_handed_back_when_the_buffer_is_dropped() {
    let recorder = Recorder::new(false);
    let mut buf = RawBuf::with_capacity::<u32>(2, recorder.clone()).ok().unwrap();
    buf.keep();
    buf.reserve(2, 1).unwrap();
    drop(buf);
    assert_eq!(
        recorder.calls(),
        [("allocate", 8, 4), ("allocate", 16, 4), ("deallocate", 16, 4), ("deallocate", 8, 4)]
    );
}

#[test]
fn global_grants_and_keeps_no_account() {
    assert_eq!(Global.allocate(usize::MAX, 1), Ok(()));
    Global.deallocate(usize::MAX, 1);
    let buf = RawBuf::with_capacity::<u128>(1000, Global).ok().unwrap();
    assert_eq!(buf.capacity(), 1000);
    let _same: &Global = buf.allocator();
}

fn claimed<T: Claim>(value: &T) -> T {
    value.clone()
}

#[test]
fn claim_marks_the_plain_types() {
    assert_eq!(claimed(&7u8), 7);
    assert_eq!(claimed(&-7i64), -7);
    assert_eq!(claimed(&usize::MAX), usize::MAX);
    assert_eq!(claimed(&true), true);
    assert_eq!(claimed(&'x'), 'x');
    assert_eq!(claimed(&[1u8, 2, 3]), [1, 2, 3]);
    assert_eq!(claimed(&Some(5u32)), Some(5));
    assert_eq!(claimed(&Ok::<u8, bool>(5)), Ok(5));
    assert_eq!(*claimed(&Arc::new(5)), 5);
    assert_eq!(*claimed(&Rc::new(5)), 5);
    assert_eq!(*claimed(&&5), 5);
    let _global: Global = claimed(&Global);
}

#[test]
fn arrays_of_claimed_handles_can_be_cloned() {
    let shared = Arc::new(1);
    let mut vec = Vec::new_in(Global);
    vec.push(shared.clone()).unwrap();
    vec.push(shared.clone()).unwrap();
    let copy = vec.try_clone().ok().unwrap();
    assert_eq!(copy.len(), 2);
    assert_eq!(Arc::strong_count(&shared), 5);
}

/// Duplicates itself unless it is marked.
#[derive(Debug, PartialEq)]
struct Fussy {
    marked: bool,
}

impl TryClone for Fussy {
    type Error = &'static str;

    fn try_clone(&self) -> Result<Self, Self::Error> {
        if self.marked {
            Err("marked")
        } else {
            Ok(Fussy { marked: false })
        }
    }
}

#[test]
fn try_clone_from_goes_by_try_clone() {
    let mut target = Fussy { marked: true };
    assert_eq!(target.try_clone_from(&Fussy { marked: false }), Ok(()));
    assert_eq!(target, Fussy { marked: false });

    let mut kept = Fussy { marked: false };
    assert_eq!(kept.try_clone_from(&Fussy { marked: true }), Err("marked"));
    assert_eq!(kept, Fussy { marked: false });
}
