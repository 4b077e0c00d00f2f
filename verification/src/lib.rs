//! Collections that report an allocation failure to the caller.
//!
//! Every container takes an [`allocator::Allocator`] when it is made and asks it
//! for each block of slots that it comes to hold. A request that the allocator
//! refuses is returned as a [`allocator::TryReserveError`]; the container is then
//! exactly as it was before the call.
//!
//! The elements themselves are kept in the standard collections. What this
//! crate adds, and proves, is the account of capacity: which requests are made,
//! when none is made, and what a container holds after each outcome.
//!
//! - [`allocator`]: the allocator trait, the allocator without a budget, and
//!   the errors.
//! - [`raw_buf`]: the slots a container holds, and the policy by which their
//!   number grows.
//! - [`vec`] and [`vec_eq`]: the growable array and its comparisons.
//! - [`vec_deque`]: the double-ended queue.
//! - [`claim`] and [`try_clone`]: the mark of a `clone` that cannot fail, and
//!   the duplication that can.

pub mod allocator;
pub mod claim;
pub mod raw_buf;
pub mod try_clone;
pub mod vec;
pub mod vec_deque;
pub mod vec_eq;
