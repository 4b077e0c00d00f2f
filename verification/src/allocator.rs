//! The allocator a container is given, and the errors a reservation can end in.

use vstd::prelude::*;

verus! {

/// An allocator's refusal of a request.
#[derive(Clone, Copy, Debug, PartialEq, Eq, Structural)]
pub struct AllocError;

/// Why a container could not reserve the capacity that was asked for.
#[derive(Clone, Copy, Debug, PartialEq, Eq, Structural)]
pub enum TryReserveError {
    /// The capacity asked for cannot be laid out: the number of slots, or
    /// their size in bytes, is more than a block can have.
    CapacityOverflow,
    /// The allocator refused a block of `size` bytes aligned to `align`.
    AllocError { size: usize, align: usize },
}

/// A source of memory that may refuse a request.
///
/// A container calls `allocate` only when it grows and `deallocate` only with
/// the size and alignment of a block that `allocate` granted to it before.
pub trait Allocator {
    /// True of an allocator that is known to grant every request it is
    /// asked. Unless an allocator says otherwise, it is not.
    open spec fn never_refuses(&self) -> bool {
        false
    }

    /// Asks for a block of `size` bytes aligned to `align`.
    fn allocate(&self, size: usize, align: usize) -> (granted: Result<(), AllocError>)
        ensures
            self.never_refuses() ==> granted is Ok,
    ;

    /// Hands back a block of `size` bytes aligned to `align`.
    ///
    /// This runs while a container is destroyed, so it must not panic. An
    /// allocator that keeps no account of what it granted need not provide it.
    fn deallocate(&self, size: usize, align: usize)
        opens_invariants none
        no_unwind
    {
    }
}

/// The allocator without a budget: it grants every request.
#[derive(Clone, Copy, Debug)]
pub struct Global;

impl Allocator for Global {
    open spec fn never_refuses(&self) -> bool {
        true
    }

    /// Grants the block.
    fn allocate(&self, size: usize, align: usize) -> (granted: Result<(), AllocError>)
        ensures
            granted is Ok,
    {
        Ok(())
    }
}

} // verus!
