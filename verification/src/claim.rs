//! The promise that a type's `clone` cannot fail.

use vstd::prelude::*;
use std::convert::Infallible;
use std::marker::PhantomData;
use std::rc::Rc;
use std::sync::Arc;
use crate::allocator::Global;

verus! {

/// Marks a type whose `clone` cannot fail: it neither panics nor asks for
/// memory that could be refused.
///
/// Nothing checks the promise. The containers duplicate their elements with
/// `clone` and rely on it: give the mark only to a type that keeps it.
pub trait Claim: Clone {

}

impl Claim for u8 {

}

impl Claim for u16 {

}

impl Claim for u32 {

}

impl Claim for u64 {

}

impl Claim for u128 {

}

impl Claim for usize {

}

impl Claim for i8 {

}

impl Claim for i16 {

}

impl Claim for i32 {

}

impl Claim for i64 {

}

impl Claim for i128 {

}

impl Claim for isize {

}

impl Claim for bool {

}

impl Claim for char {

}

impl Claim for Global {

}

impl<T: Copy, const N: usize> Claim for [T; N] {

}

impl<T: ?Sized> Claim for PhantomData<T> {

}

impl<T: ?Sized> Claim for &T {

}

impl<T> Claim for Arc<T> {

}

impl<T> Claim for Rc<T> {

}

impl Claim for Infallible {

}

impl<T: Claim> Claim for Option<T> {

}

impl<T: Claim, E: Claim> Claim for Result<T, E> {

}

} // verus!
