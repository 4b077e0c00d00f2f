//! Equality between an array and other sequences of elements.
//!
//! Two sequences are equal when they have the same length and their elements
//! are equal index by index. The allocators play no part.

use vstd::prelude::*;
use vstd::std_specs::cmp::{PartialEqSpec, PartialEqSpecImpl};
use crate::allocator::Allocator;
use crate::vec::Vec;

verus! {

/// Whether `a` and `b` have the same length and equal elements at each index.
pub open spec fn seq_eq<T: PartialEq<U>, U>(a: Seq<T>, b: Seq<U>) -> bool {
    &&& a.len() == b.len()
    &&& forall|i: int| 0 <= i < a.len() ==> #[trigger] a[i].eq_spec(&b[i])
}

/// Compares two slices element by element, up to the first difference.
pub fn slice_eq<T: PartialEq<U>, U>(a: &[T], b: &[U]) -> (r: bool)
    ensures
        T::obeys_eq_spec() ==> r == seq_eq(a@, b@),
{
    let len = a.len();
    if len != b.len() {
        return false;
    }
    let mut index: usize = 0;
    while index < len
        invariant
            len == a@.len(),
            len == b@.len(),
            index <= len,
            T::obeys_eq_spec() ==> forall|i: int|
                0 <= i < index ==> #[trigger] a@[i].eq_spec(&b@[i]),
        decreases len - index,
    {
        if a[index] != b[index] {
            return false;
        }
        index += 1;
    }
    true
}

impl<T: PartialEq<U>, U, A1: Allocator, A2: Allocator> PartialEq<Vec<U, A2>> for Vec<T, A1> {
    fn eq(&self, other: &Vec<U, A2>) -> (r: bool) {
        slice_eq(self.as_slice(), other.as_slice())
    }
}

impl<T: PartialEq<U>, U, A1: Allocator, A2: Allocator> PartialEqSpecImpl<Vec<U, A2>> for Vec<T, A1> {
    open spec fn obeys_eq_spec() -> bool {
        T::obeys_eq_spec()
    }

    open spec fn eq_spec(&self, other: &Vec<U, A2>) -> bool {
        seq_eq(self@, other@)
    }
}

impl<T: PartialEq<U>, U, A: Allocator> PartialEq<&[U]> for Vec<T, A> {
    fn eq(&self, other: &&[U]) -> (r: bool) {
        slice_eq(self.as_slice(), *other)
    }
}

impl<T: PartialEq<U>, U, A: Allocator> PartialEqSpecImpl<&[U]> for Vec<T, A> {
    open spec fn obeys_eq_spec() -> bool {
        T::obeys_eq_spec()
    }

    open spec fn eq_spec(&self, other: &&[U]) -> bool {
        seq_eq(self@, other@)
    }
}

impl<T: PartialEq<U>, U, A: Allocator> PartialEq<&mut [U]> for Vec<T, A> {
    fn eq(&self, other: &&mut [U]) -> (r: bool) {
        slice_eq(self.as_slice(), *other)
    }
}

impl<T: PartialEq<U>, U, A: Allocator> PartialEqSpecImpl<&mut [U]> for Vec<T, A> {
    open spec fn obeys_eq_spec() -> bool {
        T::obeys_eq_spec()
    }

    open spec fn eq_spec(&self, other: &&mut [U]) -> bool {
        seq_eq(self@, other@)
    }
}

impl<T: PartialEq<U>, U, A: Allocator> PartialEq<Vec<U, A>> for &[T] {
    fn eq(&self, other: &Vec<U, A>) -> (r: bool) {
        slice_eq(*self, other.as_slice())
    }
}

impl<T: PartialEq<U>, U, A: Allocator> PartialEqSpecImpl<Vec<U, A>> for &[T] {
    open spec fn obeys_eq_spec() -> bool {
        T::obeys_eq_spec()
    }

    open spec fn eq_spec(&self, other: &Vec<U, A>) -> bool {
        seq_eq(self@, other@)
    }
}

impl<T: PartialEq<U>, U, A: Allocator> PartialEq<Vec<U, A>> for &mut [T] {
    fn eq(&self, other: &Vec<U, A>) -> (r: bool) {
        slice_eq(*self, other.as_slice())
    }
}

impl<T: PartialEq<U>, U, A: Allocator> PartialEqSpecImpl<Vec<U, A>> for &mut [T] {
    open spec fn obeys_eq_spec() -> bool {
        T::obeys_eq_spec()
    }

    open spec fn eq_spec(&self, other: &Vec<U, A>) -> bool {
        seq_eq(self@, other@)
    }
}

impl<T: PartialEq<U>, U, A: Allocator> PartialEq<[U]> for Vec<T, A> {
    fn eq(&self, other: &[U]) -> (r: bool) {
        slice_eq(self.as_slice(), other)
    }
}

impl<T: PartialEq<U>, U, A: Allocator> PartialEqSpecImpl<[U]> for Vec<T, A> {
    open spec fn obeys_eq_spec() -> bool {
        T::obeys_eq_spec()
    }

    open spec fn eq_spec(&self, other: &[U]) -> bool {
        seq_eq(self@, other@)
    }
}

impl<T: PartialEq<U>, U, A: Allocator> PartialEq<Vec<U, A>> for [T] {
    fn eq(&self, other: &Vec<U, A>) -> (r: bool) {
        slice_eq(self, other.as_slice())
    }
}

impl<T: PartialEq<U>, U, A: Allocator> PartialEqSpecImpl<Vec<U, A>> for [T] {
    open spec fn obeys_eq_spec() -> bool {
        T::obeys_eq_spec()
    }

    open spec fn eq_spec(&self, other: &Vec<U, A>) -> bool {
        seq_eq(self@, other@)
    }
}

impl<T: PartialEq<U>, U, A: Allocator, const N: usize> PartialEq<[U; N]> for Vec<T, A> {
    fn eq(&self, other: &[U; N]) -> (r: bool) {
        slice_eq(self.as_slice(), other.as_slice())
    }
}

impl<T: PartialEq<U>, U, A: Allocator, const N: usize> PartialEqSpecImpl<[U; N]> for Vec<T, A> {
    open spec fn obeys_eq_spec() -> bool {
        T::obeys_eq_spec()
    }

    open spec fn eq_spec(&self, other: &[U; N]) -> bool {
        seq_eq(self@, other@)
    }
}

impl<T: PartialEq<U>, U, A: Allocator, const N: usize> PartialEq<Vec<U, A>> for [T; N] {
    fn eq(&self, other: &Vec<U, A>) -> (r: bool) {
        slice_eq(self.as_slice(), other.as_slice())
    }
}

impl<T: PartialEq<U>, U, A: Allocator, const N: usize> PartialEqSpecImpl<Vec<U, A>> for [T; N] {
    open spec fn obeys_eq_spec() -> bool {
        T::obeys_eq_spec()
    }

    open spec fn eq_spec(&self, other: &Vec<U, A>) -> bool {
        seq_eq(self@, other@)
    }
}

impl<T: PartialEq<U>, U, A: Allocator, const N: usize> PartialEq<&[U; N]> for Vec<T, A> {
    fn eq(&self, other: &&[U; N]) -> (r: bool) {
        slice_eq(self.as_slice(), other.as_slice())
    }
}

impl<T: PartialEq<U>, U, A: Allocator, const N: usize> PartialEqSpecImpl<&[U; N]> for Vec<T, A> {
    open spec fn obeys_eq_spec() -> bool {
        T::obeys_eq_spec()
    }

    open spec fn eq_spec(&self, other: &&[U; N]) -> bool {
        seq_eq(self@, other@)
    }
}

impl<T: PartialEq<U>, U, A: Allocator, const N: usize> PartialEq<Vec<U, A>> for &[T; N] {
    fn eq(&self, other: &Vec<U, A>) -> (r: bool) {
        slice_eq(self.as_slice(), other.as_slice())
    }
}

impl<T: PartialEq<U>, U, A: Allocator, const N: usize> PartialEqSpecImpl<Vec<U, A>> for &[T; N] {
    open spec fn obeys_eq_spec() -> bool {
        T::obeys_eq_spec()
    }

    open spec fn eq_spec(&self, other: &Vec<U, A>) -> bool {
        seq_eq(self@, other@)
    }
}

} // verus!
