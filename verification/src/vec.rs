//! A growable array that asks its allocator for every slot.

use vstd::prelude::*;
use vstd::layout::{align_of, size_of};
use vstd::slice::SliceIndexSpec;
use vstd::std_specs::iter::IteratorSpec;
use crate::allocator::{Allocator, TryReserveError};
use crate::claim::Claim;
use crate::raw_buf::{
    exact_growth, exact_reserved_of, extension_capacity, extension_fits, extension_step, growth,
    lemma_amortized_capacity_bounds, lemma_extension_first_fits, lemma_extension_step_fits,
    lemma_pushed_capacity_bounds, lemma_reserved_needs_no_growth, pushed_capacity,
    reserved_capacity,
    reserved_of, Growth, RawBuf,
};
use crate::try_clone::TryClone;

verus! {

/// A growable array whose capacity is asked of the allocator `A`.
///
/// The array is a sequence of elements, its view, and a capacity that is
/// never less than its length. Only the operations that reserve capacity ask
/// anything of the allocator, and each of them leaves the array unchanged when
/// it fails.
pub struct Vec<T, A: Allocator> {
    // The elements come first, so that they are dropped before the slots are
    // handed back.
    items: std::vec::Vec<T>,
    buf: RawBuf<A>,
}

impl<T, A: Allocator> View for Vec<T, A> {
    type V = Seq<T>;

    closed spec fn view(&self) -> Seq<T> {
        self.items@
    }
}

/// Whether `after` is `before` followed by one clone of each element of
/// `source`, in order.
pub open spec fn extended_by_clones<T: Clone>(
    before: Seq<T>,
    source: Seq<T>,
    after: Seq<T>,
) -> bool {
    &&& after.len() == before.len() + source.len()
    &&& after.subrange(0, before.len() as int) =~= before
    &&& forall|i: int|
        0 <= i < source.len() ==> cloned::<T>(source[i], #[trigger] after[before.len() + i])
}

/// Whether `refs` are mutable references to the elements of `elements`, one
/// for each and in order: each of them holds the element at its index.
pub open spec fn refs_to<T>(refs: Seq<&mut T>, elements: Seq<T>) -> bool {
    &&& refs.len() == elements.len()
    &&& forall|i: int| 0 <= i < refs.len() ==> *(#[trigger] refs[i]) == elements[i]
}

/// Whether `vec` is the array `array` itself.
pub open spec fn same_array<T, A: Allocator>(vec: &Vec<T, A>, array: &Vec<T, A>) -> bool {
    vec == array
}

/// Whether `slice` holds the elements `elements`, in order.
pub open spec fn slice_of<T>(slice: &[T], elements: Seq<T>) -> bool {
    slice@ == elements
}

/// Whether `copy` holds one clone of each element of `source`, in order.
pub open spec fn clones_of<T: Clone>(source: Seq<T>, copy: Seq<T>) -> bool {
    &&& copy.len() == source.len()
    &&& forall|i: int| 0 <= i < source.len() ==> cloned::<T>(source[i], #[trigger] copy[i])
}

/// Where a clone of an element is always equal to the element, a sequence of
/// clones is equal to its source: a copy made of such elements has the
/// elements of what it was made of.
pub proof fn lemma_clones_are_equal<T: Clone>(source: Seq<T>, copy: Seq<T>)
    requires
        clones_of(source, copy),
        forall|element: T, clone: T| #[trigger] cloned::<T>(element, clone) ==> clone == element,
    ensures
        copy == source,
{
    assert(copy =~= source);
}

impl<T, A: Allocator> Vec<T, A> {
    /// The invariant of an array: its length is at most its capacity, its slots
    /// have the size and alignment of `T`, and it keeps no block back.
    pub closed spec fn wf(&self) -> bool {
        &&& self.buf.wf()
        &&& !self.buf.keeping()
        &&& self.items@.len() <= self.buf.capacity()
        &&& self.buf.elem_size() == size_of::<T>()
        &&& self.buf.align() == align_of::<T>()
    }

    /// The number of slots held.
    pub closed spec fn spec_capacity(&self) -> usize {
        self.buf.spec_capacity()
    }

    /// The allocator that the slots are asked of.
    pub closed spec fn spec_allocator(&self) -> A {
        self.buf.spec_allocator()
    }

    /// What reserving room for `additional` more elements comes to.
    pub open spec fn growth(&self, additional: nat) -> Growth {
        growth(
            self@.len(),
            self.capacity() as nat,
            additional,
            size_of::<T>(),
            align_of::<T>(),
        )
    }

    /// Whether `r` is how reserving `additional` slots in `self` can end, with
    /// `after` the array that is left.
    pub open spec fn reserved(
        &self,
        additional: nat,
        r: Result<(), TryReserveError>,
        after: &Self,
    ) -> bool {
        &&& after.wf()
        &&& after.spec_allocator() == self.spec_allocator()
        &&& reserved_of(
            self.spec_allocator(),
            self@.len(),
            self.capacity() as nat,
            additional,
            size_of::<T>(),
            align_of::<T>(),
            r,
            after.capacity() as nat,
        )
        &&& r matches Err(TryReserveError::AllocError { .. })
            ==> !self.spec_allocator().never_refuses()
    }

    /// The length of an array is at most its capacity.
    pub proof fn lemma_len_le_capacity(&self)
        requires
            self.wf(),
        ensures
            self@.len() <= self.capacity(),
    {
    }

    /// After `reserve(n)` has succeeded and left `reserved`, each of the next
    /// `n` elements finds room: with `pushed` of them in, `pushed < n`, the
    /// reservation for one more asks nothing of the allocator, succeeds and
    /// leaves the capacity as it is.
    pub proof fn lemma_reserved_pushes_fit(&self, n: nat, reserved: &Self, pushed: nat)
        requires
            self.wf(),
            self.reserved(n, Ok(()), reserved),
            pushed < n,
        ensures
            growth(
                self@.len() + pushed,
                reserved.capacity() as nat,
                1,
                size_of::<T>(),
                align_of::<T>(),
            ) is Unneeded,
            self@.len() + n <= reserved.capacity(),
    {
        lemma_reserved_needs_no_growth(
            self@.len(),
            self.capacity() as nat,
            n,
            size_of::<T>(),
            align_of::<T>(),
            reserved.capacity() as nat,
            pushed,
        );
    }

    /// With an allocator that never refuses, a reservation fails only where
    /// the capacity needed cannot be laid out, and then with
    /// `CapacityOverflow`.
    pub proof fn lemma_never_refused(
        &self,
        additional: nat,
        r: Result<(), TryReserveError>,
        after: &Self,
    )
        requires
            self.reserved(additional, r, after),
            self.spec_allocator().never_refuses(),
        ensures
            r is Err <==> self.growth(additional) is Overflow,
            r is Err ==> r == Err::<(), _>(TryReserveError::CapacityOverflow),
            after.spec_allocator().never_refuses(),
    {
    }

    /// The slots for a clone can be laid out: a clone is refused by the
    /// allocator or not at all.
    pub proof fn lemma_clone_fits(&self)
        requires
            self.wf(),
        ensures
            !(exact_growth(self@.len(), size_of::<T>(), align_of::<T>()) is Overflow),
    {
        if size_of::<T>() > 0 {
            self.buf.lemma_capacity_fits(self@.len());
        }
    }

    /// An empty array that holds no slot. Nothing is asked of `alloc`.
    ///
    /// An array of elements without size needs no slot: its capacity is
    /// `usize::MAX` from the start.
    pub fn new_in(alloc: A) -> (v: Self)
        ensures
            v.wf(),
            v@ == Seq::<T>::empty(),
            v.spec_allocator() == alloc,
            v.capacity() == if size_of::<T>() == 0 { usize::MAX } else { 0 },
    {
        Vec { items: std::vec::Vec::new(), buf: RawBuf::new::<T>(alloc) }
    }

    /// An empty array of exactly `capacity` slots, asked of `alloc` in one
    /// request.
    ///
    /// No request is made for a capacity of zero or for elements without size.
    /// Where the request is refused, or cannot be made because that many slots
    /// cannot be laid out, no array is made and nothing is held.
    pub fn with_capacity_in(capacity: usize, alloc: A) -> (r: Result<Self, TryReserveError>)
        ensures
            r matches Ok(v) ==> v.wf() && v@ == Seq::<T>::empty() && v.spec_allocator() == alloc,
            exact_reserved_of(
                alloc,
                capacity as nat,
                size_of::<T>(),
                align_of::<T>(),
                match r {
                    Ok(v) => Ok(v.capacity()),
                    Err(e) => Err(e),
                },
            ),
            r matches Err(TryReserveError::AllocError { .. }) ==> !alloc.never_refuses(),
    {
        match RawBuf::with_capacity::<T>(capacity, alloc) {
            Ok(buf) => Ok(Vec { items: std::vec::Vec::new(), buf }),
            Err(e) => Err(e),
        }
    }

    /// The allocator that the slots are asked of.
    pub fn allocator(&self) -> (alloc: &A)
        ensures
            *alloc == self.spec_allocator(),
    {
        self.buf.allocator()
    }

    /// The number of elements the array can hold without asking for more.
    #[verifier::when_used_as_spec(spec_capacity)]
    pub fn capacity(&self) -> (cap: usize)
        ensures
            cap == self.spec_capacity(),
            self.wf() ==> self@.len() <= cap,
    {
        self.buf.capacity()
    }

    /// The number of elements.
    pub fn len(&self) -> (len: usize)
        ensures
            len == self@.len(),
    {
        self.items.len()
    }

    /// Whether the array has no element.
    pub fn is_empty(&self) -> (empty: bool)
        ensures
            empty == (self@.len() == 0),
    {
        self.items.len() == 0
    }

    /// The elements, in order.
    pub fn as_slice(&self) -> (slice: &[T])
        ensures
            slice@ == self@,
    {
        self.items.as_slice()
    }

    /// An iterator over the elements, in order.
    pub fn iter(&self) -> (iter: std::slice::Iter<'_, T>)
        ensures
            iter.remaining() == self@.as_ref(),
            iter.decrease() is Some,
    {
        self.items.as_slice().iter()
    }

    /// An iterator over the elements, in order, by which each can be changed
    /// in place: it gives one mutable reference to each element and then
    /// ends, and what is written through a reference is the element that the
    /// array holds afterwards. The number of elements stays.
    pub fn iter_mut(&mut self) -> (iter: std::slice::IterMut<'_, T>)
        requires
            old(self).wf(),
        ensures
            final(self).wf(),
            final(self).capacity() == old(self).capacity(),
            final(self).spec_allocator() == old(self).spec_allocator(),
            iter.obeys_prophetic_iter_laws(),
            iter.decrease() is Some,
            refs_to(iter.remaining(), old(self)@),
            final(self)@.len() == old(self)@.len(),
            forall|i: int|
                0 <= i < old(self)@.len() ==> #[trigger] final(self)@[i]
                    == *final(iter.remaining()[i]),
    {
        vec_iter_mut(&mut self.items)
    }

    /// Makes room for `additional` more elements.
    ///
    /// The elements stay as they are. See `reserve_result` for when the
    /// allocator is asked and what the capacity becomes.
    pub fn reserve(&mut self, additional: usize) -> (r: Result<(), TryReserveError>)
        requires
            old(self).wf(),
        ensures
            old(self).reserved(additional as nat, r, final(self)),
            final(self)@ == old(self)@,
            r is Ok ==> final(self).capacity() >= old(self)@.len() + additional,
            r is Err ==> *final(self) == *old(self),
    {
        let len = self.items.len();
        self.buf.reserve(len, additional)
    }

    /// Appends `value`, after making room for it.
    ///
    /// While the length is less than the capacity nothing is asked of the
    /// allocator. When the reservation fails the array is as it was, and
    /// `value` is dropped.
    pub fn push(&mut self, value: T) -> (r: Result<(), TryReserveError>)
        requires
            old(self).wf(),
        ensures
            old(self).reserved(1, r, final(self)),
            r is Ok ==> final(self)@ == old(self)@.push(value),
            r is Err ==> *final(self) == *old(self),
    {
        match self.reserve(1) {
            Ok(()) => {
                self.push_within_capacity(value);
                Ok(())
            },
            Err(e) => Err(e),
        }
    }

    /// The slots and the elements, taken apart.
    pub(crate) fn into_parts(self) -> (parts: (RawBuf<A>, std::vec::Vec<T>))
        requires
            self.wf(),
        ensures
            parts.0.wf(),
            !parts.0.keeping(),
            parts.0.elem_size() == size_of::<T>(),
            parts.0.align() == align_of::<T>(),
            parts.0.capacity() == self.capacity(),
            parts.0.spec_allocator() == self.spec_allocator(),
            parts.1@ == self@,
            parts.1@.len() <= parts.0.capacity(),
    {
        (self.buf, self.items)
    }

    /// Writes `value` into the first slot that is not in use.
    fn push_within_capacity(&mut self, value: T)
        requires
            old(self).wf(),
            old(self)@.len() < old(self).capacity(),
        ensures
            final(self).wf(),
            final(self)@ == old(self)@.push(value),
            final(self).capacity() == old(self).capacity(),
            final(self).spec_allocator() == old(self).spec_allocator(),
    {
        self.items.push(value);
    }

    /// Drops the elements from index `new_len` on. The capacity stays as it
    /// is, and nothing happens when `new_len` is not less than the length.
    pub fn truncate(&mut self, new_len: usize)
        requires
            old(self).wf(),
        ensures
            final(self).wf(),
            final(self)@ == if new_len < old(self)@.len() {
                old(self)@.take(new_len as int)
            } else {
                old(self)@
            },
            final(self).capacity() == old(self).capacity(),
            final(self).spec_allocator() == old(self).spec_allocator(),
    {
        self.items.truncate(new_len);
    }

    /// Drops every element. The capacity stays as it is.
    pub fn clear(&mut self)
        requires
            old(self).wf(),
        ensures
            final(self).wf(),
            final(self)@ == Seq::<T>::empty(),
            final(self).capacity() == old(self).capacity(),
            final(self).spec_allocator() == old(self).spec_allocator(),
    {
        self.items.clear();
    }

    /// Makes the length `new_len`: by appending what `f` returns, call after
    /// call, after one reservation for all of it, or by dropping the elements
    /// from index `new_len` on, which leaves the capacity as it is.
    ///
    /// `f` is not called when the reservation fails.
    pub fn resize_with<F: FnMut() -> T>(&mut self, new_len: usize, f: F) -> (r: Result<
        (),
        TryReserveError,
    >)
        requires
            old(self).wf(),
            new_len > old(self)@.len() ==> call_requires(f, ()),
        ensures
            new_len > old(self)@.len() ==> {
                &&& old(self).reserved((new_len - old(self)@.len()) as nat, r, final(self))
                &&& r is Ok ==> {
                    &&& final(self)@.len() == new_len
                    &&& final(self)@.take(old(self)@.len() as int) =~= old(self)@
                    &&& forall|i: int|
                        old(self)@.len() <= i < new_len ==> call_ensures(
                            f,
                            (),
                            #[trigger] final(self)@[i],
                        )
                }
                &&& r is Err ==> *final(self) == *old(self)
            },
            new_len <= old(self)@.len() ==> {
                &&& r is Ok
                &&& final(self).wf()
                &&& final(self)@ == old(self)@.take(new_len as int)
                &&& final(self).capacity() == old(self).capacity()
                &&& final(self).spec_allocator() == old(self).spec_allocator()
            },
    {
        let ghost produce = f;
        let mut f = f;
        let len = self.len();
        if new_len > len {
            match self.reserve(new_len - len) {
                Ok(()) => {},
                Err(e) => {
                    return Err(e);
                },
            }
            let ghost reserved = *self;
            let mut index: usize = len;
            while index < new_len
                invariant
                    self.wf(),
                    len <= index <= new_len,
                    self@.len() == index,
                    new_len <= self.capacity(),
                    self.capacity() == reserved.capacity(),
                    self.spec_allocator() == reserved.spec_allocator(),
                    reserved@.len() == len,
                    self@.take(len as int) =~= reserved@,
                    f == produce,
                    call_requires(produce, ()),
                    forall|i: int|
                        len <= i < index ==> call_ensures(produce, (), #[trigger] self@[i]),
                decreases new_len - index,
            {
                let value = f();
                self.push_within_capacity(value);
                index += 1;
            }
            Ok(())
        } else {
            self.truncate(new_len);
            Ok(())
        }
    }

    /// Whether `r` and `after` are how appending `items` to `self` can end,
    /// after a first reservation of `lower_bound` slots.
    ///
    /// On success every item was appended, whatever `lower_bound` was, the
    /// first reservation was granted and so was the one for each item from
    /// `lower_bound` on, and the capacity is the one they left. On failure the
    /// array has the elements and the capacity that it had: the error is the
    /// one by which the first reservation failed, or the one for an item from
    /// `lower_bound` on, those before it having been granted.
    ///
    /// Nothing is asked of the allocator where there is room both for
    /// `lower_bound` and for `items`, and with an allocator that never refuses
    /// the call succeeds wherever the extension fits.
    pub open spec fn extended(
        &self,
        lower_bound: nat,
        items: Seq<T>,
        r: Result<(), TryReserveError>,
        after: &Self,
    ) -> bool {
        let len = self@.len();
        let cap = self.capacity() as nat;
        &&& after.wf()
        &&& after.spec_allocator() == self.spec_allocator()
        &&& match r {
            Ok(()) => {
                &&& after@ == self@ + items
                &&& after.capacity() == extension_capacity(
                    len,
                    cap,
                    lower_bound,
                    items.len(),
                    size_of::<T>(),
                )
                &&& self.first_reserved(lower_bound, r)
                &&& forall|index: int|
                    lower_bound <= index < items.len() ==> #[trigger] self.step_reserved(
                        lower_bound,
                        index,
                        r,
                    )
            },
            Err(e) => {
                &&& after@ == self@
                &&& after.capacity() == self.capacity()
                &&& {
                    ||| self.first_reserved(lower_bound, r)
                    ||| exists|index: int|
                        {
                            &&& lower_bound <= index < items.len()
                            &&& #[trigger] self.step_reserved(lower_bound, index, r)
                            &&& self.first_reserved(lower_bound, Ok(()))
                            &&& forall|before: int|
                                lower_bound <= before < index ==> #[trigger] self.step_reserved(
                                    lower_bound,
                                    before,
                                    Ok(()),
                                )
                        }
                }
                &&& e is AllocError ==> !self.spec_allocator().never_refuses()
            },
        }
        &&& self.spec_allocator().never_refuses() && extension_fits(
            len,
            lower_bound,
            items.len(),
            size_of::<T>(),
            align_of::<T>(),
        ) ==> r is Ok
        &&& lower_bound <= cap - len && items.len() <= cap - len ==> r is Ok
    }

    /// Whether `r` is how the first reservation of an extension, of
    /// `lower_bound` slots, can end.
    pub open spec fn first_reserved(
        &self,
        lower_bound: nat,
        r: Result<(), TryReserveError>,
    ) -> bool {
        reserved_of(
            self.spec_allocator(),
            self@.len(),
            self.capacity() as nat,
            lower_bound,
            size_of::<T>(),
            align_of::<T>(),
            r,
            if r is Ok {
                reserved_capacity(
                    self@.len(),
                    self.capacity() as nat,
                    lower_bound,
                    size_of::<T>(),
                )
            } else {
                self.capacity() as nat
            },
        )
    }

    /// Whether `r` is how the reservation for item `index` of an extension
    /// can end, the reservations before it having been granted.
    pub open spec fn step_reserved(
        &self,
        lower_bound: nat,
        index: int,
        r: Result<(), TryReserveError>,
    ) -> bool {
        extension_step(
            self.spec_allocator(),
            self@.len(),
            self.capacity() as nat,
            lower_bound,
            index as nat,
            size_of::<T>(),
            align_of::<T>(),
            r,
        )
    }

    /// A successful extension never shrinks the capacity, and leaves it as it
    /// is where there was room both for the lower bound and for the items.
    pub proof fn lemma_extended_capacity(
        &self,
        lower_bound: nat,
        items: Seq<T>,
        r: Result<(), TryReserveError>,
        after: &Self,
    )
        requires
            self.wf(),
            self.extended(lower_bound, items, r, after),
        ensures
            after.capacity() >= self.capacity(),
            lower_bound <= self.capacity() - self@.len() && items.len() <= self.capacity()
                - self@.len() ==> after.capacity() == self.capacity(),
    {
        let first = reserved_capacity(
            self@.len(),
            self.capacity() as nat,
            lower_bound,
            size_of::<T>(),
        );
        lemma_amortized_capacity_bounds(
            self.capacity() as nat,
            self@.len() + lower_bound,
            size_of::<T>(),
        );
        if items.len() > lower_bound {
            lemma_pushed_capacity_bounds(
                self@.len() + lower_bound,
                first,
                (items.len() - lower_bound) as nat,
                size_of::<T>(),
            );
        }
    }

    /// Two extensions of one array by the same items that both succeed leave
    /// the same elements, whatever lower bounds they were made with.
    pub proof fn lemma_extend_ignores_lower_bound(
        &self,
        items: Seq<T>,
        lower_bound: nat,
        after: &Self,
        other_bound: nat,
        other_after: &Self,
    )
        requires
            self.extended(lower_bound, items, Ok(()), after),
            self.extended(other_bound, items, Ok(()), other_after),
        ensures
            after@ == other_after@,
            after@ == self@ + items,
    {
    }

    /// Appends every item of `iter`, in order, or none of them.
    ///
    /// Room is first made for as many items as the iterator says it has at
    /// least; those are written without a further look at the capacity, and
    /// the items beyond them are appended one by one. What the iterator says
    /// changes which reservations are made, not what is appended: see
    /// `extended`, which holds for the lower bound that the iterator gave.
    ///
    /// When a reservation fails the array has the elements and the capacity
    /// that it had: the block that it held is kept until every item is in.
    ///
    /// The items are known beforehand, as `remaining`, of an iterator that
    /// keeps the laws of iterators.
    pub fn extend<I: Iterator<Item = T>>(&mut self, iter: I) -> (r: Result<(), TryReserveError>)
        requires
            old(self).wf(),
        ensures
            final(self).wf(),
            final(self).spec_allocator() == old(self).spec_allocator(),
            r is Err ==> final(self)@ == old(self)@ && final(self).capacity() == old(
                self,
            ).capacity(),
            iter.obeys_prophetic_iter_laws() ==> exists|lower_bound: usize|
                old(self).extended(lower_bound as nat, iter.remaining(), r, final(self)),
    {
        let lower_bound = lower_size_hint(&iter);
        self.extend_reserving(lower_bound, iter)
    }

    /// Appends every item of `iter`, in order, or none of them, after
    /// reserving `lower_bound` slots: the first `lower_bound` items are
    /// written without a further look at the capacity, and those beyond them
    /// are appended one by one.
    ///
    /// When a reservation fails the array has the elements and the capacity
    /// that it had: the block that it held is kept until every item is in.
    ///
    /// The items are known beforehand, as `remaining`, of an iterator that
    /// keeps the laws of iterators.
    pub fn extend_reserving<I: Iterator<Item = T>>(&mut self, lower_bound: usize, iter: I) -> (r:
        Result<(), TryReserveError>)
        requires
            old(self).wf(),
        ensures
            final(self).wf(),
            final(self).spec_allocator() == old(self).spec_allocator(),
            r is Err ==> final(self)@ == old(self)@ && final(self).capacity() == old(
                self,
            ).capacity(),
            iter.obeys_prophetic_iter_laws() ==> old(self).extended(
                lower_bound as nat,
                iter.remaining(),
                r,
                final(self),
            ),
    {
        let ghost lawful = iter.obeys_prophetic_iter_laws();
        let ghost items = iter.remaining();
        let ghost first = reserved_capacity(
            old(self)@.len(),
            old(self).capacity() as nat,
            lower_bound as nat,
            size_of::<T>(),
        );
        proof {
            self.buf.lemma_elem_layout_held();
        }
        let mut rest = iter;
        let old_len = self.items.len();
        self.buf.keep();
        match self.buf.reserve(old_len, lower_bound) {
            Ok(()) => {},
            Err(e) => {
                self.buf.rollback();
                assert(lawful && extension_fits(
                    old(self)@.len(),
                    lower_bound as nat,
                    items.len(),
                    size_of::<T>(),
                    align_of::<T>(),
                ) ==> !(old(self).growth(lower_bound as nat) is Overflow)) by {
                    if lawful && extension_fits(
                        old(self)@.len(),
                        lower_bound as nat,
                        items.len(),
                        size_of::<T>(),
                        align_of::<T>(),
                    ) {
                        lemma_extension_first_fits(
                            old(self)@.len(),
                            old(self).capacity() as nat,
                            lower_bound as nat,
                            items.len(),
                            size_of::<T>(),
                            align_of::<T>(),
                        );
                    }
                }
                return Err(e);
            },
        }
        let mut written: usize = 0;
        while written < lower_bound
            invariant
                self.buf.wf(),
                self.buf.keeping(),
                self.buf.kept_capacity() == old(self).capacity(),
                self.buf.elem_size() == size_of::<T>(),
                self.buf.align() == align_of::<T>(),
                self.spec_allocator() == old(self).spec_allocator(),
                rest.obeys_prophetic_iter_laws() == lawful,
                lawful == iter.obeys_prophetic_iter_laws(),
                items == iter.remaining(),
                old_len == old(self)@.len(),
                written <= lower_bound,
                self@.len() == old_len + written,
                old_len + lower_bound <= self.capacity(),
                self.capacity() == first,
                first == reserved_capacity(
                    old(self)@.len(),
                    old(self).capacity() as nat,
                    lower_bound as nat,
                    size_of::<T>(),
                ),
                old(self).first_reserved(lower_bound as nat, Ok(())),
                self@.take(old_len as int) == old(self)@,
                lawful ==> {
                    &&& written <= items.len()
                    &&& self@ == old(self)@ + items.take(written as int)
                    &&& rest.remaining() == items.skip(written as int)
                },
            decreases lower_bound - written,
        {
            match rest.next() {
                Some(value) => {
                    self.items.push(value);
                    written += 1;
                    assert(self@.take(old_len as int) =~= old(self)@);
                },
                None => {
                    self.buf.commit();
                    assert(lawful ==> items.take(written as int) =~= items);
                    return Ok(());
                },
            }
        }
        loop
            invariant
                self.buf.wf(),
                self.buf.keeping(),
                self.buf.kept_capacity() == old(self).capacity(),
                self.buf.elem_size() == size_of::<T>(),
                self.buf.align() == align_of::<T>(),
                self.spec_allocator() == old(self).spec_allocator(),
                rest.obeys_prophetic_iter_laws() == lawful,
                lawful == iter.obeys_prophetic_iter_laws(),
                items == iter.remaining(),
                old_len == old(self)@.len(),
                old_len <= old(self).capacity(),
                self@.len() >= old_len + lower_bound,
                self@.len() <= self.capacity(),
                self.capacity() == extension_capacity(
                    old(self)@.len(),
                    old(self).capacity() as nat,
                    lower_bound as nat,
                    (self@.len() - old_len) as nat,
                    size_of::<T>(),
                ),
                old(self).first_reserved(lower_bound as nat, Ok(())),
                first == reserved_capacity(
                    old(self)@.len(),
                    old(self).capacity() as nat,
                    lower_bound as nat,
                    size_of::<T>(),
                ),
                forall|index: int|
                    lower_bound <= index < self@.len() - old_len ==> #[trigger] old(
                        self,
                    ).step_reserved(lower_bound as nat, index, Ok(())),
                self@.take(old_len as int) == old(self)@,
                lawful ==> {
                    &&& self@.len() - old_len <= items.len()
                    &&& self@ == old(self)@ + items.take(self@.len() - old_len)
                    &&& rest.remaining() == items.skip(self@.len() - old_len)
                },
            decreases usize::MAX - self@.len(),
        {
            let ghost count = self@.len() - old_len;
            match rest.next() {
                Some(value) => {
                    let len = self.items.len();
                    let ghost standing = self.capacity() as nat;
                    proof {
                        self.buf.lemma_elem_layout_held();
                    }
                    match self.buf.reserve(len, 1) {
                        Ok(()) => {
                            assert(standing == pushed_capacity(
                                old(self)@.len() + lower_bound as nat,
                                first,
                                (count - lower_bound) as nat,
                                size_of::<T>(),
                            ));
                            assert(pushed_capacity(
                                old(self)@.len() + lower_bound as nat,
                                first,
                                (count + 1 - lower_bound) as nat,
                                size_of::<T>(),
                            ) == reserved_capacity(
                                (old(self)@.len() + count) as nat,
                                standing,
                                1,
                                size_of::<T>(),
                            ));
                            assert(old(self).step_reserved(lower_bound as nat, count, Ok(())));
                            self.items.push(value);
                            assert(self@.take(old_len as int) =~= old(self)@);
                        },
                        Err(e) => {
                            assert(old(self).step_reserved(lower_bound as nat, count, Err(e)));
                            assert(lawful ==> items.skip(count).len() > 0);
                            assert(standing == pushed_capacity(
                                old(self)@.len() + lower_bound as nat,
                                first,
                                (count - lower_bound) as nat,
                                size_of::<T>(),
                            ));
                            self.items.truncate(old_len);
                            self.buf.rollback();
                            assert(lawful && extension_fits(
                                old(self)@.len(),
                                lower_bound as nat,
                                items.len(),
                                size_of::<T>(),
                                align_of::<T>(),
                            ) ==> !(growth(
                                old(self)@.len() + count as nat,
                                standing,
                                1,
                                size_of::<T>(),
                                align_of::<T>(),
                            ) is Overflow)) by {
                                if lawful && extension_fits(
                                    old(self)@.len(),
                                    lower_bound as nat,
                                    items.len(),
                                    size_of::<T>(),
                                    align_of::<T>(),
                                ) {
                                    lemma_extension_step_fits(
                                        old(self)@.len(),
                                        standing,
                                        lower_bound as nat,
                                        items.len(),
                                        count as nat,
                                        size_of::<T>(),
                                        align_of::<T>(),
                                    );
                                }
                            }
                            assert(pushed_capacity(
                                old(self)@.len() + lower_bound as nat,
                                first,
                                (count - lower_bound) as nat,
                                size_of::<T>(),
                            ) >= first && (old(self)@.len() + count <= first ==> pushed_capacity(
                                old(self)@.len() + lower_bound as nat,
                                first,
                                (count - lower_bound) as nat,
                                size_of::<T>(),
                            ) == first)) by {
                                lemma_pushed_capacity_bounds(
                                    old(self)@.len() + lower_bound as nat,
                                    first,
                                    (count - lower_bound) as nat,
                                    size_of::<T>(),
                                );
                            }
                            return Err(e);
                        },
                    }
                },
                None => {
                    self.buf.commit();
                    assert(lawful ==> items.take(count) =~= items);
                    return Ok(());
                },
            }
        }
    }
}

impl<T: Claim, A: Allocator> Vec<T, A> {
    /// Appends a clone of each element of `slice`, after making room for all
    /// of them in one reservation. When it fails the array is as it was.
    pub fn extend_from_slice(&mut self, slice: &[T]) -> (r: Result<(), TryReserveError>)
        requires
            old(self).wf(),
        ensures
            old(self).reserved(slice@.len(), r, final(self)),
            r is Ok ==> extended_by_clones(old(self)@, slice@, final(self)@),
            r is Err ==> *final(self) == *old(self),
    {
        match self.reserve(slice.len()) {
            Ok(()) => {
                self.items.extend_from_slice(slice);
                Ok(())
            },
            Err(e) => Err(e),
        }
    }

    /// Appends `additional` clones of `value`, after making room for all of
    /// them in one reservation. When it fails the array is as it was.
    pub fn extend_with(&mut self, additional: usize, value: T) -> (r: Result<(), TryReserveError>)
        requires
            old(self).wf(),
        ensures
            old(self).reserved(additional as nat, r, final(self)),
            r is Ok ==> extended_by_clones(
                old(self)@,
                Seq::new(additional as nat, |i: int| value),
                final(self)@,
            ),
            r is Err ==> *final(self) == *old(self),
    {
        match self.reserve(additional) {
            Ok(()) => {},
            Err(e) => {
                return Err(e);
            },
        }
        let ghost reserved = *self;
        let mut written: usize = 0;
        while written < additional
            invariant
                self.wf(),
                written <= additional,
                reserved@.len() + additional <= self.capacity(),
                self.capacity() == reserved.capacity(),
                self.spec_allocator() == reserved.spec_allocator(),
                extended_by_clones(reserved@, Seq::new(written as nat, |i: int| value), self@),
            decreases additional - written,
        {
            self.push_within_capacity(value.clone());
            written += 1;
        }
        Ok(())
    }

    /// Makes the length `new_len`: by appending clones of `value`, after one
    /// reservation for all of them, or by dropping the elements from index
    /// `new_len` on, which leaves the capacity as it is.
    pub fn resize(&mut self, new_len: usize, value: T) -> (r: Result<(), TryReserveError>)
        requires
            old(self).wf(),
        ensures
            new_len > old(self)@.len() ==> {
                &&& old(self).reserved((new_len - old(self)@.len()) as nat, r, final(self))
                &&& r is Ok ==> extended_by_clones(
                    old(self)@,
                    Seq::new((new_len - old(self)@.len()) as nat, |i: int| value),
                    final(self)@,
                )
                &&& r is Err ==> *final(self) == *old(self)
            },
            new_len <= old(self)@.len() ==> {
                &&& r is Ok
                &&& final(self).wf()
                &&& final(self)@ == old(self)@.take(new_len as int)
                &&& final(self).capacity() == old(self).capacity()
                &&& final(self).spec_allocator() == old(self).spec_allocator()
            },
    {
        let len = self.len();
        if new_len > len {
            self.extend_with(new_len - len, value)
        } else {
            self.truncate(new_len);
            Ok(())
        }
    }
}

impl<T, A: Allocator> std::ops::Deref for Vec<T, A> {
    type Target = [T];

    /// The elements, in order.
    fn deref(&self) -> (slice: &[T])
        ensures
            slice@ == self@,
    {
        self.items.as_slice()
    }
}

impl<T, I: std::slice::SliceIndex<[T]>, A: Allocator> std::ops::Index<I> for Vec<T, A> {
    type Output = I::Output;

    /// What `index` picks of the elements: one of them for a number, a slice
    /// of them for a range.
    fn index(&self, index: I) -> (output: &I::Output)
        ensures
            exists|slice: &[T]|
                {
                    &&& #[trigger] slice@ == self@
                    &&& call_ensures(
                        <I as std::slice::SliceIndex<[T]>>::index,
                        (index, slice),
                        output,
                    )
                },
    {
        std::ops::Index::index(self.items.as_slice(), index)
    }
}

impl<T, I: std::slice::SliceIndex<[T]>, A: Allocator> vstd::std_specs::core::IndexSpecImpl<I> for Vec<T, A> {
    open spec fn index_req(&self, index: &I) -> bool {
        forall|slice: &[T]| #[trigger] slice@ == self@ ==> index.index_req(slice)
    }
}

impl<T, A: Allocator> std::ops::DerefMut for Vec<T, A> {
    /// The elements, in order, to be changed in place: what is written into
    /// the slice is what the array holds afterwards. The capacity stays, and
    /// the array is well formed as long as it has as many elements as before,
    /// which is all that a slice can have.
    fn deref_mut(&mut self) -> (slice: &mut [T])
        ensures
            slice@ == old(self)@,
            final(slice)@ == final(self)@,
            final(self).capacity() == old(self).capacity(),
            final(self).spec_allocator() == old(self).spec_allocator(),
            old(self).wf() && final(self)@.len() == old(self)@.len() ==> final(self).wf(),
    {
        self.items.as_mut_slice()
    }
}

impl<T, A: Allocator> AsMut<[T]> for Vec<T, A> {
    /// The elements, in order, to be changed in place: what is written into
    /// the slice is what the array holds afterwards. The capacity stays, and
    /// the array is well formed as long as it has as many elements as before,
    /// which is all that a slice can have.
    fn as_mut(&mut self) -> (slice: &mut [T])
        ensures
            slice_of(slice, old(self)@),
            slice_of(final(slice), final(self)@),
            final(self).capacity() == old(self).capacity(),
            final(self).spec_allocator() == old(self).spec_allocator(),
            old(self).wf() && final(self)@.len() == old(self)@.len() ==> final(self).wf(),
    {
        self.items.as_mut_slice()
    }
}

impl<T, A: Allocator> AsMut<Vec<T, A>> for Vec<T, A> {
    /// The array itself, to be changed in place.
    fn as_mut(&mut self) -> (vec: &mut Vec<T, A>)
        ensures
            same_array(vec, old(self)),
            same_array(final(vec), final(self)),
    {
        self
    }
}

impl<T, A: Allocator> std::ops::IndexMut<usize> for Vec<T, A> {
    /// The element at `index`, to be changed in place.
    fn index_mut(&mut self, index: usize) -> (element: &mut T)
        requires
            index < old(self)@.len(),
        ensures
            *element == old(self)@[index as int],
            final(self)@ == old(self)@.update(index as int, *final(element)),
            final(self).capacity() == old(self).capacity(),
            final(self).spec_allocator() == old(self).spec_allocator(),
            old(self).wf() ==> final(self).wf(),
    {
        &mut self.items[index]
    }
}

impl<T, A: Allocator> AsRef<Vec<T, A>> for Vec<T, A> {
    /// The array itself.
    fn as_ref(&self) -> (vec: &Vec<T, A>)
        ensures
            same_array(vec, self),
    {
        self
    }
}

impl<T, A: Allocator> AsRef<[T]> for Vec<T, A> {
    /// The elements, in order.
    fn as_ref(&self) -> (slice: &[T])
        ensures
            slice_of(slice, self@),
    {
        self.items.as_slice()
    }
}


impl<T: Claim, A: Allocator + Claim> TryClone for Vec<T, A> {
    type Error = TryReserveError;

    /// An array of clones of the elements, in a clone of the allocator.
    ///
    /// The slots of the new array, one for each element, are asked for in one
    /// request; there is none for an empty array or for elements without
    /// size. When the request is refused no array is made. `self` is not
    /// touched either way.
    fn try_clone(&self) -> (r: Result<Self, TryReserveError>)
        ensures
            r matches Ok(copy) ==> copy.wf() && clones_of(self@, copy@),
            exists|alloc: A|
                {
                    &&& #[trigger] cloned::<A>(self.spec_allocator(), alloc)
                    &&& r matches Ok(copy) ==> copy.spec_allocator() == alloc
                    &&& exact_reserved_of(
                        alloc,
                        self@.len(),
                        size_of::<T>(),
                        align_of::<T>(),
                        match r {
                            Ok(copy) => Ok(copy.capacity()),
                            Err(e) => Err(e),
                        },
                    )
                    &&& r matches Err(TryReserveError::AllocError { .. })
                        ==> !alloc.never_refuses()
                },
    {
        let alloc = self.allocator().clone();
        let mut copy = match Self::with_capacity_in(self.len(), alloc) {
            Ok(copy) => copy,
            Err(e) => {
                assert(cloned::<A>(self.spec_allocator(), alloc));
                return Err(e);
            },
        };
        match copy.extend_from_slice(self.as_slice()) {
            Ok(()) => {
                assert(cloned::<A>(self.spec_allocator(), alloc));
                assert forall|i: int| 0 <= i < self@.len() implies cloned::<T>(
                    self@[i],
                    #[trigger] copy@[i],
                ) by {
                    assert(copy@[i] == copy@[0 + i]);
                }
                Ok(copy)
            },
            Err(e) => Err(e),
        }
    }
}

/// `Vec::iter_mut` of std: an iterator that gives a mutable reference to
/// each element, from the first to the last, and then ends. What the caller
/// writes through a reference is the element that the array holds afterwards,
/// and the array has as many elements as before.
#[verifier::external_body]
fn vec_iter_mut<'a, T>(items: &'a mut std::vec::Vec<T>) -> (iter: std::slice::IterMut<'a, T>)
    ensures
        iter.obeys_prophetic_iter_laws(),
        iter.decrease() is Some,
        refs_to(iter.remaining(), old(items)@),
        final(items)@.len() == old(items)@.len(),
        forall|i: int|
            0 <= i < old(items)@.len() ==> #[trigger] final(items)@[i]
                == *final(iter.remaining()[i]),
{
    items.iter_mut()
}

/// The iterator that `Vec::iter_mut` of std returns.
#[verifier::external_type_specification]
#[verifier::external_body]
#[verifier::reject_recursive_types(T)]
pub struct ExSliceIterMut<'a, T: 'a>(std::slice::IterMut<'a, T>);

/// `Iterator::size_hint`: the least number of items that `iter` says it has
/// left. An iterator may say anything, so nothing is claimed of the number.
#[verifier::external_body]
fn lower_size_hint<I: Iterator>(iter: &I) -> usize {
    iter.size_hint().0
}

} // verus!
