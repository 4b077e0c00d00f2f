//! A double-ended queue that asks its allocator for every slot.

use vstd::prelude::*;
use vstd::layout::{align_of, size_of};
use vstd::std_specs::cmp::PartialEqSpec;
use vstd::std_specs::iter::IteratorSpec;
use std::collections::vec_deque::{Iter, IterMut};
use std::ops::Range;
use crate::allocator::{Allocator, TryReserveError};
use crate::claim::Claim;
use crate::raw_buf::{
    exact_growth, exact_reserved_of, growth, lemma_reserved_needs_no_growth, reserved_of, Growth,
    RawBuf,
};
use crate::try_clone::TryClone;
use crate::vec::{clones_of, refs_to, Vec};

verus! {

/// A double-ended queue whose capacity is asked of the allocator `A`.
///
/// The queue is a sequence of elements, its view, with the front at index 0,
/// and a capacity that is never less than its length. Only the operations
/// that reserve capacity ask anything of the allocator, and each of them
/// leaves the queue unchanged when it fails.
pub struct VecDeque<T, A: Allocator> {
    // The elements come first, so that they are dropped before the slots are
    // handed back.
    items: std::collections::VecDeque<T>,
    buf: RawBuf<A>,
}

impl<T, A: Allocator> View for VecDeque<T, A> {
    type V = Seq<T>;

    closed spec fn view(&self) -> Seq<T> {
        self.items@
    }
}

impl<T, A: Allocator> VecDeque<T, A> {
    /// The invariant of a queue: its length is at most its capacity, its slots
    /// have the size and alignment of `T`, and it keeps no block back.
    pub closed spec fn wf(&self) -> bool {
        &&& self.buf.wf()
        &&& !self.buf.keeping()
        &&& self.items@.len() <= self.buf.capacity()
        &&& self.buf.elem_size() == size_of::<T>()
        &&& self.buf.align() == align_of::<T>()
    }

    /// The number of slots held.
    pub closed spec fn spec_capacity(&self) -> usize {
        self.buf.spec_capacity()
    }

    /// The allocator that the slots are asked of.
    pub closed spec fn spec_allocator(&self) -> A {
        self.buf.spec_allocator()
    }

    /// What reserving room for `additional` more elements comes to.
    pub open spec fn growth(&self, additional: nat) -> Growth {
        growth(
            self@.len(),
            self.capacity() as nat,
            additional,
            size_of::<T>(),
            align_of::<T>(),
        )
    }

    /// Whether `r` is how reserving `additional` slots in `self` can end, with
    /// `after` the queue that is left.
    pub open spec fn reserved(
        &self,
        additional: nat,
        r: Result<(), TryReserveError>,
        after: &Self,
    ) -> bool {
        &&& after.wf()
        &&& after.spec_allocator() == self.spec_allocator()
        &&& reserved_of(
            self.spec_allocator(),
            self@.len(),
            self.capacity() as nat,
            additional,
            size_of::<T>(),
            align_of::<T>(),
            r,
            after.capacity() as nat,
        )
        &&& r matches Err(TryReserveError::AllocError { .. })
            ==> !self.spec_allocator().never_refuses()
    }

    /// The length of a queue is at most its capacity.
    pub proof fn lemma_len_le_capacity(&self)
        requires
            self.wf(),
        ensures
            self@.len() <= self.capacity(),
    {
    }

    /// After `reserve(n)` has succeeded and left `reserved`, each of the next
    /// `n` elements finds room: with `pushed` of them in, `pushed < n`, the
    /// reservation for one more asks nothing of the allocator, succeeds and
    /// leaves the capacity as it is.
    pub proof fn lemma_reserved_pushes_fit(&self, n: nat, reserved: &Self, pushed: nat)
        requires
            self.wf(),
            self.reserved(n, Ok(()), reserved),
            pushed < n,
        ensures
            growth(
                self@.len() + pushed,
                reserved.capacity() as nat,
                1,
                size_of::<T>(),
                align_of::<T>(),
            ) is Unneeded,
            self@.len() + n <= reserved.capacity(),
    {
        lemma_reserved_needs_no_growth(
            self@.len(),
            self.capacity() as nat,
            n,
            size_of::<T>(),
            align_of::<T>(),
            reserved.capacity() as nat,
            pushed,
        );
    }

    /// With an allocator that never refuses, a reservation fails only where
    /// the capacity needed cannot be laid out, and then with
    /// `CapacityOverflow`.
    pub proof fn lemma_never_refused(
        &self,
        additional: nat,
        r: Result<(), TryReserveError>,
        after: &Self,
    )
        requires
            self.reserved(additional, r, after),
            self.spec_allocator().never_refuses(),
        ensures
            r is Err <==> self.growth(additional) is Overflow,
            r is Err ==> r == Err::<(), _>(TryReserveError::CapacityOverflow),
            after.spec_allocator().never_refuses(),
    {
    }

    /// The slots for a clone can be laid out: a clone is refused by the
    /// allocator or not at all.
    pub proof fn lemma_clone_fits(&self)
        requires
            self.wf(),
        ensures
            !(exact_growth(self@.len(), size_of::<T>(), align_of::<T>()) is Overflow),
    {
        if size_of::<T>() > 0 {
            self.buf.lemma_capacity_fits(self@.len());
        }
    }

    /// An empty queue that holds no slot. Nothing is asked of `alloc`.
    ///
    /// A queue of elements without size needs no slot: its capacity is
    /// `usize::MAX` from the start.
    pub fn new_in(alloc: A) -> (q: Self)
        ensures
            q.wf(),
            q@ == Seq::<T>::empty(),
            q.spec_allocator() == alloc,
            q.capacity() == if size_of::<T>() == 0 { usize::MAX } else { 0 },
    {
        VecDeque { items: std::collections::VecDeque::new(), buf: RawBuf::new::<T>(alloc) }
    }

    /// The queue of the elements of `vec`, in order, in the slots that `vec`
    /// held: nothing is asked of the allocator.
    pub fn from(vec: Vec<T, A>) -> (q: Self)
        requires
            vec.wf(),
        ensures
            q.wf(),
            q@ == vec@,
            q.capacity() == vec.capacity(),
            q.spec_allocator() == vec.spec_allocator(),
    {
        let (buf, items) = vec.into_parts();
        VecDeque { items: ring_from_vec(items), buf }
    }

    /// An empty queue of exactly `capacity` slots, asked of `alloc` in one
    /// request.
    ///
    /// No request is made for a capacity of zero or for elements without size.
    /// Where the request is refused, or cannot be made because that many slots
    /// cannot be laid out, no queue is made and nothing is held.
    pub fn with_capacity_in(capacity: usize, alloc: A) -> (r: Result<Self, TryReserveError>)
        ensures
            r matches Ok(q) ==> q.wf() && q@ == Seq::<T>::empty() && q.spec_allocator() == alloc,
            exact_reserved_of(
                alloc,
                capacity as nat,
                size_of::<T>(),
                align_of::<T>(),
                match r {
                    Ok(q) => Ok(q.capacity()),
                    Err(e) => Err(e),
                },
            ),
            r matches Err(TryReserveError::AllocError { .. }) ==> !alloc.never_refuses(),
    {
        match Vec::with_capacity_in(capacity, alloc) {
            Ok(vec) => Ok(Self::from(vec)),
            Err(e) => Err(e),
        }
    }

    /// The allocator that the slots are asked of.
    pub fn allocator(&self) -> (alloc: &A)
        ensures
            *alloc == self.spec_allocator(),
    {
        self.buf.allocator()
    }

    /// The number of elements the queue can hold without asking for more.
    #[verifier::when_used_as_spec(spec_capacity)]
    pub fn capacity(&self) -> (cap: usize)
        ensures
            cap == self.spec_capacity(),
            self.wf() ==> self@.len() <= cap,
    {
        self.buf.capacity()
    }

    /// The number of elements.
    pub fn len(&self) -> (len: usize)
        ensures
            len == self@.len(),
    {
        self.items.len()
    }

    /// Whether the queue has no element.
    pub fn is_empty(&self) -> (empty: bool)
        ensures
            empty == (self@.len() == 0),
    {
        self.items.len() == 0
    }

    /// The element at `index`, counted from the front, if there is one.
    pub fn get(&self, index: usize) -> (r: Option<&T>)
        ensures
            r == if index < self@.len() { Some(&self@[index as int]) } else { None },
    {
        if index < self.items.len() {
            Some(&self.items[index])
        } else {
            None
        }
    }

    /// The first element, if there is one.
    pub fn front(&self) -> (r: Option<&T>)
        ensures
            r == if self@.len() > 0 { Some(&self@.first()) } else { None },
    {
        self.get(0)
    }

    /// The last element, if there is one.
    pub fn back(&self) -> (r: Option<&T>)
        ensures
            r == if self@.len() > 0 { Some(&self@.last()) } else { None },
    {
        let len = self.items.len();
        if len > 0 {
            self.get(len - 1)
        } else {
            None
        }
    }

    /// Makes room for `additional` more elements.
    ///
    /// The elements stay as they are. See `reserve_result` for when the
    /// allocator is asked and what the capacity becomes.
    pub fn reserve(&mut self, additional: usize) -> (r: Result<(), TryReserveError>)
        requires
            old(self).wf(),
        ensures
            old(self).reserved(additional as nat, r, final(self)),
            final(self)@ == old(self)@,
            r is Ok ==> final(self).capacity() >= old(self)@.len() + additional,
            r is Err ==> *final(self) == *old(self),
    {
        let len = self.items.len();
        self.buf.reserve(len, additional)
    }

    /// Appends `value` at the back, after making room for it.
    ///
    /// While the length is less than the capacity nothing is asked of the
    /// allocator. When the reservation fails the queue is as it was, and
    /// `value` is dropped.
    pub fn push_back(&mut self, value: T) -> (r: Result<(), TryReserveError>)
        requires
            old(self).wf(),
        ensures
            old(self).reserved(1, r, final(self)),
            r is Ok ==> final(self)@ == old(self)@.push(value),
            r is Err ==> *final(self) == *old(self),
    {
        match self.reserve(1) {
            Ok(()) => {
                self.items.push_back(value);
                Ok(())
            },
            Err(e) => Err(e),
        }
    }

    /// Puts `value` at the front, after making room for it.
    ///
    /// While the length is less than the capacity nothing is asked of the
    /// allocator. When the reservation fails the queue is as it was, and
    /// `value` is dropped.
    pub fn push_front(&mut self, value: T) -> (r: Result<(), TryReserveError>)
        requires
            old(self).wf(),
        ensures
            old(self).reserved(1, r, final(self)),
            r is Ok ==> final(self)@ == seq![value] + old(self)@,
            r is Err ==> *final(self) == *old(self),
    {
        match self.reserve(1) {
            Ok(()) => {
                self.items.push_front(value);
                Ok(())
            },
            Err(e) => Err(e),
        }
    }

    /// Takes the first element out, if there is one. The capacity stays.
    pub fn pop_front(&mut self) -> (r: Option<T>)
        requires
            old(self).wf(),
        ensures
            final(self).wf(),
            final(self).capacity() == old(self).capacity(),
            final(self).spec_allocator() == old(self).spec_allocator(),
            r == if old(self)@.len() > 0 { Some(old(self)@.first()) } else { None },
            final(self)@ == if old(self)@.len() > 0 { old(self)@.drop_first() } else { old(self)@ },
    {
        self.items.pop_front()
    }

    /// Takes the last element out, if there is one. The capacity stays.
    pub fn pop_back(&mut self) -> (r: Option<T>)
        requires
            old(self).wf(),
        ensures
            final(self).wf(),
            final(self).capacity() == old(self).capacity(),
            final(self).spec_allocator() == old(self).spec_allocator(),
            r == if old(self)@.len() > 0 { Some(old(self)@.last()) } else { None },
            final(self)@ == if old(self)@.len() > 0 { old(self)@.drop_last() } else { old(self)@ },
    {
        self.items.pop_back()
    }

    /// Puts `value` at `index`, after making room for it: the elements from
    /// `index` on move one place towards the back.
    ///
    /// When the reservation fails the queue is as it was, and `value` is
    /// dropped.
    pub fn insert(&mut self, index: usize, value: T) -> (r: Result<(), TryReserveError>)
        requires
            old(self).wf(),
            index <= old(self)@.len(),
        ensures
            old(self).reserved(1, r, final(self)),
            r is Ok ==> final(self)@ == old(self)@.insert(index as int, value),
            r is Err ==> *final(self) == *old(self),
    {
        match self.reserve(1) {
            Ok(()) => {
                self.items.insert(index, value);
                Ok(())
            },
            Err(e) => Err(e),
        }
    }

    /// Takes the element at `index` out, if there is one: the elements behind
    /// it move one place towards the front. The capacity stays.
    pub fn remove(&mut self, index: usize) -> (r: Option<T>)
        requires
            old(self).wf(),
        ensures
            final(self).wf(),
            final(self).capacity() == old(self).capacity(),
            final(self).spec_allocator() == old(self).spec_allocator(),
            r == if index < old(self)@.len() { Some(old(self)@[index as int]) } else { None },
            final(self)@ == if index < old(self)@.len() {
                old(self)@.remove(index as int)
            } else {
                old(self)@
            },
    {
        self.items.remove(index)
    }

    /// Moves every element of `other` to the back of `self`, in order, after
    /// making room for all of them in one reservation.
    ///
    /// When the reservation fails both queues are as they were. `other` keeps
    /// its capacity either way.
    pub fn append(&mut self, other: &mut Self) -> (r: Result<(), TryReserveError>)
        requires
            old(self).wf(),
            old(other).wf(),
        ensures
            old(self).reserved(old(other)@.len(), r, final(self)),
            final(other).wf(),
            final(other).capacity() == old(other).capacity(),
            final(other).spec_allocator() == old(other).spec_allocator(),
            r is Ok ==> final(self)@ == old(self)@ + old(other)@ && final(other)@ == Seq::<
                T,
            >::empty(),
            r is Err ==> *final(self) == *old(self) && *final(other) == *old(other),
    {
        match self.reserve(other.len()) {
            Ok(()) => {
                self.items.append(&mut other.items);
                Ok(())
            },
            Err(e) => Err(e),
        }
    }

    /// The element at `index`, counted from the front, to be changed in
    /// place, if there is one.
    pub fn get_mut(&mut self, index: usize) -> (r: Option<&mut T>)
        requires
            old(self).wf(),
        ensures
            final(self).wf(),
            final(self).capacity() == old(self).capacity(),
            final(self).spec_allocator() == old(self).spec_allocator(),
            match r {
                Some(slot) => {
                    &&& index < old(self)@.len()
                    &&& *slot == old(self)@[index as int]
                    &&& final(self)@ == old(self)@.update(index as int, *final(slot))
                },
                None => index >= old(self)@.len() && final(self)@ == old(self)@,
            },
    {
        ring_get_mut(&mut self.items, index)
    }

    /// The first element, to be changed in place, if there is one.
    pub fn front_mut(&mut self) -> (r: Option<&mut T>)
        requires
            old(self).wf(),
        ensures
            final(self).wf(),
            final(self).capacity() == old(self).capacity(),
            final(self).spec_allocator() == old(self).spec_allocator(),
            match r {
                Some(slot) => {
                    &&& old(self)@.len() > 0
                    &&& *slot == old(self)@.first()
                    &&& final(self)@ == old(self)@.update(0, *final(slot))
                },
                None => old(self)@.len() == 0 && final(self)@ == old(self)@,
            },
    {
        ring_get_mut(&mut self.items, 0)
    }

    /// The last element, to be changed in place, if there is one.
    pub fn back_mut(&mut self) -> (r: Option<&mut T>)
        requires
            old(self).wf(),
        ensures
            final(self).wf(),
            final(self).capacity() == old(self).capacity(),
            final(self).spec_allocator() == old(self).spec_allocator(),
            match r {
                Some(slot) => {
                    &&& old(self)@.len() > 0
                    &&& *slot == old(self)@.last()
                    &&& final(self)@ == old(self)@.update(old(self)@.len() - 1, *final(slot))
                },
                None => old(self)@.len() == 0 && final(self)@ == old(self)@,
            },
    {
        let len = self.items.len();
        if len > 0 {
            ring_get_mut(&mut self.items, len - 1)
        } else {
            None
        }
    }

    /// Lays the elements out in one piece and gives them as a slice, in
    /// order, to be changed in place. Neither the order nor the capacity
    /// changes.
    pub fn make_contiguous(&mut self) -> (slice: &mut [T])
        requires
            old(self).wf(),
        ensures
            slice@ == old(self)@,
            final(self)@ == final(slice)@,
            final(self)@.len() == old(self)@.len(),
            final(self).wf(),
            final(self).capacity() == old(self).capacity(),
            final(self).spec_allocator() == old(self).spec_allocator(),
    {
        ring_make_contiguous(&mut self.items)
    }

    /// Takes the elements of `range` out and gives them in order: those behind
    /// the range move towards the front to close the gap. The capacity stays.
    ///
    /// The elements are out of the queue when this returns, whatever is done
    /// with what it returns.
    pub fn drain(&mut self, range: Range<usize>) -> (drained: std::vec::Vec<T>)
        requires
            old(self).wf(),
            range.start <= range.end <= old(self)@.len(),
        ensures
            final(self).wf(),
            final(self).capacity() == old(self).capacity(),
            final(self).spec_allocator() == old(self).spec_allocator(),
            drained@ == old(self)@.subrange(range.start as int, range.end as int),
            final(self)@ == old(self)@.take(range.start as int) + old(self)@.skip(
                range.end as int,
            ),
            drained@.len() == range.end - range.start,
            final(self)@.len() == old(self)@.len() - (range.end - range.start),
    {
        let start = range.start;
        let end = range.end;
        let len = self.items.len();
        let ghost before = self@.take(start as int);
        let ghost taken = self@.subrange(start as int, end as int);
        let ghost behind = self@.skip(end as int);
        assert(self@ =~= before + taken + behind);
        // The elements on the shorter side of the range are the ones that
        // move: they go round to the other end, out of the way, and come
        // back once the range is out.
        if start <= len - end {
            assert(self@ =~= before + (taken + behind));
            self.rotate(start, Ghost(before), Ghost(taken + behind));
            assert(self@ =~= taken + (behind + before));
            let drained = self.take_front(end - start, Ghost(taken), Ghost(behind + before));
            self.rotate_back(start, Ghost(behind), Ghost(before));
            drained
        } else {
            self.rotate_back(len - end, Ghost(before + taken), Ghost(behind));
            assert(self@ =~= (behind + before) + taken);
            self.rotate_back(end - start, Ghost(behind + before), Ghost(taken));
            let drained = self.take_front(end - start, Ghost(taken), Ghost(behind + before));
            self.rotate(len - end, Ghost(behind), Ghost(before));
            drained
        }
    }

    /// Takes the first `count` elements out, one by one, and gives them in
    /// order: the queue that was `taken` and then `rest` is `rest`.
    fn take_front(
        &mut self,
        count: usize,
        Ghost(taken): Ghost<Seq<T>>,
        Ghost(rest): Ghost<Seq<T>>,
    ) -> (front: std::vec::Vec<T>)
        requires
            old(self).wf(),
            taken.len() == count,
            old(self)@ == taken + rest,
        ensures
            final(self).wf(),
            final(self).capacity() == old(self).capacity(),
            final(self).spec_allocator() == old(self).spec_allocator(),
            final(self)@ == rest,
            front@ == taken,
    {
        let mut front = std::vec::Vec::new();
        let mut index: usize = 0;
        while index < count
            invariant
                index <= count,
                taken.len() == count,
                self.wf(),
                self.capacity() == old(self).capacity(),
                self.spec_allocator() == old(self).spec_allocator(),
                self@ == taken.skip(index as int) + rest,
                front@ == taken.take(index as int),
            decreases count - index,
        {
            let first = self.items.pop_front();
            front.push(first.unwrap());
            index += 1;
        }
        front
    }

    /// Moves the first `count` elements from the front to the back, one by
    /// one: the queue that was `moved` and then `rest` is `rest` and then
    /// `moved`.
    fn rotate(&mut self, count: usize, Ghost(moved): Ghost<Seq<T>>, Ghost(rest): Ghost<Seq<T>>)
        requires
            old(self).wf(),
            moved.len() == count,
            old(self)@ == moved + rest,
        ensures
            final(self).wf(),
            final(self).capacity() == old(self).capacity(),
            final(self).spec_allocator() == old(self).spec_allocator(),
            final(self)@ == rest + moved,
    {
        let mut index: usize = 0;
        while index < count
            invariant
                index <= count,
                moved.len() == count,
                self.wf(),
                self.capacity() == old(self).capacity(),
                self.spec_allocator() == old(self).spec_allocator(),
                self@ == moved.skip(index as int) + rest + moved.take(index as int),
            decreases count - index,
        {
            let first = self.items.pop_front();
            self.items.push_back(first.unwrap());
            index += 1;
        }
    }

    /// Moves the last `count` elements from the back to the front, one by
    /// one: the queue that was `rest` and then `moved` is `moved` and then
    /// `rest`.
    fn rotate_back(
        &mut self,
        count: usize,
        Ghost(rest): Ghost<Seq<T>>,
        Ghost(moved): Ghost<Seq<T>>,
    )
        requires
            old(self).wf(),
            moved.len() == count,
            old(self)@ == rest + moved,
        ensures
            final(self).wf(),
            final(self).capacity() == old(self).capacity(),
            final(self).spec_allocator() == old(self).spec_allocator(),
            final(self)@ == moved + rest,
    {
        let mut index: usize = 0;
        while index < count
            invariant
                index <= count,
                moved.len() == count,
                self.wf(),
                self.capacity() == old(self).capacity(),
                self.spec_allocator() == old(self).spec_allocator(),
                self@ == moved.skip(count - index) + rest + moved.take(count - index),
            decreases count - index,
        {
            let last = self.items.pop_back();
            self.items.push_front(last.unwrap());
            index += 1;
        }
    }

    /// An iterator over the elements, front to back.
    pub fn iter(&self) -> (iter: Iter<'_, T>)
        ensures
            iter.remaining() == self@.as_ref(),
            iter.decrease() is Some,
    {
        self.items.iter()
    }

    /// An iterator over the elements of `range`, front to back.
    pub fn range(&self, range: Range<usize>) -> (iter: Iter<'_, T>)
        requires
            range.start <= range.end <= self@.len(),
        ensures
            iter.remaining() == self@.subrange(range.start as int, range.end as int).as_ref(),
            iter.decrease() is Some,
    {
        ring_range(&self.items, range.start, range.end)
    }

    /// An iterator over the elements, front to back, by which each can be
    /// changed in place: it gives one mutable reference to each element and
    /// then ends, and what is written through a reference is the element that
    /// the queue holds afterwards. The number of elements stays.
    pub fn iter_mut(&mut self) -> (iter: IterMut<'_, T>)
        requires
            old(self).wf(),
        ensures
            final(self).wf(),
            final(self).capacity() == old(self).capacity(),
            final(self).spec_allocator() == old(self).spec_allocator(),
            iter.obeys_prophetic_iter_laws(),
            iter.decrease() is Some,
            refs_to(iter.remaining(), old(self)@),
            final(self)@.len() == old(self)@.len(),
            forall|i: int|
                0 <= i < old(self)@.len() ==> #[trigger] final(self)@[i]
                    == *final(iter.remaining()[i]),
    {
        ring_iter_mut(&mut self.items)
    }

    /// An iterator over the elements of `range`, front to back, by which each
    /// can be changed in place: it gives one mutable reference to each element
    /// of the range and then ends, and what is written through a reference is
    /// the element that the queue holds afterwards. The elements outside the
    /// range stay as they are, and so does the number of elements.
    pub fn range_mut(&mut self, range: Range<usize>) -> (iter: IterMut<'_, T>)
        requires
            old(self).wf(),
            range.start <= range.end <= old(self)@.len(),
        ensures
            final(self).wf(),
            final(self).capacity() == old(self).capacity(),
            final(self).spec_allocator() == old(self).spec_allocator(),
            iter.obeys_prophetic_iter_laws(),
            iter.decrease() is Some,
            refs_to(
                iter.remaining(),
                old(self)@.subrange(range.start as int, range.end as int),
            ),
            forall|i: int|
                range.start <= i < range.end ==> #[trigger] final(self)@[i]
                    == *final(iter.remaining()[i - range.start]),
            final(self)@.len() == old(self)@.len(),
            final(self)@.take(range.start as int) == old(self)@.take(range.start as int),
            final(self)@.skip(range.end as int) == old(self)@.skip(range.end as int),
    {
        ring_range_mut(&mut self.items, range.start, range.end)
    }

    /// Drops every element. The capacity stays as it is.
    pub fn clear(&mut self)
        requires
            old(self).wf(),
        ensures
            final(self).wf(),
            final(self)@ == Seq::<T>::empty(),
            final(self).capacity() == old(self).capacity(),
            final(self).spec_allocator() == old(self).spec_allocator(),
    {
        self.items.clear();
    }
}

/// What is pushed at the back is what comes off the back, and the queue is
/// then as it was.
pub proof fn lemma_push_back_pop_back<T>(list: Seq<T>, value: T)
    ensures
        list.push(value).last() == value,
        list.push(value).drop_last() == list,
{
}

/// What is pushed at the front is what comes off the front, and the queue is
/// then as it was.
pub proof fn lemma_push_front_pop_front<T>(list: Seq<T>, value: T)
    ensures
        (seq![value] + list).first() == value,
        (seq![value] + list).drop_first() == list,
{
}

/// What goes in at the back comes out at the front after the elements that
/// were there before it, in their order.
pub proof fn lemma_push_back_keeps_front<T>(list: Seq<T>, value: T)
    requires
        list.len() > 0,
    ensures
        list.push(value).first() == list.first(),
        list.push(value).drop_first() == list.drop_first().push(value),
{
}

/// The elements of a queue that was empty before `fronts` were pushed at the
/// front and `backs` at the back, in whatever turns: what was pushed at the
/// front, the last of it first, and then what was pushed at the back, in the
/// order it came. This is the order in which `make_contiguous` lays them out.
pub open spec fn pushed_at_both_ends<T>(fronts: Seq<T>, backs: Seq<T>) -> Seq<T> {
    fronts.reverse() + backs
}

/// A push at either end keeps the elements as `pushed_at_both_ends` has them,
/// wherever the push stands among the others.
pub proof fn lemma_pushed_at_both_ends<T>(fronts: Seq<T>, backs: Seq<T>, value: T)
    ensures
        pushed_at_both_ends(Seq::<T>::empty(), Seq::<T>::empty()) == Seq::<T>::empty(),
        seq![value] + pushed_at_both_ends(fronts, backs) == pushed_at_both_ends(
            fronts.push(value),
            backs,
        ),
        pushed_at_both_ends(fronts, backs).push(value) == pushed_at_both_ends(
            fronts,
            backs.push(value),
        ),
{
    assert(fronts.push(value).reverse() =~= seq![value] + fronts.reverse());
    assert(seq![value] + pushed_at_both_ends(fronts, backs) =~= pushed_at_both_ends(
        fronts.push(value),
        backs,
    ));
    assert(pushed_at_both_ends(fronts, backs).push(value) =~= pushed_at_both_ends(
        fronts,
        backs.push(value),
    ));
    assert(pushed_at_both_ends(Seq::<T>::empty(), Seq::<T>::empty()) =~= Seq::<T>::empty());
}

/// What is put in at an index is what is taken out there, and the queue is
/// then as it was. To put in at index 0 is to push at the front, and at the
/// length to push at the back.
pub proof fn lemma_insert_remove<T>(list: Seq<T>, index: int, value: T)
    requires
        0 <= index <= list.len(),
    ensures
        list.insert(index, value)[index] == value,
        list.insert(index, value).remove(index) == list,
        list.insert(0, value) == seq![value] + list,
        list.insert(list.len() as int, value) == list.push(value),
{
}

impl<T: PartialEq, A: Allocator> VecDeque<T, A> {
    /// Whether some element equals `x`.
    pub fn contains(&self, x: &T) -> (found: bool)
        ensures
            T::obeys_eq_spec() ==> found == exists|i: int|
                0 <= i < self@.len() && #[trigger] self@[i].eq_spec(x),
    {
        let len = self.items.len();
        let mut index: usize = 0;
        while index < len
            invariant
                len == self@.len(),
                index <= len,
                T::obeys_eq_spec() ==> forall|i: int|
                    0 <= i < index ==> !(#[trigger] self@[i].eq_spec(x)),
            decreases len - index,
        {
            if self.items[index] == *x {
                return true;
            }
            index += 1;
        }
        false
    }
}

impl<T: Claim, A: Allocator + Claim> TryClone for VecDeque<T, A> {
    type Error = TryReserveError;

    /// A queue of clones of the elements, in the same order, in a clone of the
    /// allocator.
    ///
    /// The slots of the new queue, one for each element, are asked for in one
    /// request; there is none for an empty queue or for elements without
    /// size. When the request is refused no queue is made. `self` is not
    /// touched either way.
    fn try_clone(&self) -> (r: Result<Self, TryReserveError>)
        ensures
            r matches Ok(copy) ==> copy.wf() && clones_of(self@, copy@),
            exists|alloc: A|
                {
                    &&& #[trigger] cloned::<A>(self.spec_allocator(), alloc)
                    &&& r matches Ok(copy) ==> copy.spec_allocator() == alloc
                    &&& exact_reserved_of(
                        alloc,
                        self@.len(),
                        size_of::<T>(),
                        align_of::<T>(),
                        match r {
                            Ok(copy) => Ok(copy.capacity()),
                            Err(e) => Err(e),
                        },
                    )
                    &&& r matches Err(TryReserveError::AllocError { .. })
                        ==> !alloc.never_refuses()
                },
    {
        let len = self.items.len();
        let alloc = self.allocator().clone();
        let mut copy = match Self::with_capacity_in(len, alloc) {
            Ok(copy) => copy,
            Err(e) => {
                assert(cloned::<A>(self.spec_allocator(), alloc));
                return Err(e);
            },
        };
        let ghost held = copy.capacity();
        let mut index: usize = 0;
        while index < len
            invariant
                len == self@.len(),
                index <= len,
                copy.wf(),
                copy.capacity() == held,
                len <= held,
                copy.spec_allocator() == alloc,
                clones_of(self@.take(index as int), copy@),
            decreases len - index,
        {
            let value = self.items[index].clone();
            copy.items.push_back(value);
            index += 1;
        }
        assert(cloned::<A>(self.spec_allocator(), alloc));
        Ok(copy)
    }
}

/// `VecDeque::get_mut` of std: a reference to the element at `index`, by which
/// the caller can replace that element and no other, or nothing when `index`
/// is not less than the length.
#[verifier::external_body]
fn ring_get_mut<T>(ring: &mut std::collections::VecDeque<T>, index: usize) -> (r: Option<&mut T>)
    ensures
        match r {
            Some(slot) => {
                &&& index < old(ring)@.len()
                &&& *slot == old(ring)@[index as int]
                &&& final(ring)@ == old(ring)@.update(index as int, *final(slot))
            },
            None => index >= old(ring)@.len() && final(ring)@ == old(ring)@,
        },
{
    ring.get_mut(index)
}

/// `VecDeque::make_contiguous` of std: the elements as one slice, in the order
/// they have in the queue. What the caller writes into the slice is what the
/// queue holds afterwards.
#[verifier::external_body]
fn ring_make_contiguous<T>(ring: &mut std::collections::VecDeque<T>) -> (slice: &mut [T])
    ensures
        slice@ == old(ring)@,
        final(ring)@ == final(slice)@,
        final(slice)@.len() == old(ring)@.len(),
{
    ring.make_contiguous()
}

/// `VecDeque::range` of std: an iterator that gives a reference to each
/// element of the range, front to back, and then ends. It panics on a range
/// that is not within the queue, which `requires` leaves out.
#[verifier::external_body]
fn ring_range<'a, T>(ring: &'a std::collections::VecDeque<T>, start: usize, end: usize) -> (iter:
    Iter<'a, T>)
    requires
        start <= end <= ring@.len(),
    ensures
        iter.remaining() == ring@.subrange(start as int, end as int).as_ref(),
        iter.decrease() is Some,
{
    ring.range(start..end)
}

/// `VecDeque::iter_mut` of std: an iterator that gives a mutable reference to
/// each element, front to back, and then ends. What the caller writes through
/// a reference is the element that the queue holds afterwards, and the queue
/// has as many elements as before.
#[verifier::external_body]
fn ring_iter_mut<'a, T>(ring: &'a mut std::collections::VecDeque<T>) -> (iter: IterMut<'a, T>)
    ensures
        iter.obeys_prophetic_iter_laws(),
        iter.decrease() is Some,
        refs_to(iter.remaining(), old(ring)@),
        final(ring)@.len() == old(ring)@.len(),
        forall|i: int|
            0 <= i < old(ring)@.len() ==> #[trigger] final(ring)@[i]
                == *final(iter.remaining()[i]),
{
    ring.iter_mut()
}

/// `VecDeque::range_mut` of std: an iterator that gives a mutable reference to
/// each element of the range, front to back, and then ends. What the caller
/// writes through a reference is the element that the queue holds afterwards;
/// the queue has as many elements as before, and those outside the range are
/// the same. It panics on a range that is not within the queue, which
/// `requires` leaves out.
#[verifier::external_body]
fn ring_range_mut<'a, T>(
    ring: &'a mut std::collections::VecDeque<T>,
    start: usize,
    end: usize,
) -> (iter: IterMut<'a, T>)
    requires
        start <= end <= old(ring)@.len(),
    ensures
        iter.obeys_prophetic_iter_laws(),
        iter.decrease() is Some,
        refs_to(iter.remaining(), old(ring)@.subrange(start as int, end as int)),
        forall|i: int|
            start <= i < end ==> #[trigger] final(ring)@[i]
                == *final(iter.remaining()[i - start]),
        final(ring)@.len() == old(ring)@.len(),
        final(ring)@.take(start as int) == old(ring)@.take(start as int),
        final(ring)@.skip(end as int) == old(ring)@.skip(end as int),
{
    ring.range_mut(start..end)
}

/// `VecDeque::from` of std for a `Vec`: the queue of the same elements in the
/// same order.
#[verifier::external_body]
fn ring_from_vec<T>(items: std::vec::Vec<T>) -> (ring: std::collections::VecDeque<T>)
    ensures
        ring@ == items@,
{
    std::collections::VecDeque::from(items)
}

/// The iterator that `VecDeque::iter_mut` and `VecDeque::range_mut` of std
/// return.
#[verifier::external_type_specification]
#[verifier::external_body]
#[verifier::reject_recursive_types(T)]
pub struct ExIterMut<'a, T: 'a>(IterMut<'a, T>);

} // verus!
