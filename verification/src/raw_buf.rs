//! The account of a container's slots: how many it holds, and how it grows.

use vstd::prelude::*;
use vstd::layout::{align_of, size_of};
use crate::allocator::{AllocError, Allocator, TryReserveError};

verus! {

/// The least capacity a buffer grows to from none: small elements get more
/// slots at once, so that the first pushes do not each ask for a block.
pub open spec fn min_non_zero_cap(elem_size: nat) -> nat {
    if elem_size == 1 {
        8
    } else if elem_size <= 1024 {
        4
    } else {
        1
    }
}

/// The capacity a buffer of `cap` slots grows to when `required` are needed:
/// twice what it had, or what is required if that is more, and never less than
/// `min_non_zero_cap`.
pub open spec fn amortized_capacity(cap: nat, required: nat, elem_size: nat) -> nat {
    let doubled = if 2 * cap >= required { 2 * cap } else { required };
    if doubled >= min_non_zero_cap(elem_size) {
        doubled
    } else {
        min_non_zero_cap(elem_size)
    }
}

/// Whether `cap` slots of `elem_size` bytes, aligned to `align`, make a block
/// that can be asked for: its size, rounded up to the alignment, is at most
/// `isize::MAX`.
pub open spec fn layout_fits(cap: nat, elem_size: nat, align: nat) -> bool {
    cap * elem_size <= isize::MAX - (align - 1)
}

/// Whether a buffer of `cap` slots, `len` of them in use, has to grow before
/// `additional` more elements go in.
pub open spec fn needs_to_grow(len: nat, cap: nat, additional: nat) -> bool {
    additional > cap - len
}

/// What a reservation comes to, before the allocator is asked.
pub enum Growth {
    /// There is room already: nothing is asked of the allocator.
    Unneeded,
    /// The capacity needed cannot be laid out: the reservation fails.
    Overflow,
    /// A block of `size` bytes for `cap` slots is asked of the allocator,
    /// which decides.
    Block { cap: nat, size: nat },
}

/// What reserving room for `additional` more elements comes to, in a buffer of
/// `cap` slots of `elem_size` bytes aligned to `align`, `len` of them in use.
pub open spec fn growth(len: nat, cap: nat, additional: nat, elem_size: nat, align: nat) -> Growth {
    let target = amortized_capacity(cap, len + additional, elem_size);
    if !needs_to_grow(len, cap, additional) {
        Growth::Unneeded
    } else if elem_size == 0 || len + additional > usize::MAX || !layout_fits(
        target,
        elem_size,
        align,
    ) {
        Growth::Overflow
    } else {
        Growth::Block { cap: target, size: target * elem_size }
    }
}

/// What asking for exactly `cap` slots comes to in a buffer that holds none.
pub open spec fn exact_growth(cap: nat, elem_size: nat, align: nat) -> Growth {
    if cap == 0 || elem_size == 0 {
        Growth::Unneeded
    } else if !layout_fits(cap, elem_size, align) {
        Growth::Overflow
    } else {
        Growth::Block { cap, size: cap * elem_size }
    }
}

/// Whether `r` is how asking for exactly `capacity` slots of `elem_size` bytes
/// aligned to `align` can end: with the capacity held, or with an error.
///
/// A capacity of zero, or elements without size, need no block: nothing is
/// asked, and the capacity is zero, or `usize::MAX` for such elements. Where
/// that many slots cannot be laid out, it fails with `CapacityOverflow`.
/// Otherwise the allocator decides between the capacity asked for and a
/// failure that names the request.
pub open spec fn exact_reserve_result(
    capacity: nat,
    elem_size: nat,
    align: nat,
    r: Result<usize, TryReserveError>,
) -> bool {
    match exact_growth(capacity, elem_size, align) {
        Growth::Unneeded => r == Ok::<_, TryReserveError>(
            if elem_size == 0 {
                usize::MAX
            } else {
                0usize
            },
        ),
        Growth::Overflow => r == Err::<usize, _>(TryReserveError::CapacityOverflow),
        Growth::Block { cap, size } => match r {
            Ok(held) => held == cap,
            Err(e) => e == (TryReserveError::AllocError {
                size: size as usize,
                align: align as usize,
            }),
        },
    }
}

/// Whether `r` and `cap_after` are how a reservation of `additional` slots can
/// end in a container of `len` elements and `cap` slots of `elem_size` bytes
/// aligned to `align`.
///
/// With room for them, it succeeds and the capacity stays. Where the capacity
/// needed cannot be laid out, it fails with `CapacityOverflow`. Otherwise the
/// allocator decides: the capacity becomes the one that `growth` gives, or the
/// reservation fails with the request that was refused and the capacity stays.
pub open spec fn reserve_result(
    len: nat,
    cap: nat,
    additional: nat,
    elem_size: nat,
    align: nat,
    r: Result<(), TryReserveError>,
    cap_after: nat,
) -> bool {
    match growth(len, cap, additional, elem_size, align) {
        Growth::Unneeded => r is Ok && cap_after == cap,
        Growth::Overflow => r == Err::<(), _>(TryReserveError::CapacityOverflow) && cap_after
            == cap,
        Growth::Block { cap: target, size } => match r {
            Ok(()) => cap_after == target,
            Err(e) => {
                &&& e == (TryReserveError::AllocError {
                    size: size as usize,
                    align: align as usize,
                })
                &&& cap_after == cap
            },
        },
    }
}

/// Whether `alloc` answers a request for a block of `size` bytes aligned to
/// `align` as `granted` names: with the block, or with a refusal. Of an
/// allocator that may do either, nothing but its answer to a call shows it.
pub open spec fn answered<A: Allocator>(alloc: A, size: nat, align: nat, granted: bool) -> bool {
    exists|answer: Result<(), AllocError>|
        {
            &&& #[trigger] call_ensures(
                A::allocate,
                (&alloc, size as usize, align as usize),
                answer,
            )
            &&& answer is Ok <==> granted
        }
}

/// Whether `r` and `cap_after` are how a reservation of `additional` slots,
/// asked of `alloc`, can end: as `reserve_result` says, and, where a block is
/// asked for, with the answer that `alloc` gave to that request.
pub open spec fn reserved_of<A: Allocator>(
    alloc: A,
    len: nat,
    cap: nat,
    additional: nat,
    elem_size: nat,
    align: nat,
    r: Result<(), TryReserveError>,
    cap_after: nat,
) -> bool {
    &&& reserve_result(len, cap, additional, elem_size, align, r, cap_after)
    &&& growth(len, cap, additional, elem_size, align) matches Growth::Block { cap: _, size }
        ==> answered(alloc, size, align, r is Ok)
}

/// Whether `r` is how asking `alloc` for exactly `capacity` slots can end: as
/// `exact_reserve_result` says, and, where a block is asked for, with the
/// answer that `alloc` gave to that request.
pub open spec fn exact_reserved_of<A: Allocator>(
    alloc: A,
    capacity: nat,
    elem_size: nat,
    align: nat,
    r: Result<usize, TryReserveError>,
) -> bool {
    &&& exact_reserve_result(capacity, elem_size, align, r)
    &&& exact_growth(capacity, elem_size, align) matches Growth::Block { cap: _, size }
        ==> answered(alloc, size, align, r is Ok)
}

/// An allocator that never refuses has refused no request.
pub proof fn lemma_never_refuses_answers<A: Allocator>(alloc: A, size: nat, align: nat)
    requires
        alloc.never_refuses(),
    ensures
        !answered(alloc, size, align, false),
{
}

/// The capacity that one successful reservation of `additional` slots leaves.
pub open spec fn reserved_capacity(len: nat, cap: nat, additional: nat, elem_size: nat) -> nat {
    if needs_to_grow(len, cap, additional) {
        amortized_capacity(cap, len + additional, elem_size)
    } else {
        cap
    }
}

/// The capacity after `count` elements have gone, one by one and each after a
/// successful reservation of its own, into a container that had `len`
/// elements and `cap` slots.
pub open spec fn pushed_capacity(len: nat, cap: nat, count: nat, elem_size: nat) -> nat
    decreases count,
{
    if count == 0 {
        cap
    } else {
        reserved_capacity(
            (len + count - 1) as nat,
            pushed_capacity(len, cap, (count - 1) as nat, elem_size),
            1,
            elem_size,
        )
    }
}

/// The capacity that stands when item `index` of an extension comes to be
/// appended, every reservation before it having been granted: the one that
/// the first reservation, of `lower_bound` slots, left, grown by the pushes of
/// the items from `lower_bound` on. With `index` the number of items, it is the
/// capacity that the extension leaves.
pub open spec fn extension_capacity(
    len: nat,
    cap: nat,
    lower_bound: nat,
    index: nat,
    elem_size: nat,
) -> nat {
    let first = reserved_capacity(len, cap, lower_bound, elem_size);
    if index <= lower_bound {
        first
    } else {
        pushed_capacity(len + lower_bound, first, (index - lower_bound) as nat, elem_size)
    }
}

/// Whether `r` is how the reservation for item `index` of an extension, asked
/// of `alloc`, can end. The items before `lower_bound` need none.
pub open spec fn extension_step<A: Allocator>(
    alloc: A,
    len: nat,
    cap: nat,
    lower_bound: nat,
    index: nat,
    elem_size: nat,
    align: nat,
    r: Result<(), TryReserveError>,
) -> bool {
    reserved_of(
        alloc,
        len + index,
        extension_capacity(len, cap, lower_bound, index, elem_size),
        1,
        elem_size,
        align,
        r,
        if r is Ok {
            extension_capacity(len, cap, lower_bound, index + 1, elem_size)
        } else {
            extension_capacity(len, cap, lower_bound, index, elem_size)
        },
    )
}

/// Whether an extension of `len` elements by `count` items, with a first
/// reservation of `lower_bound` slots, asks for no block that cannot be laid
/// out: twice the slots that it can come to need, and eight more, still make
/// a block.
pub open spec fn extension_fits(
    len: nat,
    lower_bound: nat,
    count: nat,
    elem_size: nat,
    align: nat,
) -> bool {
    let most = if lower_bound >= count {
        lower_bound
    } else {
        count
    };
    if elem_size == 0 {
        len + most <= usize::MAX
    } else {
        layout_fits(2 * (len + most) + 8, elem_size, align)
    }
}

/// A block of fewer slots than one that can be laid out can be laid out.
pub proof fn lemma_layout_fits_fewer(fewer: nat, cap: nat, elem_size: nat, align: nat)
    requires
        fewer <= cap,
        layout_fits(cap, elem_size, align),
    ensures
        layout_fits(fewer, elem_size, align),
{
    assert(fewer * elem_size <= cap * elem_size) by (nonlinear_arith)
        requires
            fewer <= cap,
    ;
}

/// Where an extension fits, its first reservation does not overflow.
pub proof fn lemma_extension_first_fits(
    len: nat,
    cap: nat,
    lower_bound: nat,
    count: nat,
    elem_size: nat,
    align: nat,
)
    requires
        len <= cap,
        1 <= align,
        elem_size == 0 ==> cap == usize::MAX,
        extension_fits(len, lower_bound, count, elem_size, align),
    ensures
        !(growth(len, cap, lower_bound, elem_size, align) is Overflow),
{
    if elem_size > 0 && needs_to_grow(len, cap, lower_bound) {
        let most = if lower_bound >= count {
            lower_bound
        } else {
            count
        };
        lemma_layout_fits_fewer(
            amortized_capacity(cap, len + lower_bound, elem_size),
            2 * (len + most) + 8,
            elem_size,
            align,
        );
        lemma_layout_fits_fewer(len + lower_bound, 2 * (len + most) + 8, elem_size, align);
        lemma_slots_bounded(len + lower_bound, elem_size, isize::MAX as nat);
    }
}

/// Where an extension fits, the reservation for one of its items does not
/// overflow, whatever capacity stands when the item comes.
pub proof fn lemma_extension_step_fits(
    len: nat,
    cap: nat,
    lower_bound: nat,
    count: nat,
    index: nat,
    elem_size: nat,
    align: nat,
)
    requires
        index < count,
        len + index <= cap,
        1 <= align,
        elem_size == 0 ==> cap == usize::MAX,
        extension_fits(len, lower_bound, count, elem_size, align),
    ensures
        !(growth(len + index, cap, 1, elem_size, align) is Overflow),
{
    if elem_size > 0 && needs_to_grow(len + index, cap, 1) {
        let most = if lower_bound >= count {
            lower_bound
        } else {
            count
        };
        lemma_layout_fits_fewer(
            amortized_capacity(cap, len + index + 1, elem_size),
            2 * (len + most) + 8,
            elem_size,
            align,
        );
        lemma_layout_fits_fewer(len + index + 1, 2 * (len + most) + 8, elem_size, align);
        lemma_slots_bounded(len + index + 1, elem_size, isize::MAX as nat);
    }
}

/// Pushing never shrinks the capacity, and leaves it as it is while there is
/// room.
pub proof fn lemma_pushed_capacity_bounds(len: nat, cap: nat, count: nat, elem_size: nat)
    ensures
        pushed_capacity(len, cap, count, elem_size) >= cap,
        len + count <= cap ==> pushed_capacity(len, cap, count, elem_size) == cap,
        len <= cap ==> len + count <= pushed_capacity(len, cap, count, elem_size),
    decreases count,
{
    if count > 0 {
        lemma_pushed_capacity_bounds(len, cap, (count - 1) as nat, elem_size);
    }
}

/// A buffer that grows at least doubles, and reaches what is required of it.
pub proof fn lemma_amortized_capacity_bounds(cap: nat, required: nat, elem_size: nat)
    ensures
        amortized_capacity(cap, required, elem_size) >= 2 * cap,
        amortized_capacity(cap, required, elem_size) >= required,
        amortized_capacity(cap, required, elem_size) >= min_non_zero_cap(elem_size),
{
}

/// After a reservation of `additional` slots has succeeded there is room for
/// that many elements more.
pub proof fn lemma_reserved_has_room(
    len: nat,
    cap: nat,
    additional: nat,
    elem_size: nat,
    align: nat,
    cap_after: nat,
)
    requires
        len <= cap,
        reserve_result(len, cap, additional, elem_size, align, Ok(()), cap_after),
    ensures
        len + additional <= cap_after,
        cap <= cap_after,
{
}

/// After a reservation of `additional` slots has succeeded, none of the next
/// `additional` elements makes the buffer grow: with `pushed` of them in,
/// `pushed < additional`, there is room for one more, so that nothing is asked
/// of the allocator for it.
pub proof fn lemma_reserved_needs_no_growth(
    len: nat,
    cap: nat,
    additional: nat,
    elem_size: nat,
    align: nat,
    cap_after: nat,
    pushed: nat,
)
    requires
        len <= cap,
        reserve_result(len, cap, additional, elem_size, align, Ok(()), cap_after),
        pushed < additional,
    ensures
        growth(len + pushed, cap_after, 1, elem_size, align) is Unneeded,
        reserve_result(len + pushed, cap_after, 1, elem_size, align, Ok(()), cap_after),
{
    lemma_reserved_has_room(len, cap, additional, elem_size, align, cap_after);
}

/// A reservation that fails leaves the capacity as it was, and one for which
/// there is room cannot fail.
pub proof fn lemma_failed_reservation_keeps_capacity(
    len: nat,
    cap: nat,
    additional: nat,
    elem_size: nat,
    align: nat,
    r: Result<(), TryReserveError>,
    cap_after: nat,
)
    requires
        len <= cap,
        reserve_result(len, cap, additional, elem_size, align, r, cap_after),
    ensures
        r is Err ==> cap_after == cap && len + additional > cap,
        len + additional <= cap ==> r is Ok && cap_after == cap,
{
}

/// The size and alignment of a type are those of an element that a buffer
/// can hold.
proof fn lemma_elem_layout(elem_size: nat, align: nat)
    requires
        align != 0,
        elem_size % align == 0,
        elem_size <= isize::MAX,
    ensures
        elem_layout(elem_size, align),
{
    if elem_size > 0 && align > elem_size {
        vstd::arithmetic::div_mod::lemma_small_mod(elem_size, align);
    }
}

/// Whether `elem_size` and `align` are the size and alignment of a type.
pub open spec fn elem_layout(elem_size: nat, align: nat) -> bool {
    &&& 1 <= align
    &&& elem_size > 0 ==> align <= elem_size <= isize::MAX
}

/// A capacity whose block is at most `limit` bytes is itself at most `limit`,
/// since a slot has at least one byte.
pub proof fn lemma_slots_bounded(cap: nat, elem_size: nat, limit: nat)
    requires
        elem_size > 0,
        cap * elem_size <= limit,
    ensures
        cap <= limit,
{
    assert(cap <= cap * elem_size) by (nonlinear_arith)
        requires
            elem_size >= 1,
    ;
}

/// The slots a container holds of its allocator.
///
/// A buffer of elements without size holds `usize::MAX` slots and no block.
/// Any other buffer holds one block of `capacity * elem_size` bytes, or none
/// while its capacity is zero, and hands the block back when it is destroyed.
///
/// A buffer can be told to keep what it holds: from `keep` on, the block it
/// held then is not handed back when the buffer grows, so that `rollback` can
/// return to it without a word to the allocator. `commit` hands it back.
pub struct RawBuf<A: Allocator> {
    alloc: A,
    cap: usize,
    bytes: usize,
    elem_size: usize,
    align: usize,
    keeping: bool,
    // The capacity and the size of the block held back, once the buffer has
    // grown while keeping.
    kept: Option<(usize, usize)>,
}

impl<A: Allocator> RawBuf<A> {
    /// The invariant of a buffer: the block it holds is the one its capacity
    /// asks for, and that block can be laid out.
    pub closed spec fn wf(&self) -> bool {
        &&& elem_layout(self.elem_size as nat, self.align as nat)
        &&& self.elem_size == 0 ==> self.cap == usize::MAX && self.bytes == 0
        &&& self.elem_size > 0 ==> {
            &&& self.bytes == self.cap * self.elem_size
            &&& self.cap > 0 ==> layout_fits(
                self.cap as nat,
                self.elem_size as nat,
                self.align as nat,
            )
        }
        &&& self.kept matches Some((cap, bytes)) ==> {
            &&& self.keeping
            &&& self.elem_size > 0
            &&& bytes == cap * self.elem_size
            &&& cap > 0 ==> layout_fits(cap as nat, self.elem_size as nat, self.align as nat)
        }
    }

    /// Whether the buffer keeps the block it held when `keep` was called.
    pub closed spec fn keeping(&self) -> bool {
        self.keeping
    }

    /// The capacity that `rollback` returns to: the one the buffer had when
    /// `keep` was called, and its capacity while it keeps nothing.
    pub closed spec fn kept_capacity(&self) -> usize {
        match self.kept {
            Some((cap, _)) => cap,
            None => self.cap,
        }
    }

    /// The slots of a buffer have the size and alignment of a type, and a
    /// buffer of elements without size has every slot there is.
    pub proof fn lemma_elem_layout_held(&self)
        requires
            self.wf(),
        ensures
            elem_layout(self.elem_size() as nat, self.align() as nat),
            self.elem_size() == 0 ==> self.capacity() == usize::MAX,
    {
    }

    /// A buffer's block can be laid out, and so can any smaller one.
    pub proof fn lemma_capacity_fits(&self, cap: nat)
        requires
            self.wf(),
            self.elem_size() > 0,
            cap <= self.capacity(),
        ensures
            layout_fits(cap, self.elem_size() as nat, self.align() as nat),
    {
        assert(cap * self.elem_size <= self.cap * self.elem_size) by (nonlinear_arith)
            requires
                cap <= self.cap,
        ;
    }

    /// The number of slots held.
    pub closed spec fn spec_capacity(&self) -> usize {
        self.cap
    }

    /// The allocator that the slots are asked of.
    pub closed spec fn spec_allocator(&self) -> A {
        self.alloc
    }

    /// The size in bytes of one slot.
    pub closed spec fn elem_size(&self) -> usize {
        self.elem_size
    }

    /// The alignment of the block.
    pub closed spec fn align(&self) -> usize {
        self.align
    }

    /// A buffer for elements of type `T` that holds no block.
    pub fn new<T>(alloc: A) -> (buf: Self)
        ensures
            buf.wf(),
            buf.spec_allocator() == alloc,
            buf.elem_size() == size_of::<T>(),
            buf.align() == align_of::<T>(),
            buf.capacity() == if size_of::<T>() == 0 { usize::MAX } else { 0 },
            !buf.keeping(),
    {
        let elem_size = core::mem::size_of::<T>();
        let align = core::mem::align_of::<T>();
        vstd::layout::layout_for_type_is_valid::<T>();
        proof {
            lemma_elem_layout(elem_size as nat, align as nat);
        }
        let cap: usize = if elem_size == 0 { usize::MAX } else { 0 };
        RawBuf { alloc, cap, bytes: 0, elem_size, align, keeping: false, kept: None }
    }

    /// A buffer of exactly `capacity` slots for elements of type `T`, asked of
    /// `alloc` in one request.
    ///
    /// No request is made for a capacity of zero or for elements without size.
    /// When the request is refused, or cannot be made, nothing is kept.
    pub fn with_capacity<T>(capacity: usize, alloc: A) -> (r: Result<Self, TryReserveError>)
        ensures
            r matches Ok(buf) ==> {
                &&& buf.wf()
                &&& !buf.keeping()
                &&& buf.spec_allocator() == alloc
                &&& buf.elem_size() == size_of::<T>()
                &&& buf.align() == align_of::<T>()
            },
            exact_reserved_of(
                alloc,
                capacity as nat,
                size_of::<T>(),
                align_of::<T>(),
                match r {
                    Ok(buf) => Ok(buf.capacity()),
                    Err(e) => Err(e),
                },
            ),
            r matches Err(TryReserveError::AllocError { .. }) ==> !alloc.never_refuses(),
    {
        let mut buf = Self::new::<T>(alloc);
        let elem_size = buf.elem_size;
        let align = buf.align;
        if capacity == 0 || elem_size == 0 {
            return Ok(buf);
        }
        let size: usize = match capacity.checked_mul(elem_size) {
            Some(size) => size,
            None => {
                return Err(TryReserveError::CapacityOverflow);
            },
        };
        if size > isize::MAX as usize - (align - 1) {
            return Err(TryReserveError::CapacityOverflow);
        }
        let granted = buf.alloc.allocate(size, align);
        match buf.settle(capacity, size, granted) {
            Ok(()) => Ok(buf),
            Err(e) => Err(e),
        }
    }

    /// Makes room for `additional` more elements when `len` slots are in use.
    ///
    /// Nothing is asked of the allocator while there is room. Otherwise one
    /// block is asked for, of the size that `growth` gives; when it is granted
    /// the old block is handed back, unless it is the one the buffer keeps,
    /// and when it is refused the buffer is as it was.
    pub fn reserve(&mut self, len: usize, additional: usize) -> (r: Result<(), TryReserveError>)
        requires
            old(self).wf(),
        ensures
            final(self).wf(),
            final(self).spec_allocator() == old(self).spec_allocator(),
            final(self).elem_size() == old(self).elem_size(),
            final(self).align() == old(self).align(),
            final(self).keeping() == old(self).keeping(),
            old(self).keeping() ==> final(self).kept_capacity() == old(self).kept_capacity(),
            reserved_of(
                old(self).spec_allocator(),
                len as nat,
                old(self).capacity() as nat,
                additional as nat,
                old(self).elem_size() as nat,
                old(self).align() as nat,
                r,
                final(self).capacity() as nat,
            ),
            final(self).capacity() == old(self).capacity() ==> *final(self) == *old(self),
            r matches Err(TryReserveError::AllocError { .. }) ==> !old(
                self,
            ).spec_allocator().never_refuses(),
    {
        if len <= self.cap && additional <= self.cap - len {
            return Ok(());
        }
        if self.elem_size == 0 {
            return Err(TryReserveError::CapacityOverflow);
        }
        let required: usize = match len.checked_add(additional) {
            Some(required) => required,
            None => {
                return Err(TryReserveError::CapacityOverflow);
            },
        };
        proof {
            self.lemma_capacity_fits(self.cap as nat);
            lemma_slots_bounded(self.cap as nat, self.elem_size as nat, isize::MAX as nat);
        }
        let doubled: usize = self.cap * 2;
        let wanted: usize = if doubled >= required { doubled } else { required };
        let least: usize = if self.elem_size == 1 {
            8
        } else if self.elem_size <= 1024 {
            4
        } else {
            1
        };
        let target: usize = if wanted >= least { wanted } else { least };
        let size: usize = match target.checked_mul(self.elem_size) {
            Some(size) => size,
            None => {
                return Err(TryReserveError::CapacityOverflow);
            },
        };
        if size > isize::MAX as usize - (self.align - 1) {
            return Err(TryReserveError::CapacityOverflow);
        }
        let granted = self.alloc.allocate(size, self.align);
        self.settle(target, size, granted)
    }

    /// Takes the allocator's answer to a request for `size` bytes, made to
    /// hold `cap` slots: when it was granted, the old block is handed back,
    /// unless it is the one the buffer keeps, and the buffer holds `cap`
    /// slots; when it was refused, the buffer is as it was and the error names
    /// the request.
    pub fn settle(&mut self, cap: usize, size: usize, granted: Result<(), AllocError>) -> (r:
        Result<(), TryReserveError>)
        requires
            old(self).wf(),
            old(self).elem_size() > 0,
            size == cap * old(self).elem_size(),
            layout_fits(cap as nat, old(self).elem_size() as nat, old(self).align() as nat),
        ensures
            final(self).wf(),
            final(self).spec_allocator() == old(self).spec_allocator(),
            final(self).elem_size() == old(self).elem_size(),
            final(self).align() == old(self).align(),
            final(self).keeping() == old(self).keeping(),
            old(self).keeping() ==> final(self).kept_capacity() == old(self).kept_capacity(),
            match granted {
                Ok(()) => r is Ok && final(self).capacity() == cap,
                Err(_) => {
                    &&& r == Err::<(), _>(
                        TryReserveError::AllocError { size, align: old(self).align() },
                    )
                    &&& *final(self) == *old(self)
                },
            },
    {
        match granted {
            Ok(()) => {
                if self.keeping && self.kept.is_none() {
                    self.kept = Some((self.cap, self.bytes));
                } else if self.bytes > 0 {
                    self.alloc.deallocate(self.bytes, self.align);
                }
                self.cap = cap;
                self.bytes = size;
                Ok(())
            },
            Err(_) => Err(TryReserveError::AllocError { size, align: self.align }),
        }
    }

    /// Keeps the block that the buffer holds: it is not handed back when the
    /// buffer grows, until `commit` or `rollback`.
    pub fn keep(&mut self)
        requires
            old(self).wf(),
            !old(self).keeping(),
        ensures
            final(self).wf(),
            final(self).keeping(),
            final(self).kept_capacity() == old(self).capacity(),
            final(self).capacity() == old(self).capacity(),
            final(self).spec_allocator() == old(self).spec_allocator(),
            final(self).elem_size() == old(self).elem_size(),
            final(self).align() == old(self).align(),
    {
        self.keeping = true;
    }

    /// Lets go of the block that was kept, if the buffer has grown since: it
    /// is handed back, and the buffer stays as large as it has become.
    pub fn commit(&mut self)
        requires
            old(self).wf(),
        ensures
            final(self).wf(),
            !final(self).keeping(),
            final(self).capacity() == old(self).capacity(),
            final(self).spec_allocator() == old(self).spec_allocator(),
            final(self).elem_size() == old(self).elem_size(),
            final(self).align() == old(self).align(),
    {
        match self.kept {
            Some((_, bytes)) => {
                if bytes > 0 {
                    self.alloc.deallocate(bytes, self.align);
                }
            },
            None => {},
        }
        self.kept = None;
        self.keeping = false;
    }

    /// Returns to the block that was kept, if the buffer has grown since: the
    /// block it grew to is handed back, and its capacity is the one it had
    /// when `keep` was called. Nothing is asked of the allocator.
    pub fn rollback(&mut self)
        requires
            old(self).wf(),
        ensures
            final(self).wf(),
            !final(self).keeping(),
            final(self).capacity() == old(self).kept_capacity(),
            final(self).spec_allocator() == old(self).spec_allocator(),
            final(self).elem_size() == old(self).elem_size(),
            final(self).align() == old(self).align(),
    {
        match self.kept {
            Some((cap, bytes)) => {
                if self.bytes > 0 {
                    self.alloc.deallocate(self.bytes, self.align);
                }
                self.cap = cap;
                self.bytes = bytes;
            },
            None => {},
        }
        self.kept = None;
        self.keeping = false;
    }

    /// The number of slots held.
    #[verifier::when_used_as_spec(spec_capacity)]
    pub fn capacity(&self) -> (cap: usize)
        ensures
            cap == self.spec_capacity(),
    {
        self.cap
    }

    /// The allocator that the slots are asked of.
    pub fn allocator(&self) -> (alloc: &A)
        ensures
            *alloc == self.spec_allocator(),
    {
        &self.alloc
    }
}

impl<A: Allocator> Drop for RawBuf<A> {
    /// Hands back the block that is held, and the one that is kept, if any.
    fn drop(&mut self)
        opens_invariants none
        no_unwind
    {
        if self.bytes > 0 {
            self.alloc.deallocate(self.bytes, self.align);
        }
        match self.kept {
            Some((_, bytes)) => {
                if bytes > 0 {
                    self.alloc.deallocate(bytes, self.align);
                }
            },
            None => {},
        }
    }
}

} // verus!
