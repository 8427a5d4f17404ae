//! The raw buffer: an address, a capacity and an allocator.

use crate::allocator::{AllocResult, Allocator};
use crate::memory_layout::{max_size_for, MemoryLayout};
use crate::non_null::NonNull;
use crate::unique::Unique;
use vstd::layout::{align_of, layout_for_type_is_valid, size_of};
use vstd::prelude::*;

verus! {

/// Why a buffer could not be given the capacity asked for. Either way the
/// demand cannot be met, and a program that cannot go on without the memory
/// ends on it.
#[derive(Clone, Copy, Debug, PartialEq, Eq, Structural)]
pub enum ReserveError {
    /// The capacity asked for takes more bytes than a region can have.
    CapacityOverflow,
    /// The allocator could not provide a block of this layout.
    AllocFailed { layout: MemoryLayout },
}

/// The capacity that a buffer without one starts with, by the size of its
/// elements: small elements come many to a block, so that the first few
/// appends do not each allocate.
pub open spec fn min_non_zero_cap(element_size: nat) -> nat {
    if element_size == 1 {
        8
    } else if element_size <= 1024 {
        4
    } else {
        1
    }
}

/// The capacity that a buffer of capacity `cap` is given when it has to hold
/// `required` elements and cannot: an empty buffer gets its starting capacity,
/// any other twice what it has, and either gets `required` if that is more.
pub open spec fn grown_capacity(cap: nat, required: nat, element_size: nat) -> nat {
    let target = if cap == 0 {
        min_non_zero_cap(element_size)
    } else {
        2 * cap
    };
    if required > target {
        required
    } else {
        target
    }
}

/// Growth is geometric: a buffer that grows ends with room for what is
/// required and with at least twice the room it had, and a buffer that had
/// none ends with at least its starting capacity. So a run of appends, one
/// element at a time, allocates only when the length reaches a capacity that
/// is twice the one before.
pub proof fn lemma_growth_is_geometric(cap: nat, required: nat, element_size: nat)
    ensures
        grown_capacity(cap, required, element_size) >= required,
        grown_capacity(cap, required, element_size) >= 2 * cap,
        grown_capacity(cap, required, element_size) >= 1,
        cap == 0 ==> grown_capacity(cap, required, element_size) >= min_non_zero_cap(
            element_size,
        ),
        cap > 0 && required <= 2 * cap ==> grown_capacity(cap, required, element_size) == 2 * cap,
        cap == 0 && required <= min_non_zero_cap(element_size) ==> grown_capacity(
            cap,
            required,
            element_size,
        ) == min_non_zero_cap(element_size),
{
}

/// Whether `cap` elements of `T` make a region that can exist.
pub open spec fn fits<T>(cap: int) -> bool {
    size_of::<T>() * cap <= max_size_for(align_of::<T>() as int)
}

/// `layout` is the layout of `capacity` elements of `T`.
pub open spec fn array_layout<T>(layout: MemoryLayout, capacity: usize) -> bool {
    &&& layout.size() == size_of::<T>() * capacity
    &&& layout.align().as_usize() == align_of::<T>()
}

/// The capacity that growing to hold `required` elements of `T` ends with, or
/// `None` where no such buffer can exist: the elements of `T` take no room, so
/// that a buffer of them is never short of it, or the grown buffer would take
/// more bytes than a region can have.
pub open spec fn growth_target<T>(cap: usize, required: nat) -> Option<usize> {
    let target = grown_capacity(cap as nat, required, size_of::<T>());
    if size_of::<T>() == 0 || !fits::<T>(target as int) {
        None
    } else {
        Some(target as usize)
    }
}

/// The starting capacity of a buffer of elements of `element_size` bytes.
pub fn starting_capacity(element_size: usize) -> (r: usize)
    ensures
        r == min_non_zero_cap(element_size as nat),
{
    if element_size == 1 {
        8
    } else if element_size <= 1024 {
        4
    } else {
        1
    }
}

/// The capacity to grow to from `cap` in order to hold `required` elements of
/// `element_size` bytes, or `None` if twice `cap` is more than a `usize` can
/// hold.
pub fn amortized_capacity(cap: usize, required: usize, element_size: usize) -> (r: Option<usize>)
    ensures
        r is Some <==> grown_capacity(cap as nat, required as nat, element_size as nat)
            <= usize::MAX,
        r matches Some(target) ==> target == grown_capacity(
            cap as nat,
            required as nat,
            element_size as nat,
        ),
{
    let target = if cap == 0 {
        starting_capacity(element_size)
    } else {
        match cap.checked_mul(2) {
            Some(doubled) => doubled,
            None => {
                return None;
            },
        }
    };
    if required > target {
        Some(required)
    } else {
        Some(target)
    }
}

/// A capacity below one that fits, fits too.
proof fn lemma_fits_downward<T>(small: int, large: int)
    requires
        0 <= small <= large,
        fits::<T>(large),
    ensures
        fits::<T>(small),
        size_of::<T>() * small <= size_of::<T>() * large,
{
    assert(size_of::<T>() * small <= size_of::<T>() * large) by (nonlinear_arith)
        requires
            0 <= small <= large,
    ;
}

/// A capacity that fits, of elements that take room, is at most `isize::MAX`.
proof fn lemma_fits_bound<T>(cap: int)
    requires
        0 <= cap,
        fits::<T>(cap),
        size_of::<T>() != 0,
        1 <= align_of::<T>(),
    ensures
        cap <= isize::MAX,
        size_of::<T>() * cap <= isize::MAX,
{
    assert(cap <= size_of::<T>() * cap) by (nonlinear_arith)
        requires
            0 <= cap,
            1 <= size_of::<T>(),
    ;
}

/// A buffer of memory for elements of `T`, obtained from the allocator `A`:
/// the address of the block, the number of elements it has room for, and the
/// allocator that provided it.
///
/// The buffer does not look at the memory it manages: which of its slots hold
/// an element, and what becomes of those elements, is the business of the
/// container built on it.
///
/// * A buffer of capacity zero has no block: its address dangles.
/// * Elements that take no room need no block either: a buffer of them holds
///   a dangling address whatever is asked of it, and reports a capacity of
///   `usize::MAX`.
/// * Any other buffer owns exactly one block, of `capacity` elements of `T`,
///   and that many elements make a region that can exist.
pub struct RawVec<T, A: Allocator> {
    ptr: Unique<T>,
    cap: usize,
    allocator: A,
}

impl<T, A: Allocator> RawVec<T, A> {
    /// The address of the block, or a dangling address where there is none.
    pub closed spec fn spec_ptr(&self) -> Unique<T> {
        self.ptr
    }

    /// The number of elements that the block has room for; zero where there
    /// is no block.
    pub closed spec fn spec_cap(&self) -> usize {
        self.cap
    }

    /// The allocator held.
    pub closed spec fn spec_allocator(&self) -> A {
        self.allocator
    }

    /// The number of elements that the buffer can hold: without end for
    /// elements that take no room.
    pub open spec fn spec_capacity(&self) -> usize {
        if size_of::<T>() == 0 {
            usize::MAX
        } else {
            self.spec_cap()
        }
    }

    /// Whether the buffer owns a block.
    pub open spec fn has_allocation(&self) -> bool {
        size_of::<T>() != 0 && self.spec_cap() != 0
    }

    /// What holds of every buffer: a block that is owned has a layout, and
    /// where none is owned the address is the dangling one.
    pub open spec fn wf(&self) -> bool {
        &&& self.has_allocation() ==> fits::<T>(self.spec_cap() as int)
        &&& !self.has_allocation() ==> self.spec_ptr().as_ptr() == align_of::<T>()
    }

    /// A buffer without a block. The allocator is stored as it is given, and
    /// nothing is asked of it.
    pub fn new_in(allocator: A) -> (r: Self)
        ensures
            r.wf(),
            r.spec_cap() == 0,
            r.capacity() == (if size_of::<T>() == 0 {
                usize::MAX
            } else {
                0usize
            }),
            r.spec_ptr().as_ptr() == align_of::<T>(),
            !r.has_allocation(),
            r.spec_allocator() == allocator,
    {
        RawVec { ptr: Unique::dangling(), cap: 0, allocator }
    }

    /// A buffer with room for exactly `capacity` elements, whose memory holds
    /// whatever it held before.
    ///
    /// * For `capacity == 0`, or elements that take no room, the result is that
    ///   of [`RawVec::new_in`], and nothing is asked of the allocator.
    /// * If `capacity` elements take more bytes than a region can have, the
    ///   result is `CapacityOverflow`, and nothing is asked of the allocator.
    /// * Otherwise the allocator is asked once for the layout of `[T; capacity]`.
    ///   The result is the buffer over the block it provides, or `AllocFailed`
    ///   with that layout.
    pub fn with_capacity_in(capacity: usize, allocator: A) -> (r: Result<Self, ReserveError>)
        ensures
            Self::allocated_in(capacity, allocator, r),
            Self::asks(capacity) ==> exists|m: &mut A, layout: MemoryLayout, answer: AllocResult|
                {
                    &&& #[trigger] Self::allocation(
                        m,
                        layout,
                        false,
                        answer,
                        allocator,
                        capacity,
                        r,
                    )
                    &&& r matches Ok(buf) ==> buf.spec_allocator() == *final(m)
                },
    {
        Self::allocate_in(capacity, false, allocator)
    }

    /// As [`RawVec::with_capacity_in`], but the memory of the buffer is all
    /// zeros.
    pub fn with_capacity_zeroed_in(capacity: usize, allocator: A) -> (r: Result<
        Self,
        ReserveError,
    >)
        ensures
            Self::allocated_in(capacity, allocator, r),
            Self::asks(capacity) ==> exists|m: &mut A, layout: MemoryLayout, answer: AllocResult|
                {
                    &&& #[trigger] Self::allocation(m, layout, true, answer, allocator, capacity, r)
                    &&& r matches Ok(buf) ==> buf.spec_allocator() == *final(m)
                },
    {
        Self::allocate_in(capacity, true, allocator)
    }

    /// Whether making a buffer with room for `capacity` elements asks the
    /// allocator for a block: the elements take room, there is at least one,
    /// and that many make a region that can exist.
    pub open spec fn asks(capacity: usize) -> bool {
        &&& size_of::<T>() != 0
        &&& capacity != 0
        &&& fits::<T>(capacity as int)
    }

    /// What becomes of the allocator's answer to a request for `layout`, made
    /// for a buffer of `capacity` elements: a block becomes the buffer's, a
    /// failure is reported as `AllocFailed` with `layout`.
    pub open spec fn taken(
        answer: AllocResult,
        capacity: usize,
        layout: MemoryLayout,
        r: Result<Self, ReserveError>,
    ) -> bool {
        match answer {
            Ok((block, _)) => {
                &&& r matches Ok(buf)
                &&& buf.wf()
                &&& buf.spec_cap() == capacity
                &&& buf.spec_ptr().as_ptr() == block.as_ptr()
            },
            Err(_) => r == Err::<Self, ReserveError>(ReserveError::AllocFailed { layout }),
        }
    }

    /// `m` is the one call that making a buffer with room for `capacity`
    /// elements makes to `allocator`, and `answer` is what the allocator
    /// answered: a call of `allocate` for the layout of `[T; capacity]`, zeroed
    /// or not as asked, whose answer is taken as [`RawVec::taken`] says.
    pub open spec fn allocation(
        m: &mut A,
        layout: MemoryLayout,
        zeroed: bool,
        answer: AllocResult,
        allocator: A,
        capacity: usize,
        r: Result<Self, ReserveError>,
    ) -> bool {
        &&& *m == allocator
        &&& array_layout::<T>(layout, capacity)
        &&& call_ensures(A::allocate, (m, layout, zeroed), answer)
        &&& Self::taken(answer, capacity, layout, r)
    }

    /// What a buffer made with room for `capacity` elements is.
    pub open spec fn allocated_in(capacity: usize, allocator: A, r: Result<Self, ReserveError>)
        -> bool {
        if size_of::<T>() == 0 || capacity == 0 {
            &&& r matches Ok(buf)
            &&& buf.wf()
            &&& buf.spec_cap() == 0
            &&& buf.spec_ptr().as_ptr() == align_of::<T>()
            &&& buf.spec_allocator() == allocator
        } else if !fits::<T>(capacity as int) {
            r == Err::<Self, ReserveError>(ReserveError::CapacityOverflow)
        } else {
            match r {
                Ok(buf) => buf.wf() && buf.spec_cap() == capacity,
                Err(ReserveError::AllocFailed { layout }) => layout.size() == size_of::<T>()
                    * capacity && layout.align().as_usize() == align_of::<T>(),
                Err(ReserveError::CapacityOverflow) => false,
            }
        }
    }

    fn allocate_in(capacity: usize, zeroed: bool, allocator: A) -> (r: Result<Self, ReserveError>)
        ensures
            Self::allocated_in(capacity, allocator, r),
            Self::asks(capacity) ==> exists|m: &mut A, layout: MemoryLayout, answer: AllocResult|
                {
                    &&& #[trigger] Self::allocation(
                        m,
                        layout,
                        zeroed,
                        answer,
                        allocator,
                        capacity,
                        r,
                    )
                    &&& r matches Ok(buf) ==> buf.spec_allocator() == *final(m)
                },
    {
        // Nothing is allocated here for a capacity of zero: a buffer without
        // capacity releases nothing when it goes.
        if core::mem::size_of::<T>() == 0 || capacity == 0 {
            Ok(Self::new_in(allocator))
        } else {
            let layout = match MemoryLayout::array::<T>(capacity) {
                Ok(layout) => layout,
                Err(_) => {
                    return Err(ReserveError::CapacityOverflow);
                },
            };
            let mut allocator = allocator;
            let ghost before = allocator;
            let answer = allocator.allocate(layout, zeroed);
            let ghost m = choose|m: &mut A| #[trigger]
                call_ensures(A::allocate, (m, layout, zeroed), answer) && *m == before && *final(m)
                    == allocator;
            let r = Self::from_allocation(answer, capacity, layout, allocator);
            assert(Self::allocation(m, layout, zeroed, answer, before, capacity, r));
            r
        }
    }

    /// The buffer of `capacity` elements over what the allocator answered to
    /// a request for `layout`: its block, or `AllocFailed` with the layout
    /// that was asked for.
    pub fn from_allocation(
        result: AllocResult,
        capacity: usize,
        layout: MemoryLayout,
        allocator: A,
    ) -> (r: Result<Self, ReserveError>)
        requires
            size_of::<T>() != 0,
            capacity != 0,
            fits::<T>(capacity as int),
        ensures
            match result {
                Ok((block, _)) => {
                    &&& r matches Ok(buf)
                    &&& buf.wf()
                    &&& buf.spec_cap() == capacity
                    &&& buf.spec_ptr().as_ptr() == block.as_ptr()
                    &&& buf.spec_allocator() == allocator
                },
                Err(_) => r == Err::<Self, ReserveError>(ReserveError::AllocFailed { layout }),
            },
    {
        match result {
            Ok((block, _)) => {
                // Whatever length the allocator reports, the capacity is the
                // one that was asked for.
                Ok(RawVec { ptr: Unique::new_unchecked(block.as_ptr()), cap: capacity, allocator })
            },
            Err(_) => Err(ReserveError::AllocFailed { layout }),
        }
    }

    /// The buffer over memory that the caller obtained: `capacity` elements
    /// at `ptr`, provided by `allocator`.
    ///
    /// The caller answers for what the buffer relies on: that `ptr` is not
    /// null, that the block was provided by `allocator` for the layout of
    /// `[T; capacity]`, which must be one that can exist, and that where
    /// there is no block (`capacity == 0`, or elements that take no room)
    /// `ptr` is the dangling address of `T`.
    pub fn from_raw_parts_in(ptr: usize, capacity: usize, allocator: A) -> (r: Self)
        requires
            ptr != 0,
            size_of::<T>() != 0 && capacity != 0 ==> fits::<T>(capacity as int),
            size_of::<T>() == 0 || capacity == 0 ==> ptr == align_of::<T>(),
        ensures
            r.wf(),
            r.spec_ptr().as_ptr() == ptr,
            r.spec_cap() == capacity,
            r.spec_allocator() == allocator,
    {
        RawVec { ptr: Unique::new_unchecked(ptr), cap: capacity, allocator }
    }

    /// The address of the block, or the dangling address where there is
    /// none.
    pub fn ptr(&self) -> (r: Unique<T>)
        ensures
            r == self.spec_ptr(),
    {
        self.ptr.clone()
    }

    /// The number of elements that the buffer can hold: `usize::MAX` for
    /// elements that take no room, else the capacity of the block.
    #[verifier::when_used_as_spec(spec_capacity)]
    pub fn capacity(&self) -> (r: usize)
        ensures
            r == self.spec_capacity(),
    {
        if core::mem::size_of::<T>() == 0 {
            usize::MAX
        } else {
            self.cap
        }
    }

    /// The allocator held.
    pub fn allocator(&self) -> (r: &A)
        ensures
            *r == self.spec_allocator(),
    {
        &self.allocator
    }

    /// The block that the buffer owns, with the layout it was provided for;
    /// `None` where it owns none.
    pub fn current_memory(&self) -> (r: Option<(NonNull<u8>, MemoryLayout)>)
        requires
            self.wf(),
        ensures
            r is Some <==> self.has_allocation(),
            r matches Some((block, layout)) ==> {
                &&& block.as_ptr() == self.spec_ptr().as_ptr()
                &&& layout.size() == size_of::<T>() * self.spec_cap()
                &&& layout.align().as_usize() == align_of::<T>()
            },
    {
        if core::mem::size_of::<T>() == 0 || self.cap == 0 {
            None
        } else {
            // The size of the block is worked out where every size of an
            // array is; a buffer that owns a block has one that fits.
            match MemoryLayout::array::<T>(self.cap) {
                Ok(layout) => Some((self.ptr.as_non_null().cast(), layout)),
                Err(_) => None,
            }
        }
    }

    /// Whether the buffer is too small for `additional` elements more than
    /// `len`.
    pub fn needs_to_grow(&self, len: usize, additional: usize) -> (r: bool)
        ensures
            r == (len + additional > self.capacity()),
    {
        match len.checked_add(additional) {
            None => true,
            Some(required) => required > self.capacity(),
        }
    }

    /// Makes room for `additional` elements more than `len`, growing the
    /// buffer as [`RawVec::grow_amortized`] does if it is too small, and
    /// leaving it alone if it is not.
    pub fn reserve(&mut self, len: usize, additional: usize) -> (r: Result<(), ReserveError>)
        requires
            old(self).wf(),
        ensures
            final(self).wf(),
            len + additional <= old(self).capacity() ==> r is Ok && *final(self) == *old(self),
            len + additional > old(self).capacity() ==> Self::grown(
                *old(self),
                (len + additional) as nat,
                *final(self),
                r,
            ),
            len + additional > old(self).capacity() ==> (growth_target::<T>(
                old(self).spec_cap(),
                (len + additional) as nat,
            ) matches Some(target) ==> exists|
                m: &mut A,
                block: NonNull<u8>,
                old_layout: MemoryLayout,
                new_layout: MemoryLayout,
                answer: AllocResult,
            |
                {
                    &&& #[trigger] Self::growth(
                        m,
                        block,
                        old_layout,
                        new_layout,
                        answer,
                        *old(self),
                        target,
                        *final(self),
                        r,
                    )
                    &&& final(self).spec_allocator() == *final(m)
                }),
            r is Ok ==> len + additional <= final(self).capacity(),
    {
        if self.needs_to_grow(len, additional) {
            self.grow_amortized(len, additional)
        } else {
            Ok(())
        }
    }

    /// What growing `before` to hold `required` elements leaves: `after`,
    /// with the answer `r`.
    ///
    /// * Where no buffer of the grown capacity can exist, the answer is
    ///   `CapacityOverflow`, and only then; nothing has changed and nothing
    ///   was asked of the allocator.
    /// * Where the allocator provided the block, the buffer has the grown
    ///   capacity.
    /// * Where it did not, the answer is `AllocFailed` with the layout that
    ///   was asked for, and the buffer has the address and capacity it had.
    pub open spec fn grown(before: Self, required: nat, after: Self, r: Result<(), ReserveError>)
        -> bool {
        match growth_target::<T>(before.spec_cap(), required) {
            None => r == Err::<(), ReserveError>(ReserveError::CapacityOverflow) && after
                == before,
            Some(target) => match r {
                Ok(_) => after.spec_cap() == target,
                Err(ReserveError::AllocFailed { layout }) => {
                    &&& after.spec_cap() == before.spec_cap()
                    &&& after.spec_ptr() == before.spec_ptr()
                    &&& layout.size() == size_of::<T>() * target
                    &&& layout.align().as_usize() == align_of::<T>()
                },
                Err(ReserveError::CapacityOverflow) => false,
            },
        }
    }

    /// `m` is the one call that growing `before` to the capacity `target`
    /// makes to its allocator, and `answer` is what the allocator answered.
    ///
    /// * A buffer that owns a block has the allocator `grow` it: from the
    ///   block at its address, with the layout of its capacity, to the layout
    ///   of `target` elements. A buffer that owns none has it `allocate` that
    ///   layout. Neither asks for zeroed memory.
    /// * A block that is provided becomes the buffer's, with the capacity
    ///   `target`. A failure is reported as `AllocFailed` with the layout
    ///   asked for, and leaves address and capacity as they were.
    pub open spec fn growth(
        m: &mut A,
        block: NonNull<u8>,
        old_layout: MemoryLayout,
        new_layout: MemoryLayout,
        answer: AllocResult,
        before: Self,
        target: usize,
        after: Self,
        r: Result<(), ReserveError>,
    ) -> bool {
        &&& *m == before.spec_allocator()
        &&& array_layout::<T>(new_layout, target)
        &&& if before.has_allocation() {
            &&& block.as_ptr() == before.spec_ptr().as_ptr()
            &&& array_layout::<T>(old_layout, before.spec_cap())
            &&& call_ensures(A::grow, (m, block, old_layout, new_layout, false), answer)
        } else {
            call_ensures(A::allocate, (m, new_layout, false), answer)
        }
        &&& match answer {
            Ok((new_block, _)) => {
                &&& r is Ok
                &&& after.spec_cap() == target
                &&& after.spec_ptr().as_ptr() == new_block.as_ptr()
            },
            Err(_) => {
                &&& r == Err::<(), ReserveError>(ReserveError::AllocFailed { layout: new_layout })
                &&& after.spec_cap() == before.spec_cap()
                &&& after.spec_ptr() == before.spec_ptr()
            },
        }
    }

    /// `m` is the one call that ending `buf`, which owns a block, makes to
    /// its allocator: a call of `dealloc` for the block at its address, with
    /// the layout of its capacity.
    pub open spec fn released(m: &mut A, block: NonNull<u8>, layout: MemoryLayout, buf: Self)
        -> bool {
        &&& *m == buf.spec_allocator()
        &&& block.as_ptr() == buf.spec_ptr().as_ptr()
        &&& array_layout::<T>(layout, buf.spec_cap())
        &&& call_ensures(A::dealloc, (m, block, layout), ())
    }

    /// What to ask the allocator for in order to hold `additional` elements
    /// more than `len`: the capacity to grow to, which is that of
    /// [`grown_capacity`], and the layout of that many elements. Where no such
    /// buffer can exist the answer is `CapacityOverflow`.
    ///
    /// Every step of the sum is checked: the elements required, twice the
    /// capacity, and the bytes that the grown capacity takes.
    pub fn plan_growth(&self, len: usize, additional: usize) -> (r: Result<
        (usize, MemoryLayout),
        ReserveError,
    >)
        ensures
            match growth_target::<T>(self.spec_cap(), (len + additional) as nat) {
                None => r == Err::<(usize, MemoryLayout), ReserveError>(
                    ReserveError::CapacityOverflow,
                ),
                Some(target) => {
                    &&& r matches Ok((capacity, layout))
                    &&& capacity == target
                    &&& len + additional <= capacity
                    &&& self.spec_cap() <= capacity
                    &&& 0 < capacity
                    &&& fits::<T>(capacity as int)
                    &&& layout.size() == size_of::<T>() * capacity
                    &&& layout.align().as_usize() == align_of::<T>()
                },
            },
    {
        layout_for_type_is_valid::<T>();
        let element_size = core::mem::size_of::<T>();
        if element_size == 0 {
            // A buffer of elements that take no room is never too small: to
            // be asked for more is to be asked for more than there can be.
            return Err(ReserveError::CapacityOverflow);
        }
        let ghost wanted = grown_capacity(
            self.cap as nat,
            (len + additional) as nat,
            element_size as nat,
        );
        proof {
            if fits::<T>(wanted as int) {
                lemma_fits_bound::<T>(wanted as int);
            }
        }
        let required = match len.checked_add(additional) {
            Some(required) => required,
            None => {
                return Err(ReserveError::CapacityOverflow);
            },
        };
        let target = match amortized_capacity(self.cap, required, element_size) {
            Some(target) => target,
            None => {
                return Err(ReserveError::CapacityOverflow);
            },
        };
        match MemoryLayout::array::<T>(target) {
            Ok(layout) => Ok((target, layout)),
            Err(_) => Err(ReserveError::CapacityOverflow),
        }
    }

    /// Grows the buffer to hold `additional` elements more than `len`, to the
    /// capacity that [`grown_capacity`] gives: at least twice what it was, so
    /// that appending one element at a time allocates only now and then.
    ///
    /// The request is the one that [`RawVec::plan_growth`] makes out. A buffer
    /// that owns a block has the allocator grow it; one that owns none has it
    /// allocate. What the allocator answers is taken as
    /// [`RawVec::finish_grow`] takes it: address and capacity change together,
    /// and only once the allocator has provided the block.
    pub fn grow_amortized(&mut self, len: usize, additional: usize) -> (r: Result<
        (),
        ReserveError,
    >)
        requires
            old(self).wf(),
        ensures
            final(self).wf(),
            Self::grown(*old(self), (len + additional) as nat, *final(self), r),
            growth_target::<T>(old(self).spec_cap(), (len + additional) as nat) matches Some(
                target,
            ) ==> exists|
                m: &mut A,
                block: NonNull<u8>,
                old_layout: MemoryLayout,
                new_layout: MemoryLayout,
                answer: AllocResult,
            |
                {
                    &&& #[trigger] Self::growth(
                        m,
                        block,
                        old_layout,
                        new_layout,
                        answer,
                        *old(self),
                        target,
                        *final(self),
                        r,
                    )
                    &&& final(self).spec_allocator() == *final(m)
                },
            r is Ok ==> len + additional <= final(self).capacity(),
    {
        let (target, new_layout) = match self.plan_growth(len, additional) {
            Ok(plan) => plan,
            Err(e) => {
                return Err(e);
            },
        };
        match self.current_memory() {
            Some((block, old_layout)) => {
                proof {
                    lemma_fits_downward::<T>(self.cap as int, target as int);
                }
                let answer = self.allocator.grow(block, old_layout, new_layout, false);
                let ghost m = choose|m: &mut A| #[trigger]
                    call_ensures(A::grow, (m, block, old_layout, new_layout, false), answer) && *m
                        == old(self).allocator && *final(m) == self.allocator;
                let r = self.finish_grow(answer, target, new_layout);
                assert(Self::growth(
                    m,
                    block,
                    old_layout,
                    new_layout,
                    answer,
                    *old(self),
                    target,
                    *self,
                    r,
                ));
                r
            },
            None => {
                let answer = self.allocator.allocate(new_layout, false);
                let ghost m = choose|m: &mut A| #[trigger]
                    call_ensures(A::allocate, (m, new_layout, false), answer) && *m == old(
                        self,
                    ).allocator && *final(m) == self.allocator;
                let r = self.finish_grow(answer, target, new_layout);
                assert(Self::growth(
                    m,
                    arbitrary(),
                    new_layout,
                    new_layout,
                    answer,
                    *old(self),
                    target,
                    *self,
                    r,
                ));
                r
            },
        }
    }

    /// Takes what the allocator answered to a request for `layout`, made to
    /// bring the buffer to `capacity` elements: its block becomes the
    /// buffer's, with the new capacity; its failure leaves the buffer as it
    /// was and is reported as `AllocFailed` with `layout`.
    pub fn finish_grow(
        &mut self,
        result: AllocResult,
        capacity: usize,
        layout: MemoryLayout,
    ) -> (r: Result<(), ReserveError>)
        requires
            size_of::<T>() != 0,
            capacity != 0,
            fits::<T>(capacity as int),
        ensures
            old(self).wf() ==> final(self).wf(),
            final(self).spec_allocator() == old(self).spec_allocator(),
            match result {
                Ok((block, _)) => {
                    &&& r is Ok
                    &&& final(self).spec_cap() == capacity
                    &&& final(self).spec_ptr().as_ptr() == block.as_ptr()
                },
                Err(_) => {
                    &&& r == Err::<(), ReserveError>(ReserveError::AllocFailed { layout })
                    &&& *final(self) == *old(self)
                },
            },
    {
        match result {
            Ok((block, _)) => {
                self.ptr = Unique::new_unchecked(block.as_ptr());
                self.cap = capacity;
                Ok(())
            },
            Err(_) => Err(ReserveError::AllocFailed { layout }),
        }
    }

    /// Ends the buffer: the block it owns goes back to the allocator, with
    /// the layout it was provided for, and the allocator is handed out.
    ///
    /// A buffer that owns no block asks nothing of the allocator: the
    /// dangling address is never released.
    pub fn release(self) -> (r: A)
        requires
            self.wf(),
        ensures
            !self.has_allocation() ==> r == self.spec_allocator(),
            self.has_allocation() ==> exists|m: &mut A, block: NonNull<u8>, layout: MemoryLayout|
                {
                    &&& #[trigger] Self::released(m, block, layout, self)
                    &&& r == *final(m)
                },
    {
        match self.current_memory() {
            Some((block, layout)) => {
                let mut allocator = self.allocator;
                allocator.dealloc(block, layout);
                proof {
                    let m = choose|m: &mut A| #[trigger]
                        call_ensures(A::dealloc, (m, block, layout), ()) && *m == self.allocator
                            && *final(m) == allocator;
                    assert(Self::released(m, block, layout, self));
                }
                allocator
            },
            None => self.allocator,
        }
    }
}

impl<T, A: Allocator + Default> RawVec<T, A> {
    /// A buffer without a block, over the allocator's default instance.
    pub fn new() -> (r: Self)
        ensures
            r.wf(),
            r.spec_cap() == 0,
            r.spec_ptr().as_ptr() == align_of::<T>(),
            !r.has_allocation(),
            call_ensures(A::default, (), r.spec_allocator()),
    {
        Self::new_in(A::default())
    }

    /// As [`RawVec::with_capacity_in`], over the allocator's default
    /// instance.
    pub fn with_capacity(capacity: usize) -> (r: Result<Self, ReserveError>)
        ensures
            exists|allocator: A|
                {
                    &&& call_ensures(A::default, (), allocator)
                    &&& #[trigger] Self::allocated_in(capacity, allocator, r)
                },
            Self::asks(capacity) ==> exists|
                allocator: A,
                m: &mut A,
                layout: MemoryLayout,
                answer: AllocResult,
            |
                {
                    &&& call_ensures(A::default, (), allocator)
                    &&& #[trigger] Self::allocation(
                        m,
                        layout,
                        false,
                        answer,
                        allocator,
                        capacity,
                        r,
                    )
                    &&& r matches Ok(buf) ==> buf.spec_allocator() == *final(m)
                },
    {
        Self::with_capacity_in(capacity, A::default())
    }

    /// As [`RawVec::with_capacity_zeroed_in`], over the allocator's default
    /// instance.
    pub fn with_capacity_zeroed(capacity: usize) -> (r: Result<Self, ReserveError>)
        ensures
            exists|allocator: A|
                {
                    &&& call_ensures(A::default, (), allocator)
                    &&& #[trigger] Self::allocated_in(capacity, allocator, r)
                },
            Self::asks(capacity) ==> exists|
                allocator: A,
                m: &mut A,
                layout: MemoryLayout,
                answer: AllocResult,
            |
                {
                    &&& call_ensures(A::default, (), allocator)
                    &&& #[trigger] Self::allocation(m, layout, true, answer, allocator, capacity, r)
                    &&& r matches Ok(buf) ==> buf.spec_allocator() == *final(m)
                },
    {
        Self::with_capacity_zeroed_in(capacity, A::default())
    }

    /// As [`RawVec::from_raw_parts_in`], over the allocator's default
    /// instance.
    pub fn from_raw_parts(ptr: usize, capacity: usize) -> (r: Self)
        requires
            ptr != 0,
            size_of::<T>() != 0 && capacity != 0 ==> fits::<T>(capacity as int),
            size_of::<T>() == 0 || capacity == 0 ==> ptr == align_of::<T>(),
        ensures
            r.wf(),
            r.spec_ptr().as_ptr() == ptr,
            r.spec_cap() == capacity,
            call_ensures(A::default, (), r.spec_allocator()),
    {
        Self::from_raw_parts_in(ptr, capacity, A::default())
    }
}

} // verus!
