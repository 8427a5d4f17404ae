//! The dynamic array: a raw buffer and the elements that live in it.

use crate::allocator::{AllocResult, Allocator};
use crate::memory_layout::MemoryLayout;
use crate::non_null::NonNull;
use crate::raw_vec::{fits, growth_target, RawVec, ReserveError};
use crate::rng::{
    accepts, accepts_fold, accepts_reduce, accepts_scan, answers, answers_all, equals_at, first_at,
    fold_reaches, fold_step, folds_to, found_at, kept, popped_left, popped_right, reduce_reaches,
    reduce_step, reduces_to, sifts,
};
use vstd::layout::{align_of, size_of};
use vstd::prelude::*;
use vstd::std_specs::cmp::PartialEqSpec;

verus! {

/// A growable array of `T` whose capacity comes from the allocator `A`.
///
/// The array is the sequence of its elements, `self@`. The raw buffer accounts
/// for the room they have: the array never holds more elements than its
/// capacity, and asks the buffer for more room before it takes an element
/// that would not fit. The elements themselves are kept in a standard vector.
pub struct Vec<T, A: Allocator> {
    buf: RawVec<T, A>,
    items: std::vec::Vec<T>,
}

impl<T, A: Allocator> Vec<T, A> {
    /// The elements, first to last.
    pub closed spec fn view(&self) -> Seq<T> {
        self.items@
    }

    /// The raw buffer underneath.
    pub closed spec fn spec_buf(&self) -> RawVec<T, A> {
        self.buf
    }

    /// The number of elements that the array can hold without growing.
    pub open spec fn spec_capacity(&self) -> usize {
        self.spec_buf().spec_capacity()
    }

    /// The number of elements.
    pub open spec fn spec_len(&self) -> usize {
        self@.len() as usize
    }

    /// What holds of every array: its buffer is sound, and it holds no more
    /// elements than it has capacity for.
    pub open spec fn wf(&self) -> bool {
        &&& self.spec_buf().wf()
        &&& self@.len() <= self.spec_capacity()
    }

    /// The buffer of the array that `r` holds, or the failure that it holds.
    pub open spec fn buf_of(r: Result<Self, ReserveError>) -> Result<RawVec<T, A>, ReserveError> {
        match r {
            Ok(v) => Ok(v.spec_buf()),
            Err(e) => Err(e),
        }
    }

    /// `m` is the one call that making an array with room for `capacity`
    /// elements makes to `allocator`, and `answer` what the allocator
    /// answered: the call that makes its buffer, as [`RawVec::allocation`]
    /// says.
    pub open spec fn made_by(
        m: &mut A,
        layout: MemoryLayout,
        answer: AllocResult,
        allocator: A,
        capacity: usize,
        r: Result<Self, ReserveError>,
    ) -> bool {
        RawVec::allocation(m, layout, false, answer, allocator, capacity, Self::buf_of(r))
    }

    /// What holds of an array made with room for `capacity` elements obtained
    /// from `allocator`: its buffer is the one that
    /// [`RawVec::with_capacity_in`] makes of them, and where that fails, so
    /// does the making of the array.
    pub open spec fn made_in(capacity: usize, allocator: A, r: Result<Self, ReserveError>) -> bool {
        &&& r matches Ok(v) ==> v.wf()
        &&& RawVec::allocated_in(capacity, allocator, Self::buf_of(r))
    }

    /// An array never holds more elements than its capacity.
    pub proof fn lemma_len_within_capacity(&self)
        requires
            self.wf(),
        ensures
            self.spec_len() == self@.len(),
            self.spec_len() <= self.spec_capacity(),
    {
    }

    /// An empty array without capacity. Nothing is asked of the allocator.
    pub fn new_in(allocator: A) -> (r: Self)
        ensures
            r.wf(),
            r@ == Seq::<T>::empty(),
            r.spec_buf().spec_cap() == 0,
            !r.spec_buf().has_allocation(),
            r.spec_buf().spec_allocator() == allocator,
    {
        Vec { buf: RawVec::new_in(allocator), items: std::vec::Vec::new() }
    }

    /// An empty array with room for `capacity` elements: its buffer is the one
    /// that [`RawVec::with_capacity_in`] makes, and it fails as that does.
    pub fn with_capacity_in(capacity: usize, allocator: A) -> (r: Result<Self, ReserveError>)
        ensures
            Self::made_in(capacity, allocator, r),
            r matches Ok(v) ==> v@ == Seq::<T>::empty(),
            RawVec::<T, A>::asks(capacity) ==> exists|
                m: &mut A,
                layout: MemoryLayout,
                answer: AllocResult,
            |
                {
                    &&& #[trigger] Self::made_by(m, layout, answer, allocator, capacity, r)
                    &&& r matches Ok(v) ==> v.spec_buf().spec_allocator() == *final(m)
                },
    {
        let made = RawVec::with_capacity_in(capacity, allocator);
        let ghost (m, layout, answer) = choose|m: &mut A, layout: MemoryLayout, answer: AllocResult|
            {
                &&& #[trigger] RawVec::allocation(
                    m,
                    layout,
                    false,
                    answer,
                    allocator,
                    capacity,
                    made,
                )
                &&& made matches Ok(v) ==> v.spec_allocator() == *final(m)
            };
        let r = match made {
            Ok(buf) => Ok(Vec { buf, items: std::vec::Vec::new() }),
            Err(e) => Err(e),
        };
        assert(RawVec::<T, A>::asks(capacity) ==> Self::made_by(
            m,
            layout,
            answer,
            allocator,
            capacity,
            r,
        ));
        r
    }

    /// An empty array over memory that the caller obtained: room for
    /// `capacity` elements at `ptr`, provided by `allocator`. The memory holds
    /// no element yet.
    ///
    /// The caller answers for the memory as for
    /// [`RawVec::from_raw_parts_in`].
    pub fn from_raw_parts_in(ptr: usize, capacity: usize, allocator: A) -> (r: Self)
        requires
            ptr != 0,
            size_of::<T>() != 0 && capacity != 0 ==> fits::<T>(capacity as int),
            size_of::<T>() == 0 || capacity == 0 ==> ptr == align_of::<T>(),
        ensures
            r.wf(),
            r@ == Seq::<T>::empty(),
            r.spec_buf().spec_ptr().as_ptr() == ptr,
            r.spec_buf().spec_cap() == capacity,
            r.spec_buf().spec_allocator() == allocator,
    {
        let buf = RawVec::from_raw_parts_in(ptr, capacity, allocator);
        Vec { buf, items: std::vec::Vec::new() }
    }

    /// The number of elements.
    #[verifier::when_used_as_spec(spec_len)]
    pub fn len(&self) -> (r: usize)
        ensures
            r == self@.len(),
            r == self.spec_len(),
    {
        self.items.len()
    }

    /// The number of elements that the array can hold without growing.
    #[verifier::when_used_as_spec(spec_capacity)]
    pub fn capacity(&self) -> (r: usize)
        ensures
            r == self.spec_capacity(),
    {
        self.buf.capacity()
    }

    /// The raw buffer underneath.
    pub fn buf(&self) -> (r: &RawVec<T, A>)
        ensures
            *r == self.spec_buf(),
    {
        &self.buf
    }

    /// The allocator that the capacity comes from.
    pub fn allocator(&self) -> (r: &A)
        ensures
            *r == self.spec_buf().spec_allocator(),
    {
        self.buf.allocator()
    }

    /// The element at `index`, or nothing if the array has no such element.
    pub fn at(&self, index: usize) -> (r: Option<&T>)
        ensures
            index < self@.len() ==> r == Some(&self@[index as int]),
            index >= self@.len() ==> r is None,
    {
        if index < self.items.len() {
            Some(&self.items[index])
        } else {
            None
        }
    }

    /// The first element, or nothing if the array is empty.
    pub fn left(&self) -> (r: Option<&T>)
        ensures
            self@.len() > 0 ==> r == Some(&self@[0]),
            self@.len() == 0 ==> r is None,
    {
        self.at(0)
    }

    /// The last element, or nothing if the array is empty.
    pub fn right(&self) -> (r: Option<&T>)
        ensures
            self@.len() > 0 ==> r == Some(&self@[self@.len() - 1]),
            self@.len() == 0 ==> r is None,
    {
        let len = self.items.len();
        if len == 0 {
            None
        } else {
            self.at(len - 1)
        }
    }

    /// Appends `value`.
    ///
    /// An array with room to spare takes the element as it is: nothing is
    /// asked of the allocator, and the capacity stays. A full array first has
    /// its buffer grow to hold one element more, as [`RawVec::grow_amortized`]
    /// does; if that fails the array is what it was, and the failure is
    /// returned.
    pub fn push(&mut self, value: T) -> (r: Result<(), ReserveError>)
        requires
            old(self).wf(),
        ensures
            final(self).wf(),
            r is Ok ==> final(self)@ == old(self)@.push(value),
            r is Err ==> final(self)@ == old(self)@ && final(self).spec_capacity() == old(
                self,
            ).spec_capacity(),
            old(self)@.len() < old(self).spec_capacity() ==> r is Ok && final(self).spec_buf()
                == old(self).spec_buf(),
            old(self)@.len() == old(self).spec_capacity() ==> RawVec::grown(
                old(self).spec_buf(),
                old(self)@.len() + 1,
                final(self).spec_buf(),
                r,
            ),
            old(self)@.len() == old(self).spec_capacity() ==> (growth_target::<T>(
                old(self).spec_buf().spec_cap(),
                old(self)@.len() + 1,
            ) matches Some(target) ==> exists|
                m: &mut A,
                block: NonNull<u8>,
                old_layout: MemoryLayout,
                new_layout: MemoryLayout,
                answer: AllocResult,
            |
                {
                    &&& #[trigger] RawVec::growth(
                        m,
                        block,
                        old_layout,
                        new_layout,
                        answer,
                        old(self).spec_buf(),
                        target,
                        final(self).spec_buf(),
                        r,
                    )
                    &&& final(self).spec_buf().spec_allocator() == *final(m)
                }),
    {
        let len = self.items.len();
        if len == self.buf.capacity() {
            let grown = self.buf.grow_amortized(len, 1);
            let ghost (m, block, old_layout, new_layout, answer) = choose|
                m: &mut A,
                block: NonNull<u8>,
                old_layout: MemoryLayout,
                new_layout: MemoryLayout,
                answer: AllocResult,
            |
                {
                    &&& #[trigger] RawVec::growth(
                        m,
                        block,
                        old_layout,
                        new_layout,
                        answer,
                        old(self).buf,
                        growth_target::<T>(old(self).buf.spec_cap(), (len + 1) as nat).unwrap(),
                        self.buf,
                        grown,
                    )
                    &&& self.buf.spec_allocator() == *final(m)
                };
            match grown {
                Ok(()) => {},
                Err(e) => {
                    return Err(e);
                },
            }
            self.items.push(value);
            let r = Ok(());
            assert(growth_target::<T>(old(self).buf.spec_cap(), (len + 1) as nat) matches Some(
                target,
            ) ==> RawVec::growth(
                m,
                block,
                old_layout,
                new_layout,
                answer,
                old(self).spec_buf(),
                target,
                self.spec_buf(),
                r,
            ));
            r
        } else {
            self.items.push(value);
            Ok(())
        }
    }

    /// Removes the first element: gives the array that remains and the
    /// element, or the array as it is and nothing if it is empty. The
    /// capacity stays.
    pub fn pop_left(self) -> (r: (Self, Option<T>))
        ensures
            self.wf() ==> r.0.wf(),
            r.0.spec_buf() == self.spec_buf(),
            (r.0@, r.1) == popped_left(self@),
    {
        let mut rest = self;
        let item = if rest.items.len() == 0 {
            None
        } else {
            Some(rest.items.remove(0))
        };
        (rest, item)
    }

    /// Removes the last element: gives the array that remains and the
    /// element, or the array as it is and nothing if it is empty. The
    /// capacity stays.
    pub fn pop_right(self) -> (r: (Self, Option<T>))
        ensures
            self.wf() ==> r.0.wf(),
            r.0.spec_buf() == self.spec_buf(),
            (r.0@, r.1) == popped_right(self@),
    {
        let mut rest = self;
        let item = rest.items.pop();
        (rest, item)
    }

    /// Removes the last element, as [`Vec::pop_right`] does.
    pub fn pop(self) -> (r: (Self, Option<T>))
        ensures
            self.wf() ==> r.0.wf(),
            r.0.spec_buf() == self.spec_buf(),
            (r.0@, r.1) == popped_right(self@),
    {
        self.pop_right()
    }

    /// Whether `f` answers `true` to every element. The scan goes from the
    /// left and stops at the first element that `f` answers `false` to.
    pub fn every<F: Fn(&T, usize) -> bool>(&self, f: F) -> (r: bool)
        requires
            accepts_scan(f, self@, true),
        ensures
            r ==> answers_all(f, self@, self@.len() as int, true),
            !r ==> exists|i: int| #[trigger] first_at(f, self@, i, false),
    {
        let mut i: usize = 0;
        while i < self.items.len()
            invariant
                i <= self.items@.len(),
                self@ == self.items@,
                accepts_scan(f, self@, true),
                answers_all(f, self@, i as int, true),
            decreases self.items@.len() - i,
        {
            if !f(&self.items[i], i) {
                assert(first_at(f, self@, i as int, false));
                return false;
            }
            i += 1;
        }
        true
    }

    /// Whether `f` answers `true` to some element. The scan goes from the
    /// left and stops at the first element that `f` answers `true` to.
    pub fn some<F: Fn(&T, usize) -> bool>(&self, f: F) -> (r: bool)
        requires
            accepts_scan(f, self@, false),
        ensures
            r ==> exists|i: int| #[trigger] first_at(f, self@, i, true),
            !r ==> answers_all(f, self@, self@.len() as int, false),
    {
        self.find(f).is_some()
    }

    /// The first element that `f` answers `true` to, with its index, or
    /// nothing if `f` answers `false` to every element.
    pub fn find<F: Fn(&T, usize) -> bool>(&self, f: F) -> (r: Option<(&T, usize)>)
        requires
            accepts_scan(f, self@, false),
        ensures
            r matches Some((item, i)) ==> first_at(f, self@, i as int, true) && *item
                == self@[i as int],
            r is None ==> answers_all(f, self@, self@.len() as int, false),
    {
        let mut i: usize = 0;
        while i < self.items.len()
            invariant
                i <= self.items@.len(),
                self@ == self.items@,
                accepts_scan(f, self@, false),
                answers_all(f, self@, i as int, false),
            decreases self.items@.len() - i,
        {
            if f(&self.items[i], i) {
                return Some((&self.items[i], i));
            }
            i += 1;
        }
        None
    }

    /// Whether some element equals `item`. The search goes from the left and
    /// stops at the first element that `==` finds equal.
    ///
    /// For a type whose `==` is what its specification says, the answer is
    /// whether the array holds an element that the specification finds equal
    /// to `item`.
    pub fn includes(&self, item: &T) -> (r: bool) where T: PartialEq
        ensures
            r ==> exists|i: int| #[trigger] found_at(self@, i, item),
            !r ==> forall|i: int|
                0 <= i < self@.len() ==> #[trigger] equals_at(self@, i, item, false),
            T::obeys_eq_spec() ==> r == exists|i: int|
                0 <= i < self@.len() && #[trigger] self@[i].eq_spec(item),
    {
        let mut i: usize = 0;
        while i < self.items.len()
            invariant
                i <= self.items@.len(),
                self@ == self.items@,
                forall|j: int| 0 <= j < i ==> #[trigger] equals_at(self@, j, item, false),
                T::obeys_eq_spec() ==> forall|j: int|
                    0 <= j < i ==> !#[trigger] self@[j].eq_spec(item),
            decreases self.items@.len() - i,
        {
            if self.items[i].eq(item) {
                assert(found_at(self@, i as int, item));
                return true;
            }
            i += 1;
        }
        false
    }

    /// Folds the elements from the left: starting from `init`, `f` is given
    /// the value so far, each element in turn and its index, and answers the
    /// next value.
    pub fn fold<R, F: Fn(R, &T, usize) -> R>(&self, init: R, f: F) -> (r: R)
        requires
            accepts_fold(f, self@, init),
        ensures
            folds_to(f, self@, init, r),
    {
        let mut acc = init;
        let mut i: usize = 0;
        let ghost mut chain: Seq<R> = seq![init];
        while i < self.items.len()
            invariant
                i <= self.items@.len(),
                self@ == self.items@,
                accepts_fold(f, self@, init),
                fold_reaches(f, self@, init, chain, i as int),
                chain[i as int] == acc,
            decreases self.items@.len() - i,
        {
            acc = f(acc, &self.items[i], i);
            proof {
                let longer = chain.push(acc);
                assert forall|j: int| 0 <= j < i + 1 implies #[trigger] fold_step(
                    f,
                    self@,
                    longer,
                    j,
                ) by {
                    if j < i {
                        assert(fold_step(f, self@, chain, j));
                    }
                }
                chain = longer;
            }
            i += 1;
        }
        acc
    }

    /// Reduces the elements from the left: starting from the first element,
    /// `f` is given the value so far, each further element in turn and its
    /// index, and answers the next value. An empty array gives nothing.
    pub fn reduce<F: Fn(T, T, usize) -> T>(&self, f: F) -> (r: Option<T>) where T: Copy
        requires
            accepts_reduce(f, self@),
        ensures
            r is None <==> self@.len() == 0,
            r matches Some(out) ==> reduces_to(f, self@, out),
    {
        if self.items.len() == 0 {
            return None;
        }
        let mut acc = self.items[0];
        let mut i: usize = 1;
        let ghost mut chain: Seq<T> = seq![acc];
        while i < self.items.len()
            invariant
                1 <= i <= self.items@.len(),
                self@ == self.items@,
                accepts_reduce(f, self@),
                reduce_reaches(f, self@, chain, i as int),
                chain[i - 1] == acc,
            decreases self.items@.len() - i,
        {
            acc = f(acc, self.items[i], i);
            proof {
                let longer = chain.push(acc);
                assert forall|j: int| 1 <= j < i + 1 implies #[trigger] reduce_step(
                    f,
                    self@,
                    longer,
                    j,
                ) by {
                    if j < i {
                        assert(reduce_step(f, self@, chain, j));
                    }
                }
                chain = longer;
            }
            i += 1;
        }
        Some(acc)
    }

    /// Calls `f` on each element in turn, from the left, with its index: what
    /// `f` promises of a call holds, afterwards, of every element.
    pub fn each<F: Fn(&T, usize)>(&self, f: F)
        requires
            accepts(f, self@),
        ensures
            forall|i: int| 0 <= i < self@.len() ==> #[trigger] answers(f, self@, i, ()),
    {
        let mut i: usize = 0;
        while i < self.items.len()
            invariant
                i <= self.items@.len(),
                self@ == self.items@,
                accepts(f, self@),
                forall|j: int| 0 <= j < i ==> #[trigger] answers(f, self@, j, ()),
            decreases self.items@.len() - i,
        {
            f(&self.items[i], i);
            i += 1;
        }
    }

    /// The array of what `f` answers to each element in turn, with room for
    /// exactly as many elements as this array holds, obtained from
    /// `allocator`. This array stays as it is.
    ///
    /// The one request to the allocator is that of
    /// [`RawVec::with_capacity_in`] for `self.len()` elements, and `map` fails
    /// as that does. If it fails, `f` has not been called.
    pub fn map<R, B: Allocator, F: Fn(&T, usize) -> R>(&self, f: F, allocator: B) -> (r: Result<
        Vec<R, B>,
        ReserveError,
    >)
        requires
            accepts(f, self@),
        ensures
            Vec::<R, B>::made_in(self@.len() as usize, allocator, r),
            RawVec::<R, B>::asks(self@.len() as usize) ==> exists|
                m: &mut B,
                layout: MemoryLayout,
                answer: AllocResult,
            |
                {
                    &&& #[trigger] Vec::<R, B>::made_by(
                        m,
                        layout,
                        answer,
                        allocator,
                        self@.len() as usize,
                        r,
                    )
                    &&& r matches Ok(v) ==> v.spec_buf().spec_allocator() == *final(m)
                },
            r matches Ok(out) ==> {
                &&& out@.len() == self@.len()
                &&& forall|i: int| 0 <= i < self@.len() ==> #[trigger] answers(f, self@, i, out@[i])
            },
    {
        let len = self.items.len();
        let made = Vec::<R, B>::with_capacity_in(len, allocator);
        let ghost (m, layout, answer) = choose|m: &mut B, layout: MemoryLayout, answer: AllocResult|
            {
                &&& #[trigger] Vec::<R, B>::made_by(m, layout, answer, allocator, len, made)
                &&& made matches Ok(v) ==> v.spec_buf().spec_allocator() == *final(m)
            };
        let mut out = match made {
            Ok(out) => out,
            Err(e) => {
                return Err(e);
            },
        };
        let ghost buf = out.buf;
        let mut i: usize = 0;
        while i < len
            invariant
                i <= len == self.items@.len(),
                self@ == self.items@,
                accepts(f, self@),
                out.buf == buf,
                out.items@.len() == i,
                forall|j: int| 0 <= j < i ==> #[trigger] answers(f, self@, j, out.items@[j]),
            decreases len - i,
        {
            let answer = f(&self.items[i], i);
            out.items.push(answer);
            i += 1;
        }
        let r = Ok(out);
        assert(RawVec::<R, B>::asks(len) ==> Vec::<R, B>::made_by(
            m,
            layout,
            answer,
            allocator,
            len,
            r,
        ));
        r
    }

    /// The array of the elements that `f` answers `true` to, in their order,
    /// with room for as many elements as this array holds, obtained from
    /// `allocator`. This array stays as it is.
    ///
    /// The one request to the allocator is that of
    /// [`RawVec::with_capacity_in`] for `self.len()` elements, and `filter`
    /// fails as that does. If it fails, `f` has not been called.
    pub fn filter<B: Allocator, F: Fn(&T, usize) -> bool>(&self, f: F, allocator: B) -> (r: Result<
        Vec<T, B>,
        ReserveError,
    >) where T: Copy
        requires
            accepts(f, self@),
        ensures
            Vec::<T, B>::made_in(self@.len() as usize, allocator, r),
            RawVec::<T, B>::asks(self@.len() as usize) ==> exists|
                m: &mut B,
                layout: MemoryLayout,
                answer: AllocResult,
            |
                {
                    &&& #[trigger] Vec::<T, B>::made_by(
                        m,
                        layout,
                        answer,
                        allocator,
                        self@.len() as usize,
                        r,
                    )
                    &&& r matches Ok(v) ==> v.spec_buf().spec_allocator() == *final(m)
                },
            r matches Ok(out) ==> exists|keep: Seq<bool>| #[trigger]
                sifts(f, self@, keep) && out@ == kept(self@, keep),
    {
        let len = self.items.len();
        let made = Vec::<T, B>::with_capacity_in(len, allocator);
        let ghost (m, layout, answer) = choose|m: &mut B, layout: MemoryLayout, answer: AllocResult|
            {
                &&& #[trigger] Vec::<T, B>::made_by(m, layout, answer, allocator, len, made)
                &&& made matches Ok(v) ==> v.spec_buf().spec_allocator() == *final(m)
            };
        let mut out = match made {
            Ok(out) => out,
            Err(e) => {
                return Err(e);
            },
        };
        let ghost buf = out.buf;
        let mut i: usize = 0;
        let ghost mut keep: Seq<bool> = Seq::empty();
        while i < len
            invariant
                i <= len == self.items@.len(),
                self@ == self.items@,
                accepts(f, self@),
                out.buf == buf,
                keep.len() == i,
                forall|j: int| 0 <= j < i ==> #[trigger] answers(f, self@, j, keep[j]),
                out.items@ == kept(self@.take(i as int), keep),
                out.items@.len() <= i,
            decreases len - i,
        {
            let item = self.items[i];
            let answer = f(&self.items[i], i);
            proof {
                let longer = keep.push(answer);
                let prefix = self@.take(i + 1);
                assert(prefix.drop_last() == self@.take(i as int));
                assert(longer.drop_last() == keep);
                assert(prefix.last() == item);
                keep = longer;
            }
            if answer {
                out.items.push(item);
            }
            i += 1;
        }
        proof {
            assert(self@.take(len as int) == self@);
            assert(sifts(f, self@, keep));
        }
        let r = Ok(out);
        assert(RawVec::<T, B>::asks(len) ==> Vec::<T, B>::made_by(
            m,
            layout,
            answer,
            allocator,
            len,
            r,
        ));
        r
    }

    /// The array of `len` elements, each a copy of `value`, with room for
    /// exactly `len` elements obtained from `allocator`.
    ///
    /// The one request to the allocator is that of
    /// [`RawVec::with_capacity_in`] for `len` elements, and `with_len_in`
    /// fails as that does.
    pub fn with_len_in(len: usize, value: T, allocator: A) -> (r: Result<
        Self,
        ReserveError,
    >) where T: Copy
        ensures
            Self::made_in(len, allocator, r),
            RawVec::<T, A>::asks(len) ==> exists|
                m: &mut A,
                layout: MemoryLayout,
                answer: AllocResult,
            |
                {
                    &&& #[trigger] Self::made_by(m, layout, answer, allocator, len, r)
                    &&& r matches Ok(v) ==> v.spec_buf().spec_allocator() == *final(m)
                },
            r matches Ok(v) ==> v@ == Seq::new(len as nat, |i: int| value),
    {
        let made = Self::with_capacity_in(len, allocator);
        let ghost (m, layout, answer) = choose|m: &mut A, layout: MemoryLayout, answer: AllocResult|
            {
                &&& #[trigger] Self::made_by(m, layout, answer, allocator, len, made)
                &&& made matches Ok(v) ==> v.spec_buf().spec_allocator() == *final(m)
            };
        let mut out = match made {
            Ok(out) => out,
            Err(e) => {
                return Err(e);
            },
        };
        let ghost buf = out.buf;
        let mut i: usize = 0;
        while i < len
            invariant
                i <= len,
                out.buf == buf,
                out.items@ == Seq::new(i as nat, |j: int| value),
            decreases len - i,
        {
            out.items.push(value);
            i += 1;
        }
        let r = Ok(out);
        assert(RawVec::<T, A>::asks(len) ==> Self::made_by(m, layout, answer, allocator, len, r));
        r
    }

    /// The array of the elements of `arr`, in their order, with room for
    /// exactly that many elements obtained from `allocator`.
    ///
    /// The one request to the allocator is that of
    /// [`RawVec::with_capacity_in`] for `N` elements, and `from_in` fails as
    /// that does.
    pub fn from_in<const N: usize>(arr: &[T; N], allocator: A) -> (r: Result<
        Self,
        ReserveError,
    >) where T: Copy
        ensures
            Self::made_in(N, allocator, r),
            RawVec::<T, A>::asks(N) ==> exists|m: &mut A, layout: MemoryLayout, answer: AllocResult|
                {
                    &&& #[trigger] Self::made_by(m, layout, answer, allocator, N, r)
                    &&& r matches Ok(v) ==> v.spec_buf().spec_allocator() == *final(m)
                },
            r matches Ok(v) ==> v@ == arr@,
    {
        let made = Self::with_capacity_in(N, allocator);
        let ghost (m, layout, answer) = choose|m: &mut A, layout: MemoryLayout, answer: AllocResult|
            {
                &&& #[trigger] Self::made_by(m, layout, answer, allocator, N, made)
                &&& made matches Ok(v) ==> v.spec_buf().spec_allocator() == *final(m)
            };
        let mut out = match made {
            Ok(out) => out,
            Err(e) => {
                return Err(e);
            },
        };
        let ghost buf = out.buf;
        let mut i: usize = 0;
        while i < N
            invariant
                i <= N == arr@.len(),
                out.buf == buf,
                out.items@ == arr@.take(i as int),
            decreases N - i,
        {
            out.items.push(arr[i]);
            i += 1;
        }
        proof {
            assert(arr@.take(N as int) == arr@);
        }
        let r = Ok(out);
        assert(RawVec::<T, A>::asks(N) ==> Self::made_by(m, layout, answer, allocator, N, r));
        r
    }

    /// Ends the array: its elements are dropped, the block of its buffer goes
    /// back to the allocator, and the allocator is handed out.
    pub fn release(self) -> (r: A)
        requires
            self.wf(),
        ensures
            !self.spec_buf().has_allocation() ==> r == self.spec_buf().spec_allocator(),
            self.spec_buf().has_allocation() ==> exists|
                m: &mut A,
                block: NonNull<u8>,
                layout: MemoryLayout,
            |
                {
                    &&& #[trigger] RawVec::released(m, block, layout, self.spec_buf())
                    &&& r == *final(m)
                },
    {
        let Vec { buf, items } = self;
        let _ = items;
        buf.release()
    }
}

impl<T, A: Allocator + Default> Vec<T, A> {
    /// An empty array without capacity, over the allocator's default
    /// instance.
    pub fn new() -> (r: Self)
        ensures
            r.wf(),
            r@ == Seq::<T>::empty(),
            r.spec_buf().spec_cap() == 0,
            !r.spec_buf().has_allocation(),
            call_ensures(A::default, (), r.spec_buf().spec_allocator()),
    {
        Self::new_in(A::default())
    }

    /// As [`Vec::with_capacity_in`], over the allocator's default instance.
    pub fn with_capacity(capacity: usize) -> (r: Result<Self, ReserveError>)
        ensures
            exists|allocator: A|
                {
                    &&& call_ensures(A::default, (), allocator)
                    &&& #[trigger] Self::made_in(capacity, allocator, r)
                },
            RawVec::<T, A>::asks(capacity) ==> exists|
                allocator: A,
                m: &mut A,
                layout: MemoryLayout,
                answer: AllocResult,
            |
                {
                    &&& call_ensures(A::default, (), allocator)
                    &&& #[trigger] Self::made_by(m, layout, answer, allocator, capacity, r)
                    &&& r matches Ok(v) ==> v.spec_buf().spec_allocator() == *final(m)
                },
            r matches Ok(v) ==> v@ == Seq::<T>::empty(),
    {
        Self::with_capacity_in(capacity, A::default())
    }

    /// As [`Vec::with_len_in`], over the allocator's default instance.
    pub fn with_len(len: usize, value: T) -> (r: Result<Self, ReserveError>) where T: Copy
        ensures
            exists|allocator: A|
                {
                    &&& call_ensures(A::default, (), allocator)
                    &&& #[trigger] Self::made_in(len, allocator, r)
                },
            RawVec::<T, A>::asks(len) ==> exists|
                allocator: A,
                m: &mut A,
                layout: MemoryLayout,
                answer: AllocResult,
            |
                {
                    &&& call_ensures(A::default, (), allocator)
                    &&& #[trigger] Self::made_by(m, layout, answer, allocator, len, r)
                    &&& r matches Ok(v) ==> v.spec_buf().spec_allocator() == *final(m)
                },
            r matches Ok(v) ==> v@ == Seq::new(len as nat, |i: int| value),
    {
        Self::with_len_in(len, value, A::default())
    }

    /// As [`Vec::from_in`], over the allocator's default instance.
    pub fn from<const N: usize>(arr: &[T; N]) -> (r: Result<Self, ReserveError>) where T: Copy
        ensures
            exists|allocator: A|
                {
                    &&& call_ensures(A::default, (), allocator)
                    &&& #[trigger] Self::made_in(N, allocator, r)
                },
            RawVec::<T, A>::asks(N) ==> exists|
                allocator: A,
                m: &mut A,
                layout: MemoryLayout,
                answer: AllocResult,
            |
                {
                    &&& call_ensures(A::default, (), allocator)
                    &&& #[trigger] Self::made_by(m, layout, answer, allocator, N, r)
                    &&& r matches Ok(v) ==> v.spec_buf().spec_allocator() == *final(m)
                },
            r matches Ok(v) ==> v@ == arr@,
    {
        Self::from_in(arr, A::default())
    }
}

} // verus!
