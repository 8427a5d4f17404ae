//! Addresses whose holder owns what they name.

use crate::non_null::NonNull;
use core::marker::PhantomData;
use vstd::layout::align_of;
use vstd::prelude::*;
use vstd::std_specs::convert::FromSpecImpl;

verus! {

/// A non-null address whose holder owns the `T` it names.
///
/// It behaves as if it were the `T` itself: while it is alive, nothing else
/// may read or write the place it names except through it. The address is
/// never null, though it may dangle as long as it is not read through.
pub struct Unique<T> {
    pointer: NonNull<T>,
    _marker: PhantomData<T>,
}

impl<T> Clone for Unique<T> {
    fn clone(&self) -> (r: Self)
        ensures
            r == *self,
    {
        Unique { pointer: self.pointer, _marker: PhantomData }
    }
}

impl<T> From<NonNull<T>> for Unique<T> {
    fn from(pointer: NonNull<T>) -> (r: Self)
        ensures
            r.as_non_null() == pointer,
    {
        Unique { pointer, _marker: PhantomData }
    }
}

impl<T> FromSpecImpl<NonNull<T>> for Unique<T> {
    open spec fn obeys_from_spec() -> bool {
        true
    }

    open spec fn from_spec(pointer: NonNull<T>) -> Self {
        Unique::of(pointer)
    }
}

impl<T> Unique<T> {
    /// The owning address made of `pointer`.
    pub closed spec fn of(pointer: NonNull<T>) -> Self {
        Unique { pointer, _marker: PhantomData }
    }

    /// The owning address made of `pointer` holds `pointer`.
    pub proof fn lemma_of(pointer: NonNull<T>)
        ensures
            Self::of(pointer).as_non_null() == pointer,
            Self::of(pointer).as_ptr() == pointer.as_ptr(),
    {
    }

    /// The address held, without the claim of ownership.
    pub closed spec fn spec_as_non_null(&self) -> NonNull<T> {
        self.pointer
    }

    /// The address held, as a number.
    pub open spec fn spec_as_ptr(self) -> usize {
        self.spec_as_non_null().as_ptr()
    }

    /// An owning address that dangles but is aligned for `T`: the alignment
    /// of `T`. It serves types that allocate lazily as their first value.
    pub fn dangling() -> (r: Self)
        ensures
            r.as_ptr() == align_of::<T>(),
    {
        Unique { pointer: NonNull::dangling(), _marker: PhantomData }
    }

    /// Takes ownership of what `addr` names, trusting the caller that `addr`
    /// is not the null address.
    pub fn new_unchecked(addr: usize) -> (r: Self)
        requires
            addr != 0,
        ensures
            r.as_ptr() == addr,
    {
        Unique { pointer: NonNull::new_unchecked(addr), _marker: PhantomData }
    }

    /// Takes ownership of what `addr` names, unless `addr` is the null
    /// address.
    pub fn new(addr: usize) -> (r: Option<Self>)
        ensures
            r is None <==> addr == 0,
            r matches Some(p) ==> p.as_ptr() == addr,
    {
        if let Some(pointer) = NonNull::new(addr) {
            Some(Unique { pointer, _marker: PhantomData })
        } else {
            None
        }
    }

    /// The address held, without the claim of ownership.
    #[verifier::when_used_as_spec(spec_as_non_null)]
    pub fn as_non_null(&self) -> (r: NonNull<T>)
        ensures
            r == self.spec_as_non_null(),
    {
        self.pointer
    }

    /// The address held, as a number; never null.
    #[verifier::when_used_as_spec(spec_as_ptr)]
    pub fn as_ptr(self) -> (r: usize)
        ensures
            r == self.spec_as_ptr(),
            r != 0,
    {
        self.pointer.as_ptr()
    }

    /// The same address, owning a `U` in place of the `T`.
    pub fn cast<U>(self) -> (r: Unique<U>)
        ensures
            r.as_ptr() == self.as_ptr(),
    {
        Unique { pointer: self.pointer.cast(), _marker: PhantomData }
    }
}

} // verus!
