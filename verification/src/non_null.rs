//! Addresses that are known not to be null.

use core::marker::PhantomData;
use vstd::layout::{align_of, layout_for_type_is_valid};
use vstd::prelude::*;

verus! {

/// The address of a `T` that is never the null address.
///
/// The address is held as a number: this type does not read the memory it
/// names, owns nothing, and any number of copies may name the same place.
pub struct NonNull<T> {
    addr: usize,
    _marker: PhantomData<T>,
}

impl<T> Clone for NonNull<T> {
    fn clone(&self) -> (r: Self)
        ensures
            r == *self,
    {
        *self
    }
}

impl<T> Copy for NonNull<T> {

}

impl<T> NonNull<T> {
    #[verifier::type_invariant]
    spec fn well_formed(self) -> bool {
        self.addr != 0
    }

    /// The address held.
    pub closed spec fn spec_as_ptr(self) -> usize {
        self.addr
    }

    /// Wraps `addr`, unless it is the null address.
    pub fn new(addr: usize) -> (r: Option<Self>)
        ensures
            r is None <==> addr == 0,
            r matches Some(p) ==> p.as_ptr() == addr,
    {
        if addr == 0 {
            None
        } else {
            Some(NonNull { addr, _marker: PhantomData })
        }
    }

    /// Wraps `addr`, trusting the caller that it is not the null address.
    pub fn new_unchecked(addr: usize) -> (r: Self)
        requires
            addr != 0,
        ensures
            r.as_ptr() == addr,
    {
        NonNull { addr, _marker: PhantomData }
    }

    /// An address that is not null and is aligned for `T`, but names no `T`:
    /// the alignment of `T` itself. It stands for "nothing allocated yet" and
    /// must never be read through.
    pub fn dangling() -> (r: Self)
        ensures
            r.as_ptr() == align_of::<T>(),
    {
        layout_for_type_is_valid::<T>();
        NonNull { addr: core::mem::align_of::<T>(), _marker: PhantomData }
    }

    /// The same address, taken as the address of a `U`.
    pub fn cast<U>(self) -> (r: NonNull<U>)
        ensures
            r.as_ptr() == self.as_ptr(),
    {
        proof {
            use_type_invariant(&self);
        }
        NonNull { addr: self.addr, _marker: PhantomData }
    }

    /// The address held; never null.
    #[verifier::when_used_as_spec(spec_as_ptr)]
    pub fn as_ptr(self) -> (r: usize)
        ensures
            r == self.spec_as_ptr(),
            r != 0,
    {
        proof {
            use_type_invariant(&self);
        }
        self.addr
    }
}

} // verus!
