//! A value that is there, or a reason why it is not.

use vstd::prelude::*;

verus! {

/// Either a value, or what stands in its place.
#[derive(Debug, PartialEq, Eq, Hash)]
pub enum Opt<T, E = ()> {
    /// The value is there.
    Yes(T),
    /// The value is not there; `E` says what is known instead.
    No(E),
}

impl<T: Copy, E: Copy> Clone for Opt<T, E> {
    fn clone(&self) -> (r: Self)
        ensures
            r == *self,
    {
        *self
    }
}

impl<T: Copy, E: Copy> Copy for Opt<T, E> {

}

impl<T, E> Opt<T, E> {
    /// Whether the value is there.
    pub fn is_ok(&self) -> (r: bool)
        ensures
            r == (*self is Yes),
    {
        match self {
            Opt::Yes(_) => true,
            Opt::No(_) => false,
        }
    }

    /// The value if it is there, and `val` if it is not.
    pub fn ok_or(self, val: T) -> (r: T)
        ensures
            r == (match self {
                Opt::Yes(ok_val) => ok_val,
                Opt::No(_) => val,
            }),
    {
        match self {
            Opt::Yes(ok_val) => ok_val,
            Opt::No(_) => val,
        }
    }
}

} // verus!
