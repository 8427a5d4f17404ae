//! A plain array over the standard vector.

use vstd::prelude::*;

verus! {

/// An array of `T`, first element to last.
pub struct Arr<T>(std::vec::Vec<T>);

impl<T> Arr<T> {
    /// The elements, first to last.
    pub closed spec fn view(&self) -> Seq<T> {
        self.0@
    }

    /// An empty array.
    pub fn new() -> (r: Self)
        ensures
            r@ == Seq::<T>::empty(),
    {
        Arr(std::vec::Vec::new())
    }

    /// The number of elements.
    pub fn len(&self) -> (r: usize)
        ensures
            r == self@.len(),
    {
        self.0.len()
    }

    /// Whether the array has no element.
    pub fn is_empty(&self) -> (r: bool)
        ensures
            r == (self@.len() == 0),
    {
        self.0.is_empty()
    }
}

impl<T> Default for Arr<T> {
    fn default() -> (r: Self)
        ensures
            r@ == Seq::<T>::empty(),
    {
        Self::new()
    }
}

} // verus!
