//! Signals: a value that can be read, replaced and updated.

use vstd::prelude::*;

verus! {

/// Something that a value of `T` can be read from.
pub trait ReadSig<T> {
    /// The value now.
    fn get(&self) -> T;
}

/// Something that a value of `T` can be written to.
pub trait WriteSig<T> {
    /// Replaces the value by `val`.
    fn set(&mut self, val: T);

    /// Replaces the value by what `fn_update` makes of it.
    fn set_width<F: Fn(T) -> T>(&mut self, fn_update: F)
        requires
            forall|val: T| call_requires(fn_update, (val,)),
    ;
}

/// A signal: the holder of one value.
pub struct Sig<T> {
    val: T,
}

impl<T> Sig<T> {
    /// The value held.
    pub closed spec fn view(&self) -> T {
        self.val
    }

    /// The signal that holds `val`.
    pub fn new(val: T) -> (r: Self)
        ensures
            r@ == val,
    {
        Self { val }
    }
}

impl<T: Copy> ReadSig<T> for Sig<T> {
    fn get(&self) -> (r: T)
        ensures
            r == self@,
    {
        self.val
    }
}

impl<T: Copy> WriteSig<T> for Sig<T> {
    fn set(&mut self, val: T)
        ensures
            final(self)@ == val,
    {
        self.val = val
    }

    fn set_width<F: Fn(T) -> T>(&mut self, fn_update: F)
        ensures
            call_ensures(fn_update, (old(self)@,), final(self)@),
    {
        self.val = fn_update(self.val)
    }
}

} // verus!
