//! The allocator capability, and the adapter that offers it over the
//! primitives of a memory manager.

use crate::memory_allocator::MemoryAllocator;
use crate::memory_layout::MemoryLayout;
use crate::non_null::NonNull;
use vstd::prelude::*;

verus! {

/// The allocator could not satisfy a request.
#[derive(Clone, Copy, Debug, PartialEq, Eq, Structural)]
pub struct AllocError;

/// What an allocator answers to a request: the address of the block and the
/// number of bytes provided, or that it has none to give.
pub type AllocResult = Result<(NonNull<u8>, usize), AllocError>;

/// The capability to allocate, grow and release blocks of memory, each
/// described by a layout.
///
/// A block is named by its address and comes with the number of bytes that
/// were actually provided. An allocator is expected to answer a request for
/// zero bytes with a dangling, aligned address and a length of zero, without
/// allocating; nothing here relies on it, since a buffer never asks for zero
/// bytes.
pub trait Allocator {
    /// Asks for a block that fits `layout`; if `zeroed`, one whose bytes are
    /// all zero.
    fn allocate(&mut self, layout: MemoryLayout, zeroed: bool) -> (r: AllocResult)
    ;

    /// Asks for the block at `ptr`, which this allocator provided for
    /// `old_layout`, to be grown to fit `new_layout`, keeping its first
    /// `old_layout.size()` bytes; if `zeroed`, the bytes past them are zero.
    /// On failure the block at `ptr` is still the caller's.
    ///
    /// The block may grow but not shrink, and keeps its alignment.
    fn grow(
        &mut self,
        ptr: NonNull<u8>,
        old_layout: MemoryLayout,
        new_layout: MemoryLayout,
        zeroed: bool,
    ) -> (r: AllocResult)
        requires
            new_layout.size() >= old_layout.size(),
            new_layout.align().as_usize() == old_layout.align().as_usize(),
    ;

    /// Releases the block at `ptr`, which this allocator provided for
    /// `layout`.
    fn dealloc(&mut self, ptr: NonNull<u8>, layout: MemoryLayout)
    ;
}

/// The allocator over the primitives of a memory manager `M`.
///
/// It keeps from the manager what a manager need not serve: a request for
/// zero bytes is answered with a dangling, aligned address and never reaches
/// `M`; the null address that `M` returns becomes an [`AllocError`].
pub struct GlobalAllocator<M: MemoryAllocator> {
    raw: M,
}

impl<M: MemoryAllocator + Default> Default for GlobalAllocator<M> {
    /// The allocator over the default instance of the memory manager.
    fn default() -> (r: Self)
        ensures
            call_ensures(M::default, (), r.spec_raw()),
    {
        GlobalAllocator { raw: M::default() }
    }
}

/// What an allocator answers once the memory manager has returned `addr` to a
/// request for `size` bytes.
pub open spec fn block_at(addr: usize, size: usize, r: AllocResult)
    -> bool {
    if addr == 0 {
        r == Err::<(NonNull<u8>, usize), AllocError>(AllocError)
    } else {
        r matches Ok((p, n)) && p.as_ptr() == addr && n == size
    }
}

impl<M: MemoryAllocator> GlobalAllocator<M> {
    /// The memory manager underneath.
    pub closed spec fn spec_raw(self) -> M {
        self.raw
    }

    /// An allocator over `raw`.
    pub fn new(raw: M) -> (r: Self)
        ensures
            r.spec_raw() == raw,
    {
        GlobalAllocator { raw }
    }

    /// The memory manager underneath.
    pub fn raw(&self) -> (r: &M)
        ensures
            *r == self.spec_raw(),
    {
        &self.raw
    }

    /// Gives the memory manager back.
    pub fn into_raw(self) -> (r: M)
        ensures
            r == self.spec_raw(),
    {
        self.raw
    }

    /// `m` is the one call that a request for `layout`, of more than zero
    /// bytes, makes to the memory manager `raw`, and `addr` is what the manager
    /// returned: a call for the size and alignment of `layout`, of the
    /// primitive that zeroes the block if `zeroed` and of the plain one if not.
    pub open spec fn requested(
        m: &mut M,
        addr: usize,
        raw: M,
        layout: MemoryLayout,
        zeroed: bool,
    ) -> bool {
        &&& *m == raw
        &&& if zeroed {
            call_ensures(M::allocate_zeroed, (m, layout.size(), layout.align().as_usize()), addr)
        } else {
            call_ensures(M::allocate, (m, layout.size(), layout.align().as_usize()), addr)
        }
    }

    /// `m` is the one call that growing the block at `ptr` from `old_layout`,
    /// of more than zero bytes, to `new_layout` makes to the memory manager
    /// `raw`, and `addr` is what the manager returned: a call to resize the
    /// block in place, of the primitive that zeroes the new bytes if `zeroed`
    /// and of the plain one if not.
    pub open spec fn resized(
        m: &mut M,
        addr: usize,
        raw: M,
        ptr: NonNull<u8>,
        old_layout: MemoryLayout,
        new_layout: MemoryLayout,
        zeroed: bool,
    ) -> bool {
        &&& *m == raw
        &&& if zeroed {
            call_ensures(
                M::reallocate_zeroed,
                (
                    m,
                    ptr.as_ptr(),
                    old_layout.size(),
                    new_layout.align().as_usize(),
                    new_layout.size(),
                ),
                addr,
            )
        } else {
            call_ensures(
                M::reallocate,
                (
                    m,
                    ptr.as_ptr(),
                    old_layout.size(),
                    new_layout.align().as_usize(),
                    new_layout.size(),
                ),
                addr,
            )
        }
    }

    /// `m` is the one call that releasing the block at `ptr`, of more than
    /// zero bytes, makes to the memory manager `raw`: it gives the block back
    /// with the size and alignment of `layout`.
    pub open spec fn returned(m: &mut M, raw: M, ptr: NonNull<u8>, layout: MemoryLayout) -> bool {
        &&& *m == raw
        &&& call_ensures(
            M::deallocate,
            (m, ptr.as_ptr(), layout.size(), layout.align().as_usize()),
            (),
        )
    }

    /// Turns the address that the memory manager returned to a request for
    /// `size` bytes into the allocator's answer: null is a failure, any other
    /// address a block of `size` bytes.
    pub fn block(addr: usize, size: usize) -> (r: AllocResult)
        ensures
            block_at(addr, size, r),
    {
        match NonNull::new(addr) {
            None => Err(AllocError),
            Some(ptr) => Ok((ptr, size)),
        }
    }
}

impl<M: MemoryAllocator> Allocator for GlobalAllocator<M> {
    /// A request for zero bytes never reaches the memory manager: it is
    /// answered with the layout's dangling address and a length of zero. Any
    /// other request goes to the manager once, as
    /// [`GlobalAllocator::requested`] says, and what the manager returns is
    /// answered as [`GlobalAllocator::block`] does for `layout.size()` bytes.
    fn allocate(&mut self, layout: MemoryLayout, zeroed: bool) -> (r: AllocResult)
        ensures
            layout.size() == 0 ==> {
                &&& final(self).spec_raw() == old(self).spec_raw()
                &&& r matches Ok((p, n))
                &&& p.as_ptr() == layout.align().as_usize()
                &&& n == 0
            },
            layout.size() != 0 ==> exists|m: &mut M, addr: usize|
                {
                    &&& #[trigger] Self::requested(m, addr, old(self).spec_raw(), layout, zeroed)
                    &&& block_at(addr, layout.size(), r)
                    &&& final(self).spec_raw() == *final(m)
                },
    {
        let size = layout.size();
        if size == 0 {
            Ok((layout.dangling(), 0))
        } else {
            let align = layout.align().as_usize();
            let addr = if zeroed {
                let addr = self.raw.allocate_zeroed(size, align);
                proof {
                    let m = choose|m: &mut M| #[trigger]
                        call_ensures(M::allocate_zeroed, (m, size, align), addr) && *m == old(
                            self,
                        ).raw && *final(m) == self.raw;
                    assert(Self::requested(m, addr, old(self).spec_raw(), layout, zeroed));
                }
                addr
            } else {
                let addr = self.raw.allocate(size, align);
                proof {
                    let m = choose|m: &mut M| #[trigger]
                        call_ensures(M::allocate, (m, size, align), addr) && *m == old(self).raw
                            && *final(m) == self.raw;
                    assert(Self::requested(m, addr, old(self).spec_raw(), layout, zeroed));
                }
                addr
            };
            Self::block(addr, size)
        }
    }

    /// A block of zero bytes is grown by allocating afresh, as
    /// [`Allocator::allocate`] does for `new_layout`. Any other block is
    /// resized in place by the memory manager, once, as
    /// [`GlobalAllocator::resized`] says, and what the manager returns is
    /// answered as [`GlobalAllocator::block`] does for `new_layout.size()`
    /// bytes.
    fn grow(
        &mut self,
        ptr: NonNull<u8>,
        old_layout: MemoryLayout,
        new_layout: MemoryLayout,
        zeroed: bool,
    ) -> (r: AllocResult)
        ensures
            new_layout.size() == 0 ==> {
                &&& final(self).spec_raw() == old(self).spec_raw()
                &&& r matches Ok((p, n))
                &&& p.as_ptr() == new_layout.align().as_usize()
                &&& n == 0
            },
            old_layout.size() == 0 && new_layout.size() != 0 ==> exists|m: &mut M, addr: usize|
                {
                    &&& #[trigger] Self::requested(
                        m,
                        addr,
                        old(self).spec_raw(),
                        new_layout,
                        zeroed,
                    )
                    &&& block_at(addr, new_layout.size(), r)
                    &&& final(self).spec_raw() == *final(m)
                },
            old_layout.size() != 0 ==> exists|m: &mut M, addr: usize|
                {
                    &&& #[trigger] Self::resized(
                        m,
                        addr,
                        old(self).spec_raw(),
                        ptr,
                        old_layout,
                        new_layout,
                        zeroed,
                    )
                    &&& block_at(addr, new_layout.size(), r)
                    &&& final(self).spec_raw() == *final(m)
                },
    {
        let old_size = old_layout.size();
        if old_size == 0 {
            self.allocate(new_layout, zeroed)
        } else {
            let new_size = new_layout.size();
            let align = new_layout.align().as_usize();
            let addr = if zeroed {
                let addr = self.raw.reallocate_zeroed(ptr.as_ptr(), old_size, align, new_size);
                proof {
                    let m = choose|m: &mut M| #[trigger]
                        call_ensures(
                            M::reallocate_zeroed,
                            (m, ptr.as_ptr(), old_size, align, new_size),
                            addr,
                        ) && *m == old(self).raw && *final(m) == self.raw;
                    assert(Self::resized(
                        m,
                        addr,
                        old(self).spec_raw(),
                        ptr,
                        old_layout,
                        new_layout,
                        zeroed,
                    ));
                }
                addr
            } else {
                let addr = self.raw.reallocate(ptr.as_ptr(), old_size, align, new_size);
                proof {
                    let m = choose|m: &mut M| #[trigger]
                        call_ensures(
                            M::reallocate,
                            (m, ptr.as_ptr(), old_size, align, new_size),
                            addr,
                        ) && *m == old(self).raw && *final(m) == self.raw;
                    assert(Self::resized(
                        m,
                        addr,
                        old(self).spec_raw(),
                        ptr,
                        old_layout,
                        new_layout,
                        zeroed,
                    ));
                }
                addr
            };
            Self::block(addr, new_size)
        }
    }

    /// A block of zero bytes was never the memory manager's, and is not
    /// handed to it; any other block is given back to it, once, as
    /// [`GlobalAllocator::returned`] says.
    fn dealloc(&mut self, ptr: NonNull<u8>, layout: MemoryLayout)
        ensures
            layout.size() == 0 ==> final(self).spec_raw() == old(self).spec_raw(),
            layout.size() != 0 ==> exists|m: &mut M|
                {
                    &&& #[trigger] Self::returned(m, old(self).spec_raw(), ptr, layout)
                    &&& final(self).spec_raw() == *final(m)
                },
    {
        let size = layout.size();
        if size != 0 {
            let align = layout.align().as_usize();
            self.raw.deallocate(ptr.as_ptr(), size, align);
            proof {
                let m = choose|m: &mut M| #[trigger]
                    call_ensures(M::deallocate, (m, ptr.as_ptr(), size, align), ()) && *m == old(
                        self,
                    ).raw && *final(m) == self.raw;
                assert(Self::returned(m, old(self).spec_raw(), ptr, layout));
            }
        }
    }
}

} // verus!
