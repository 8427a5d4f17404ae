//! The primitives of a memory manager, on plain addresses.

use crate::memory_layout::max_size_for;
use vstd::arithmetic::power2::is_pow2;
use vstd::prelude::*;

verus! {

/// What a memory manager offers: blocks of bytes, named by their address.
///
/// The address zero is the null address and reports that no block could be
/// had. A manager need not serve requests for zero bytes, so none is ever
/// made: every size passed is positive, and every size and alignment passed
/// describe a region that can exist.
pub trait MemoryAllocator {
    /// Asks for `size` bytes aligned to `align`; gives the address of the
    /// block, or null.
    fn allocate(&mut self, size: usize, align: usize) -> (addr: usize)
        requires
            size > 0,
            is_pow2(align as int),
            size <= max_size_for(align as int),
    ;

    /// As [`MemoryAllocator::allocate`], with every byte of the block set to
    /// zero.
    fn allocate_zeroed(&mut self, size: usize, align: usize) -> (addr: usize)
        requires
            size > 0,
            is_pow2(align as int),
            size <= max_size_for(align as int),
    ;

    /// Gives back the block of `size` bytes at `addr`, which this manager
    /// handed out with this size and alignment.
    fn deallocate(&mut self, addr: usize, size: usize, align: usize)
        requires
            addr != 0,
            size > 0,
            is_pow2(align as int),
            size <= max_size_for(align as int),
    ;

    /// Resizes the block of `old_size` bytes at `addr` to `new_size` bytes,
    /// keeping its contents up to the smaller of the two sizes; gives the
    /// address of the resized block, or null, in which case the block at
    /// `addr` is still the caller's.
    fn reallocate(
        &mut self,
        addr: usize,
        old_size: usize,
        align: usize,
        new_size: usize,
    ) -> (new_addr: usize)
        requires
            addr != 0,
            old_size > 0,
            new_size > 0,
            is_pow2(align as int),
            old_size <= max_size_for(align as int),
            new_size <= max_size_for(align as int),
    ;

    /// As [`MemoryAllocator::reallocate`] for a block that grows, with every byte
    /// past `old_size` set to zero.
    fn reallocate_zeroed(
        &mut self,
        addr: usize,
        old_size: usize,
        align: usize,
        new_size: usize,
    ) -> (new_addr: usize)
        requires
            addr != 0,
            old_size > 0,
            new_size >= old_size,
            is_pow2(align as int),
            old_size <= max_size_for(align as int),
            new_size <= max_size_for(align as int),
    ;
}

} // verus!
