//! Low-level memory building blocks, from the bottom up:
//!
//! * [`memory_alignment`]: alignments, which are powers of two;
//! * [`memory_layout`]: layouts, the size and alignment of a region, with the
//!   one computation of the size of an array that cannot overflow;
//! * [`non_null`] and [`unique`]: addresses that are never null, without and
//!   with a claim of ownership;
//! * [`memory_allocator`] and [`allocator`]: the primitives of a memory
//!   manager, and the allocator capability offered over them;
//! * [`raw_vec`]: the raw buffer, which keeps an address and a capacity,
//!   grows geometrically, and reports what it could not get;
//! * [`rng`] and [`vec`]: the operations of a range over sequences, and the
//!   dynamic array that offers them.
//!
//! [`opt`], [`arr`] and [`sig`] hold small types that stand on their own.
//!
//! Addresses are plain numbers here: nothing in this crate reads or writes the
//! memory that an address names.

pub mod memory_alignment;
pub mod memory_layout;
pub mod non_null;
pub mod unique;
pub mod memory_allocator;
pub mod allocator;
pub mod raw_vec;
pub mod rng;
pub mod vec;
pub mod opt;
pub mod arr;
pub mod sig;
