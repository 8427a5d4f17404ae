//! Layouts: the size and alignment of a region of memory.

use crate::memory_alignment::{lemma_pow2_within_max, max_alignment, MemoryAlignment};
use crate::non_null::NonNull;
use vstd::arithmetic::power2::is_pow2;
use vstd::layout::{align_of, layout_for_type_is_valid, size_of};
use vstd::prelude::*;

verus! {

/// The size and alignment asked for do not describe a region that can exist:
/// the size, rounded up to the alignment, would pass the largest signed size.
#[derive(Clone, Copy, Debug, PartialEq, Eq, Structural)]
pub struct LayoutError;

/// The size and alignment of a region of memory.
///
/// The size, rounded up to the alignment, never exceeds `isize::MAX`.
#[derive(Clone, Copy, Debug, PartialEq, Eq, Structural)]
pub struct MemoryLayout {
    size: usize,
    align: MemoryAlignment,
}

/// The largest size a region aligned to `align` may have.
pub open spec fn max_size_for(align: int) -> int {
    isize::MAX - (align - 1)
}

/// `size` rounded up to the next multiple of `align`.
pub open spec fn padded_size(size: int, align: int) -> int {
    ((size + align - 1) / align) * align
}

/// Rounding up yields the least multiple of `align` that is not below `size`.
pub proof fn lemma_padded_size(size: int, align: int)
    requires
        0 <= size,
        0 < align,
    ensures
        size <= padded_size(size, align) < size + align,
        padded_size(size, align) % align == 0,
        size % align == 0 ==> padded_size(size, align) == size,
{
    let t = size + align - 1;
    let q = t / align;
    vstd::arithmetic::div_mod::lemma_fundamental_div_mod(t, align);
    vstd::arithmetic::div_mod::lemma_mod_bound(t, align);
    assert(align * q == q * align) by (nonlinear_arith);
    vstd::arithmetic::div_mod::lemma_mod_multiples_basic(q, align);
    if size % align == 0 {
        let k = size / align;
        vstd::arithmetic::div_mod::lemma_fundamental_div_mod(size, align);
        assert(align * k == k * align) by (nonlinear_arith);
        // t = k * align + (align - 1), so t / align == k.
        vstd::arithmetic::div_mod::lemma_fundamental_div_mod_converse(
            t,
            align,
            k,
            align - 1,
        );
    }
}

/// A size is within the limit for its alignment exactly when, rounded up to
/// that alignment, it still fits the largest signed size.
pub proof fn lemma_fits_iff_padded_fits(size: int, align: int)
    requires
        0 <= size,
        is_pow2(align),
        align <= usize::MAX,
    ensures
        size <= max_size_for(align) <==> padded_size(size, align) <= isize::MAX,
{
    lemma_pow2_within_max(align);
    lemma_padded_size(size, align);
    let padded = padded_size(size, align);
    if padded <= isize::MAX {
        // Both `padded` and `isize::MAX + 1` are multiples of `align`, so the
        // gap between them is a whole multiple too.
        let limit = max_alignment();
        let a = padded / align;
        let b = limit / align;
        vstd::arithmetic::div_mod::lemma_fundamental_div_mod(padded, align);
        vstd::arithmetic::div_mod::lemma_fundamental_div_mod(limit, align);
        assert(padded == align * a);
        assert(limit == align * b);
        assert(a < b) by (nonlinear_arith)
            requires
                align * a < align * b,
                0 < align,
        ;
        assert(align * a + align <= align * b) by (nonlinear_arith)
            requires
                a + 1 <= b,
                0 < align,
        ;
    }
}

/// For a size that is a multiple of its alignment, the limit for the
/// alignment and the largest signed size admit the same sizes.
pub proof fn lemma_multiple_fits(size: int, align: int)
    requires
        0 <= size,
        is_pow2(align),
        align <= usize::MAX,
        size % align == 0,
    ensures
        size <= max_size_for(align) <==> size <= isize::MAX,
{
    lemma_pow2_within_max(align);
    lemma_padded_size(size, align);
    lemma_fits_iff_padded_fits(size, align);
}

/// The limit for an alignment, written with a remainder: for a power of two
/// `align`, `isize::MAX % align` is `align - 1`.
pub proof fn lemma_limit_matches_remainder(align: int)
    requires
        is_pow2(align),
        align <= usize::MAX,
    ensures
        (isize::MAX as int) % align == align - 1,
        max_size_for(align) == isize::MAX - ((isize::MAX as int) % align),
{
    lemma_pow2_within_max(align);
    let limit = max_alignment();
    let b = limit / align;
    vstd::arithmetic::div_mod::lemma_fundamental_div_mod(limit, align);
    assert(align * b == align * (b - 1) + align) by (nonlinear_arith);
    vstd::arithmetic::div_mod::lemma_fundamental_div_mod_converse(
        isize::MAX as int,
        align,
        b - 1,
        align - 1,
    );
}

/// With a positive element size, `n` elements stay within `limit` exactly
/// when `n` does not exceed the quotient.
proof fn lemma_count_within_quotient(element_size: int, n: int, limit: int)
    requires
        0 < element_size,
        0 <= n,
        0 <= limit,
    ensures
        n <= limit / element_size <==> element_size * n <= limit,
{
    let q = limit / element_size;
    vstd::arithmetic::div_mod::lemma_fundamental_div_mod(limit, element_size);
    vstd::arithmetic::div_mod::lemma_mod_bound(limit, element_size);
    if n <= q {
        assert(element_size * n <= element_size * q) by (nonlinear_arith)
            requires
                n <= q,
                0 < element_size,
        ;
    } else {
        assert(element_size * n >= element_size * (q + 1)) by (nonlinear_arith)
            requires
                n >= q + 1,
                0 < element_size,
        ;
        assert(element_size * (q + 1) == element_size * q + element_size)
            by (nonlinear_arith);
    }
}

/// The size and the alignment of `T`, which together describe a region that
/// can exist.
fn size_align<T>() -> (r: (usize, usize))
    ensures
        r.0 == size_of::<T>(),
        r.1 == align_of::<T>(),
        is_pow2(r.1 as int),
        r.0 <= max_size_for(r.1 as int),
{
    layout_for_type_is_valid::<T>();
    proof {
        lemma_limit_matches_remainder(align_of::<T>() as int);
    }
    (core::mem::size_of::<T>(), core::mem::align_of::<T>())
}

impl MemoryLayout {
    #[verifier::type_invariant]
    spec fn well_formed(self) -> bool {
        self.size <= max_size_for(self.align.as_usize() as int)
    }

    /// The number of bytes of the region.
    pub closed spec fn spec_size(self) -> usize {
        self.size
    }

    /// The alignment of the region.
    pub closed spec fn spec_align(self) -> MemoryAlignment {
        self.align
    }

    /// Two layouts of the same size and alignment are the same layout.
    pub proof fn lemma_same_size_align(self, other: Self)
        requires
            self.size() == other.size(),
            self.align().as_usize() == other.align().as_usize(),
        ensures
            self == other,
    {
        self.align.lemma_same_value(other.align);
    }

    /// The largest size that a region aligned to `align` may have:
    /// `isize::MAX - (align - 1)`.
    pub fn max_size_for_align(align: MemoryAlignment) -> (r: usize)
        ensures
            r == max_size_for(align.as_usize() as int),
            is_pow2(align.as_usize() as int),
    {
        isize::MAX as usize - (align.as_usize() - 1)
    }

    /// The layout of the given size and alignment, if they describe a region
    /// that can exist: `align` must be a power of two, and `size` at most the
    /// limit for it.
    pub fn from_size_align(size: usize, align: usize) -> (r: Result<Self, LayoutError>)
        ensures
            r is Ok <==> is_pow2(align as int) && size <= max_size_for(align as int),
            r matches Ok(layout) ==> layout.size() == size && layout.align().as_usize()
                == align,
    {
        match MemoryAlignment::new(align) {
            None => Err(LayoutError),
            Some(alignment) => {
                if size > Self::max_size_for_align(alignment) {
                    Err(LayoutError)
                } else {
                    Ok(MemoryLayout { size, align: alignment })
                }
            },
        }
    }

    /// The layout of the given size and alignment, trusting the caller that
    /// they describe a region that can exist.
    pub fn from_size_align_unchecked(size: usize, align: usize) -> (r: Self)
        requires
            is_pow2(align as int),
            size <= max_size_for(align as int),
        ensures
            r.size() == size,
            r.align().as_usize() == align,
    {
        MemoryLayout { size, align: MemoryAlignment::new_unchecked(align) }
    }

    /// The layout of one `T`.
    pub fn new<T>() -> (r: Self)
        ensures
            r.size() == size_of::<T>(),
            r.align().as_usize() == align_of::<T>(),
    {
        let (size, align) = size_align::<T>();
        // A type that exists has a layout that can exist: there is nothing
        // to check.
        Self::from_size_align_unchecked(size, align)
    }

    /// The number of bytes of the region.
    #[verifier::when_used_as_spec(spec_size)]
    pub fn size(self) -> (r: usize)
        ensures
            r == self.spec_size(),
            r <= max_size_for(self.align().as_usize() as int),
    {
        proof {
            use_type_invariant(&self);
        }
        self.size
    }

    /// The alignment of the region.
    #[verifier::when_used_as_spec(spec_align)]
    pub fn align(self) -> (r: MemoryAlignment)
        ensures
            r == self.spec_align(),
    {
        self.align
    }

    /// An address that is not null and is aligned for this layout, but names no
    /// memory: the alignment itself.
    pub fn dangling(self) -> (r: NonNull<u8>)
        ensures
            r.as_ptr() == self.align().as_usize(),
    {
        NonNull::new_unchecked(self.align.as_usize())
    }

    /// The layout of `n` elements of `element_size` bytes each, laid out one
    /// after the other and aligned to `align`.
    ///
    /// Fails exactly when the total size passes the limit for `align`, which
    /// is when, rounded up to `align`, it would pass `isize::MAX`; a region of
    /// zero-sized elements always fits.
    pub fn array_of(element_size: usize, align: MemoryAlignment, n: usize) -> (r: Result<
        Self,
        LayoutError,
    >)
        ensures
            r is Ok <==> element_size * n <= max_size_for(align.as_usize() as int),
            r is Ok <==> padded_size(element_size * n, align.as_usize() as int) <= isize::MAX,
            r matches Ok(layout) ==> layout.size() == element_size * n && layout.align()
                == align,
    {
        let limit = Self::max_size_for_align(align);
        proof {
            assert(0 <= element_size * n) by (nonlinear_arith);
            lemma_fits_iff_padded_fits((element_size * n) as int, align.as_usize() as int);
            if element_size != 0 {
                lemma_count_within_quotient(element_size as int, n as int, limit as int);
            } else {
                assert(element_size * n == 0) by (nonlinear_arith)
                    requires
                        element_size == 0,
                ;
            }
        }
        if element_size != 0 && n > limit / element_size {
            return Err(LayoutError);
        }
        let array_size = element_size * n;
        Ok(MemoryLayout { size: array_size, align })
    }

    /// The layout of `[T; n]`.
    ///
    /// Fails exactly when `n` elements of `T`, rounded up to the alignment of
    /// `T`, would pass `isize::MAX`; the size of a layout that is returned is
    /// `size_of::<T>() * n`.
    pub fn array<T>(n: usize) -> (r: Result<Self, LayoutError>)
        ensures
            r is Ok <==> size_of::<T>() * n <= max_size_for(align_of::<T>() as int),
            r is Ok <==> padded_size(size_of::<T>() * n, align_of::<T>() as int)
                <= isize::MAX,
            r is Ok <==> size_of::<T>() * n <= isize::MAX,
            r matches Ok(layout) ==> layout.size() == size_of::<T>() * n
                && layout.align().as_usize() == align_of::<T>(),
    {
        layout_for_type_is_valid::<T>();
        let align = MemoryAlignment::of::<T>();
        proof {
            let total = (size_of::<T>() * n) as int;
            let a = align_of::<T>() as int;
            assert(0 <= total) by (nonlinear_arith)
                requires
                    total == size_of::<T>() * n,
            ;
            lemma_fits_iff_padded_fits(total, a);
            // The size of `T` is a multiple of its alignment, and so is any
            // number of them.
            assert(total % a == 0) by {
                let k = (size_of::<T>() as int) / a;
                vstd::arithmetic::div_mod::lemma_fundamental_div_mod(size_of::<T>() as int, a);
                assert(total == (k * n) * a) by (nonlinear_arith)
                    requires
                        total == size_of::<T>() * n,
                        size_of::<T>() == a * k,
                ;
                vstd::arithmetic::div_mod::lemma_mod_multiples_basic(k * n, a);
            }
            lemma_multiple_fits(total, a);
        }
        Self::array_of(core::mem::size_of::<T>(), align, n)
    }
}

} // verus!
