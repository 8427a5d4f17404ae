//! Power-of-two alignments.

use vstd::arithmetic::power::{lemma_pow_positive, pow};
use vstd::arithmetic::power2::{
    is_pow2, is_pow2_equiv, is_pow2_exists, lemma2_to64, lemma2_to64_rest, pow2,
};
use vstd::layout::{align_of, layout_for_type_is_valid};
use vstd::prelude::*;

verus! {

/// An alignment in bytes: a power of two in `[1, 2^(bits-1)]`, where `bits`
/// is the width of an address.
///
/// Every value that executable code can hold is a power of two, so code that
/// takes a `MemoryAlignment` never has to test it again.
#[derive(Clone, Copy, Debug, PartialEq, Eq, Structural)]
pub struct MemoryAlignment {
    value: usize,
}

/// The largest alignment an address can have: `2^(bits-1)`.
pub open spec fn max_alignment() -> int {
    isize::MAX + 1
}

/// An even number above one is a power of two exactly when its half is.
proof fn lemma_pow2_halve(n: int)
    requires
        n > 1,
        n % 2 == 0,
    ensures
        is_pow2(n) == is_pow2(n / 2),
{
    reveal(is_pow2);
}

/// No odd number above one is a power of two.
proof fn lemma_pow2_odd(n: int)
    requires
        n > 1,
        n % 2 != 0,
    ensures
        !is_pow2(n),
{
    reveal(is_pow2);
}

/// Of two distinct powers of two, the larger is at least twice the smaller.
pub proof fn lemma_pow2_gap(a: int, b: int)
    requires
        is_pow2(a),
        is_pow2(b),
        a < b,
    ensures
        2 * a <= b,
    decreases a + b,
{
    reveal(is_pow2);
    if a < b / 2 {
        lemma_pow2_gap(a, b / 2);
    } else if b / 2 < a {
        lemma_pow2_gap(b / 2, a);
    }
}

/// A smaller power of two divides a larger one.
pub proof fn lemma_pow2_divides(a: int, b: int)
    requires
        is_pow2(a),
        is_pow2(b),
        a <= b,
    ensures
        b % a == 0,
    decreases b,
{
    reveal(is_pow2);
    if a < b {
        lemma_pow2_gap(a, b);
        lemma_pow2_divides(a, b / 2);
        // b / 2 is a multiple of a, hence so is b = 2 * (b / 2).
        let half = b / 2;
        let q = half / a;
        assert(half == q * a) by {
            vstd::arithmetic::div_mod::lemma_fundamental_div_mod(half, a);
        }
        assert(b == (2 * q) * a) by (nonlinear_arith)
            requires
                b == 2 * half,
                half == q * a,
        ;
        vstd::arithmetic::div_mod::lemma_mod_multiples_basic(2 * q, a);
    } else {
        vstd::arithmetic::div_mod::lemma_mod_self_0(a);
    }
}

/// `2^(bits-1)` is a power of two, on 32-bit and on 64-bit targets alike.
pub proof fn lemma_max_alignment_is_pow2()
    ensures
        is_pow2(max_alignment()),
{
    lemma2_to64();
    lemma2_to64_rest();
    assert(pow(2, 31) == 0x8000_0000 && pow(2, 63) == 0x8000_0000_0000_0000) by {
        lemma_pow_positive(2, 31);
        lemma_pow_positive(2, 63);
        assert(pow2(31) == 0x8000_0000);
        assert(pow2(63) == 0x8000_0000_0000_0000);
    }
    assert(is_pow2_exists(0x8000_0000));
    assert(is_pow2_exists(0x8000_0000_0000_0000));
    is_pow2_equiv(0x8000_0000);
    is_pow2_equiv(0x8000_0000_0000_0000);
}

/// A power of two that fits a `usize` is at most `2^(bits-1)`, and divides it.
pub proof fn lemma_pow2_within_max(a: int)
    requires
        is_pow2(a),
        a <= usize::MAX,
    ensures
        1 <= a <= max_alignment(),
        max_alignment() % a == 0,
{
    lemma_max_alignment_is_pow2();
    assert(1 <= a) by {
        reveal(is_pow2);
    }
    if max_alignment() < a {
        lemma_pow2_gap(max_alignment(), a);
    }
    lemma_pow2_divides(a, max_alignment());
}

impl MemoryAlignment {
    #[verifier::type_invariant]
    spec fn well_formed(self) -> bool {
        is_pow2(self.value as int)
    }

    /// The alignment as a number of bytes.
    pub closed spec fn spec_as_usize(self) -> usize {
        self.value
    }

    /// Two alignments of the same number of bytes are the same alignment.
    pub proof fn lemma_same_value(self, other: Self)
        requires
            self.as_usize() == other.as_usize(),
        ensures
            self == other,
    {
    }

    /// Wraps `align` if it is a power of two, and rejects it otherwise.
    pub fn new(align: usize) -> (r: Option<Self>)
        ensures
            r is Some <==> is_pow2(align as int),
            r matches Some(a) ==> a.as_usize() == align,
    {
        if align == 0 {
            proof {
                reveal(is_pow2);
            }
            return None;
        }
        let mut rest: usize = align;
        while rest % 2 == 0
            invariant
                0 < rest <= align,
                is_pow2(rest as int) == is_pow2(align as int),
            decreases rest,
        {
            proof {
                lemma_pow2_halve(rest as int);
            }
            rest = rest / 2;
        }
        if rest == 1 {
            proof {
                reveal(is_pow2);
            }
            Some(MemoryAlignment { value: align })
        } else {
            proof {
                lemma_pow2_odd(rest as int);
            }
            None
        }
    }

    /// Wraps `align`, trusting the caller that it is a power of two.
    pub fn new_unchecked(align: usize) -> (r: Self)
        requires
            is_pow2(align as int),
        ensures
            r.as_usize() == align,
    {
        MemoryAlignment { value: align }
    }

    /// The natural alignment of `T`.
    pub fn of<T>() -> (r: Self)
        ensures
            r.as_usize() == align_of::<T>(),
    {
        layout_for_type_is_valid::<T>();
        MemoryAlignment { value: core::mem::align_of::<T>() }
    }

    /// The alignment as a number of bytes: a power of two, at least one and
    /// at most `2^(bits-1)`.
    #[verifier::when_used_as_spec(spec_as_usize)]
    pub fn as_usize(self) -> (r: usize)
        ensures
            r == self.spec_as_usize(),
            is_pow2(r as int),
            1 <= r <= max_alignment(),
    {
        proof {
            use_type_invariant(&self);
            lemma_pow2_within_max(self.value as int);
        }
        self.value
    }
}

} // verus!
