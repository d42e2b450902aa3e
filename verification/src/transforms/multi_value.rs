//! Helpers of the transformation of functions that return through a pointer
//! into functions that return multiple values.

use vstd::prelude::*;

verus! {

/// Whether `a` is a power of two.
pub open spec fn is_power_of_two(a: u32) -> bool {
    exists|k: nat| k < 32 && a == vstd::arithmetic::power2::pow2(k)
}

/// Rounds `n` up to the next multiple of `align`, a power of two.
pub fn round_up_to_alignment(n: u32, align: u32) -> (r: u32)
    requires
        is_power_of_two(align),
        n + align - 1 <= u32::MAX,
    ensures
        r % align == 0,
        n <= r < n + align,
{
    proof {
        let k = choose|k: nat| k < 32 && align == vstd::arithmetic::power2::pow2(k);
        vstd::arithmetic::power2::lemma_pow2_pos(k);
    }
    let rem = n % align;
    if rem == 0 {
        n
    } else {
        let r = n + (align - rem);
        assert(r % align == 0) by (nonlinear_arith)
            requires
                align > 0,
                rem == n % align,
                r == n + (align - rem),
        {
            vstd::arithmetic::div_mod::lemma_fundamental_div_mod(n as int, align as int);
            vstd::arithmetic::div_mod::lemma_mod_multiples_basic(n as int / align as int + 1, align as int);
        }
        r
    }
}

} // verus!
