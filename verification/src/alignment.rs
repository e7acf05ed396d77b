use vstd::prelude::*;
use vstd::arithmetic::power2::pow2;

verus! {

/// `a` is a power of two below 2^64.
pub open spec fn is_power_of_two(a: u64) -> bool {
    exists|n: nat| n < 64 && a as nat == pow2(n)
}

/// The smallest multiple of `alignment` that is not below `value`.
pub open spec fn round_up(value: int, alignment: int) -> int {
    ((value + alignment - 1) / alignment) * alignment
}

/// What the mask form of rounding computes: `(value + alignment - 1) & !(alignment - 1)`.
pub open spec fn masked_round_up(value: u64, alignment: u64) -> u64 {
    ((value + alignment - 1) as u64) & !((alignment - 1) as u64)
}

/// For a power-of-two alignment, clearing the low bits of `x` takes away `x % alignment`.
pub proof fn lemma_clear_low_bits(x: u64, alignment: u64)
    requires
        is_power_of_two(alignment),
    ensures
        x & !((alignment - 1) as u64) == x - x % alignment,
{
    let n = choose|n: nat| n < 64 && alignment as nat == pow2(n);
    vstd::bits::lemma_u64_low_bits_mask_is_mod(x, n);
    vstd::arithmetic::power2::lemma_pow2_pos(n);
    let m = (alignment - 1) as u64;
    assert(m == vstd::bits::low_bits_mask(n) as u64);
    assert((x & !m) + (x & m) == x) by (bit_vector);
}

/// Rounds `value` up to the next multiple of `alignment` with the bit mask
/// `(value + alignment - 1) & !(alignment - 1)`, which is exact for powers of two.
pub fn align_up(value: u64, alignment: u64) -> (aligned: u64)
    requires
        alignment > 0,
        value + alignment - 1 <= u64::MAX,
    ensures
        aligned == masked_round_up(value, alignment),
        is_power_of_two(alignment) ==> aligned == round_up(value as int, alignment as int),
{
    let aligned = (value + (alignment - 1)) & !(alignment - 1);
    proof {
        if is_power_of_two(alignment) {
            let x = (value + alignment - 1) as u64;
            lemma_clear_low_bits(x, alignment);
            vstd::arithmetic::div_mod::lemma_fundamental_div_mod(x as int, alignment as int);
        }
    }
    aligned
}

} // verus!
