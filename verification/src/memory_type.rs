use vstd::prelude::*;

verus! {

/// Memory type `i` is allowed by the resource's `type_bits` and has all the
/// `required` property flags.
pub open spec fn memory_type_fits(type_bits: u32, i: int, property_flags: u32, required: u32) -> bool {
    &&& type_bits & (1u32 << (i as u32)) != 0
    &&& property_flags & required == required
}

/// The index of the first memory type that the resource may live in and that
/// has the required properties.
pub fn find_memory_type_index(type_bits: u32, property_flags: &Vec<u32>, required: u32) -> (index: Option<u32>)
    requires
        property_flags.len() <= 32,
    ensures
        match index {
            Some(i) => i < property_flags.len() && memory_type_fits(
                type_bits,
                i as int,
                property_flags@[i as int],
                required,
            ) && forall|j: int|
                0 <= j < i ==> !memory_type_fits(type_bits, j, #[trigger] property_flags@[j], required),
            None => forall|j: int|
                0 <= j < property_flags.len() ==> !memory_type_fits(
                    type_bits,
                    j,
                    #[trigger] property_flags@[j],
                    required,
                ),
        },
{
    let mut i: usize = 0;
    while i < property_flags.len()
        invariant
            i <= property_flags.len(),
            property_flags.len() <= 32,
            forall|j: int|
                0 <= j < i ==> !memory_type_fits(type_bits, j, #[trigger] property_flags@[j], required),
        decreases property_flags.len() - i,
    {
        let shift = i as u32;
        let flags = property_flags[i];
        if type_bits & (1u32 << shift) != 0 && flags & required == required {
            return Some(shift);
        }
        i = i + 1;
    }
    None
}

} // verus!
