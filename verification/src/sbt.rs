use vstd::prelude::*;
use crate::alignment::{align_up, is_power_of_two, masked_round_up, round_up};
use crate::objects::BufferObjects;

verus! {

/// One region of a shader binding table as the trace-rays command takes it.
pub struct SbtItem {
    pub device_address: u64,
    pub stride: u64,
    pub size: u64,
}

/// A shader binding table: its buffer and the raygen, miss and hit regions in it.
pub struct ShaderBindingTable<B, A> {
    pub buffer: BufferObjects<B, A>,
    pub raygen_item: SbtItem,
    pub miss_item: SbtItem,
    pub hit_item: SbtItem,
}

/// Sizes of a shader binding table with raygen, miss and hit regions, each
/// region rounded up to the base alignment, each handle slot to the base alignment.
pub struct SbtLayout {
    pub handle_size: u64,
    pub handle_size_aligned: u64,
    pub raygen_count: u64,
    pub miss_count: u64,
    pub hit_count: u64,
    pub raygen_size: u64,
    pub miss_size: u64,
    pub hit_size: u64,
    pub buffer_size: u64,
    pub group_count: u64,
    pub handle_storage_size: u64,
}

pub open spec fn spec_handle_size_aligned(handle_size: u32, base_alignment: u32) -> u64 {
    masked_round_up(handle_size as u64, base_alignment as u64)
}

pub open spec fn spec_region_size(handle_size: u32, base_alignment: u32, count: u64) -> u64 {
    masked_round_up(
        (spec_handle_size_aligned(handle_size, base_alignment) * count) as u64,
        base_alignment as u64,
    )
}

/// The table for these handle properties and group counts fits in 64-bit sizes.
pub open spec fn sbt_layout_fits(
    handle_size: u32,
    base_alignment: u32,
    raygen_count: u64,
    miss_count: u64,
    hit_count: u64,
) -> bool {
    let hsa = spec_handle_size_aligned(handle_size, base_alignment);
    &&& base_alignment > 0
    &&& hsa * raygen_count + base_alignment - 1 <= u64::MAX
    &&& hsa * miss_count + base_alignment - 1 <= u64::MAX
    &&& hsa * hit_count + base_alignment - 1 <= u64::MAX
    &&& raygen_count + miss_count + hit_count <= u32::MAX
    &&& hsa * (raygen_count + miss_count + hit_count) <= u64::MAX
    &&& spec_region_size(handle_size, base_alignment, raygen_count)
        + spec_region_size(handle_size, base_alignment, miss_count)
        + spec_region_size(handle_size, base_alignment, hit_count) <= u64::MAX
}

/// The layout that `shader_binding_table_layout` computes.
pub open spec fn spec_sbt_layout(
    handle_size: u32,
    base_alignment: u32,
    raygen_count: u64,
    miss_count: u64,
    hit_count: u64,
) -> SbtLayout {
    let hsa = spec_handle_size_aligned(handle_size, base_alignment);
    let raygen_size = spec_region_size(handle_size, base_alignment, raygen_count);
    let miss_size = spec_region_size(handle_size, base_alignment, miss_count);
    let hit_size = spec_region_size(handle_size, base_alignment, hit_count);
    SbtLayout {
        handle_size: handle_size as u64,
        handle_size_aligned: hsa,
        raygen_count,
        miss_count,
        hit_count,
        raygen_size,
        miss_size,
        hit_size,
        buffer_size: (raygen_size + miss_size + hit_size) as u64,
        group_count: (raygen_count + miss_count + hit_count) as u64,
        handle_storage_size: (hsa * (raygen_count + miss_count + hit_count)) as u64,
    }
}

/// Computes the sizes of a shader binding table from the device's shader group
/// handle size and base alignment and the number of groups of each kind.
pub fn shader_binding_table_layout(
    handle_size: u32,
    base_alignment: u32,
    raygen_count: u64,
    miss_count: u64,
    hit_count: u64,
) -> (layout: SbtLayout)
    requires
        sbt_layout_fits(handle_size, base_alignment, raygen_count, miss_count, hit_count),
    ensures
        layout == spec_sbt_layout(handle_size, base_alignment, raygen_count, miss_count, hit_count),
        is_power_of_two(base_alignment as u64) ==> {
            &&& layout.handle_size_aligned == round_up(handle_size as int, base_alignment as int)
            &&& layout.raygen_size == round_up(
                layout.handle_size_aligned * raygen_count,
                base_alignment as int,
            )
            &&& layout.miss_size == round_up(
                layout.handle_size_aligned * miss_count,
                base_alignment as int,
            )
            &&& layout.hit_size == round_up(
                layout.handle_size_aligned * hit_count,
                base_alignment as int,
            )
        },
{
    let alignment = base_alignment as u64;
    let handle_size_aligned = align_up(handle_size as u64, alignment);
    let raygen_size = align_up(handle_size_aligned * raygen_count, alignment);
    let miss_size = align_up(handle_size_aligned * miss_count, alignment);
    let hit_size = align_up(handle_size_aligned * hit_count, alignment);
    let group_count = raygen_count + miss_count + hit_count;
    SbtLayout {
        handle_size: handle_size as u64,
        handle_size_aligned,
        raygen_count,
        miss_count,
        hit_count,
        raygen_size,
        miss_size,
        hit_size,
        buffer_size: raygen_size + miss_size + hit_size,
        group_count,
        handle_storage_size: handle_size_aligned * group_count,
    }
}


/// The layout of `shader_binding_table_layout`, or `None` where its sizes do
/// not fit in 64 bits (or the alignment is zero).
pub fn checked_shader_binding_table_layout(
    handle_size: u32,
    base_alignment: u32,
    raygen_count: u64,
    miss_count: u64,
    hit_count: u64,
) -> (layout: Option<SbtLayout>)
    ensures
        layout is Some <==> sbt_layout_fits(handle_size, base_alignment, raygen_count, miss_count, hit_count),
        layout is Some ==> layout->0 == spec_sbt_layout(
            handle_size,
            base_alignment,
            raygen_count,
            miss_count,
            hit_count,
        ),
{
    if base_alignment == 0 {
        return None;
    }
    let alignment = base_alignment as u64;
    let slack = alignment - 1;
    let hsa = align_up(handle_size as u64, alignment);
    let raygen_bytes = match hsa.checked_mul(raygen_count) {
        Some(v) => v,
        None => return None,
    };
    let miss_bytes = match hsa.checked_mul(miss_count) {
        Some(v) => v,
        None => return None,
    };
    let hit_bytes = match hsa.checked_mul(hit_count) {
        Some(v) => v,
        None => return None,
    };
    if raygen_bytes > u64::MAX - slack || miss_bytes > u64::MAX - slack || hit_bytes > u64::MAX - slack {
        return None;
    }
    if raygen_count > u32::MAX as u64 || miss_count > u32::MAX as u64 - raygen_count
        || hit_count > u32::MAX as u64 - raygen_count - miss_count {
        return None;
    }
    let group_count = raygen_count + miss_count + hit_count;
    if hsa.checked_mul(group_count).is_none() {
        return None;
    }
    let raygen_size = align_up(raygen_bytes, alignment);
    let miss_size = align_up(miss_bytes, alignment);
    let hit_size = align_up(hit_bytes, alignment);
    if raygen_size > u64::MAX - miss_size || hit_size > u64::MAX - raygen_size - miss_size {
        return None;
    }
    Some(shader_binding_table_layout(handle_size, base_alignment, raygen_count, miss_count, hit_count))
}

/// `bytes` followed by zeros up to `len` bytes.
pub open spec fn padded(bytes: Seq<u8>, len: nat) -> Seq<u8> {
    bytes + Seq::new((len - bytes.len()) as nat, |i: int| 0u8)
}

pub open spec fn min_u64(a: u64, b: u64) -> u64 {
    if a <= b { a } else { b }
}

/// The bytes of the table: the raygen handles, one miss handle and the hit
/// handles, each at the start of its region and followed by zeros to the
/// region's end. The handles are read tightly packed, `handle_size` bytes each.
pub open spec fn spec_sbt_contents(handles: Seq<u8>, layout: SbtLayout) -> Seq<u8> {
    let hs = layout.handle_size;
    let r = layout.raygen_count;
    let m = layout.miss_count;
    let h = layout.hit_count;
    let miss_copied = min_u64(hs, layout.miss_size);
    padded(handles.subrange(0, hs * r), layout.raygen_size as nat) + padded(
        handles.subrange(hs * r, hs * r + miss_copied),
        layout.miss_size as nat,
    ) + padded(handles.subrange(hs * (r + m), hs * (r + m + h)), layout.hit_size as nat)
}

/// A layout that `shader_binding_table_layout` produced, with its handle
/// bytes available and its size addressable.
pub open spec fn sbt_contents_ready(handles: Seq<u8>, layout: SbtLayout) -> bool {
    exists|handle_size: u32, base_alignment: u32|
        {
            &&& sbt_layout_fits(
                handle_size,
                base_alignment,
                layout.raygen_count,
                layout.miss_count,
                layout.hit_count,
            )
            &&& layout == spec_sbt_layout(
                handle_size,
                base_alignment,
                layout.raygen_count,
                layout.miss_count,
                layout.hit_count,
            )
        }
        && layout.handle_size * (layout.raygen_count + 1) <= handles.len()
        && layout.handle_size * (layout.raygen_count + layout.miss_count + layout.hit_count)
        <= handles.len()
        && layout.buffer_size <= usize::MAX
}

proof fn lemma_masked_round_up_ge(value: u64, alignment: u64)
    requires
        alignment > 0,
        value + alignment - 1 <= u64::MAX,
    ensures
        masked_round_up(value, alignment) >= value,
{
    let x = (value + alignment - 1) as u64;
    let m = (alignment - 1) as u64;
    assert((x & !m) + (x & m) == x && x & m <= m) by (bit_vector);
}

/// Every region holds all the handles copied into it.
proof fn lemma_regions_hold_handles(
    handle_size: u32,
    base_alignment: u32,
    raygen_count: u64,
    miss_count: u64,
    hit_count: u64,
)
    requires
        sbt_layout_fits(handle_size, base_alignment, raygen_count, miss_count, hit_count),
    ensures
        ({
            let l = spec_sbt_layout(handle_size, base_alignment, raygen_count, miss_count, hit_count);
            &&& l.handle_size_aligned >= l.handle_size
            &&& l.raygen_size >= l.handle_size * raygen_count
            &&& l.miss_size >= l.handle_size * miss_count
            &&& l.hit_size >= l.handle_size * hit_count
        }),
{
    let l = spec_sbt_layout(handle_size, base_alignment, raygen_count, miss_count, hit_count);
    let hs = handle_size as u64;
    let hsa = l.handle_size_aligned;
    lemma_masked_round_up_ge(hs, base_alignment as u64);
    vstd::arithmetic::mul::lemma_mul_inequality(hs as int, hsa as int, raygen_count as int);
    vstd::arithmetic::mul::lemma_mul_inequality(hs as int, hsa as int, miss_count as int);
    vstd::arithmetic::mul::lemma_mul_inequality(hs as int, hsa as int, hit_count as int);
    lemma_masked_round_up_ge((hsa * raygen_count) as u64, base_alignment as u64);
    lemma_masked_round_up_ge((hsa * miss_count) as u64, base_alignment as u64);
    lemma_masked_round_up_ge((hsa * hit_count) as u64, base_alignment as u64);
}

/// Appends `src[from..from + count]` to `dst`, then zeros up to `region_len` bytes.
fn push_region(dst: &mut Vec<u8>, src: &Vec<u8>, from: usize, count: usize, region_len: usize)
    requires
        from + count <= src.len(),
        count <= region_len,
        old(dst).len() + region_len <= usize::MAX,
    ensures
        final(dst)@ == old(dst)@ + padded(src@.subrange(from as int, from + count), region_len as nat),
{
    let ghost start = dst@;
    let mut i: usize = 0;
    while i < count
        invariant
            i <= count,
            from + count <= src.len(),
            count <= region_len,
            start.len() + region_len <= usize::MAX,
            dst@ == start + src@.subrange(from as int, from + i),
        decreases count - i,
    {
        dst.push(src[from + i]);
        assert(src@.subrange(from as int, from + i + 1) == src@.subrange(from as int, from + i).push(
            src@[from + i],
        ));
        i = i + 1;
    }
    let mut j: usize = count;
    while j < region_len
        invariant
            count <= j <= region_len,
            start.len() + region_len <= usize::MAX,
            dst@ == start + src@.subrange(from as int, from + count) + Seq::new(
                (j - count) as nat,
                |k: int| 0u8,
            ),
        decreases region_len - j,
    {
        dst.push(0u8);
        assert(Seq::new((j + 1 - count) as nat, |k: int| 0u8) == Seq::new(
            (j - count) as nat,
            |k: int| 0u8,
        ).push(0u8));
        j = j + 1;
    }
    assert(dst@ == start + padded(src@.subrange(from as int, from + count), region_len as nat));
}

/// Lays the shader group handles out in the table's bytes: the raygen handles
/// at offset 0, one miss handle at the start of the miss region and the hit
/// handles at the start of the hit region; the rest of each region is zero.
pub fn shader_binding_table_contents(handles: &Vec<u8>, layout: &SbtLayout) -> (contents: Vec<u8>)
    requires
        sbt_contents_ready(handles@, *layout),
    ensures
        contents@ == spec_sbt_contents(handles@, *layout),
        contents.len() == layout.buffer_size,
{
    proof {
        let (handle_size, base_alignment) = choose|handle_size: u32, base_alignment: u32|
            {
                &&& sbt_layout_fits(
                    handle_size,
                    base_alignment,
                    layout.raygen_count,
                    layout.miss_count,
                    layout.hit_count,
                )
                &&& *layout == spec_sbt_layout(
                    handle_size,
                    base_alignment,
                    layout.raygen_count,
                    layout.miss_count,
                    layout.hit_count,
                )
            };
        lemma_regions_hold_handles(
            handle_size,
            base_alignment,
            layout.raygen_count,
            layout.miss_count,
            layout.hit_count,
        );
    }
    let hs = layout.handle_size;
    let r = layout.raygen_count;
    let m = layout.miss_count;
    let h = layout.hit_count;
    let miss_copied = if hs <= layout.miss_size { hs } else { layout.miss_size };
    proof {
        vstd::arithmetic::mul::lemma_mul_is_distributive_add(hs as int, r as int, 1);
        vstd::arithmetic::mul::lemma_mul_is_distributive_add(hs as int, (r + m) as int, h as int);
        vstd::arithmetic::mul::lemma_mul_is_distributive_add(hs as int, r as int, m as int);
        vstd::arithmetic::mul::lemma_mul_nonnegative(hs as int, m as int);
        vstd::arithmetic::mul::lemma_mul_nonnegative(hs as int, h as int);
    }
    let mut contents: Vec<u8> = Vec::new();
    push_region(&mut contents, handles, 0, (hs * r) as usize, layout.raygen_size as usize);
    push_region(
        &mut contents,
        handles,
        (hs * r) as usize,
        miss_copied as usize,
        layout.miss_size as usize,
    );
    push_region(
        &mut contents,
        handles,
        (hs * (r + m)) as usize,
        (hs * h) as usize,
        layout.hit_size as usize,
    );
    contents
}

/// With a power-of-two base alignment the aligned handle size and the start
/// of every region are multiples of the alignment, and each region is large
/// enough for its handles at the aligned stride.
pub proof fn lemma_sbt_regions_aligned(
    handle_size: u32,
    base_alignment: u32,
    raygen_count: u64,
    miss_count: u64,
    hit_count: u64,
)
    requires
        sbt_layout_fits(handle_size, base_alignment, raygen_count, miss_count, hit_count),
        is_power_of_two(base_alignment as u64),
    ensures
        ({
            let l = spec_sbt_layout(handle_size, base_alignment, raygen_count, miss_count, hit_count);
            let a = base_alignment as int;
            &&& (l.handle_size_aligned as int) % a == 0
            &&& l.handle_size_aligned >= handle_size
            &&& (l.raygen_size as int) % a == 0
            &&& (l.raygen_size + l.miss_size) % a == 0
            &&& (l.buffer_size as int) % a == 0
            &&& l.raygen_size >= l.handle_size_aligned * raygen_count
            &&& l.miss_size >= l.handle_size_aligned * miss_count
            &&& l.hit_size >= l.handle_size_aligned * hit_count
        }),
{
    let l = spec_sbt_layout(handle_size, base_alignment, raygen_count, miss_count, hit_count);
    let a = base_alignment as int;
    let hs = handle_size as u64;
    let hsa = l.handle_size_aligned;
    let x = (hs + base_alignment - 1) as u64;
    crate::alignment::lemma_clear_low_bits(x, base_alignment as u64);
    vstd::arithmetic::div_mod::lemma_fundamental_div_mod(x as int, a);
    vstd::arithmetic::div_mod::lemma_mod_multiples_basic(x as int / a, a);
    lemma_regions_hold_handles(handle_size, base_alignment, raygen_count, miss_count, hit_count);
    lemma_region_multiple(hsa, base_alignment, raygen_count);
    lemma_region_multiple(hsa, base_alignment, miss_count);
    lemma_region_multiple(hsa, base_alignment, hit_count);
    lemma_masked_round_up_ge((hsa * raygen_count) as u64, base_alignment as u64);
    lemma_masked_round_up_ge((hsa * miss_count) as u64, base_alignment as u64);
    lemma_masked_round_up_ge((hsa * hit_count) as u64, base_alignment as u64);
    let q1 = l.raygen_size as int / a;
    let q2 = l.miss_size as int / a;
    let q3 = l.hit_size as int / a;
    vstd::arithmetic::div_mod::lemma_fundamental_div_mod(l.raygen_size as int, a);
    vstd::arithmetic::div_mod::lemma_fundamental_div_mod(l.miss_size as int, a);
    vstd::arithmetic::div_mod::lemma_fundamental_div_mod(l.hit_size as int, a);
    vstd::arithmetic::mul::lemma_mul_is_distributive_add(a, q1, q2);
    vstd::arithmetic::mul::lemma_mul_is_distributive_add(a, q1 + q2, q3);
    vstd::arithmetic::mul::lemma_mul_is_commutative(a, q1);
    vstd::arithmetic::mul::lemma_mul_is_commutative(a, q1 + q2);
    vstd::arithmetic::mul::lemma_mul_is_commutative(a, q1 + q2 + q3);
    vstd::arithmetic::div_mod::lemma_mod_multiples_basic(q1 + q2, a);
    vstd::arithmetic::div_mod::lemma_mod_multiples_basic(q1 + q2 + q3, a);
}

/// The record that a dispatch reads for group `j` of a kind (the kind's region
/// start plus `j` strides) begins with that group's handle: for the first
/// raygen, miss and hit group, and for every raygen and hit group when the
/// handle size is already a multiple of the alignment.
pub proof fn lemma_sbt_records_hold_handles(
    handles: Seq<u8>,
    handle_size: u32,
    base_alignment: u32,
    raygen_count: u64,
    miss_count: u64,
    hit_count: u64,
)
    requires
        sbt_layout_fits(handle_size, base_alignment, raygen_count, miss_count, hit_count),
        is_power_of_two(base_alignment as u64),
        handle_size * (raygen_count + miss_count + hit_count) <= handles.len(),
        handle_size * (raygen_count + 1) <= handles.len(),
    ensures
        ({
            let l = spec_sbt_layout(handle_size, base_alignment, raygen_count, miss_count, hit_count);
            let c = spec_sbt_contents(handles, l);
            let hs = handle_size as int;
            let st = l.handle_size_aligned as int;
            let hit_start = l.raygen_size + l.miss_size;
            &&& forall|j: int|
                0 <= j < raygen_count && (j == 0 || hs == st) ==> #[trigger] c.subrange(j * st, j * st + hs)
                    == handles.subrange(j * hs, j * hs + hs)
            &&& miss_count > 0 ==> c.subrange(l.raygen_size as int, l.raygen_size + hs) == handles.subrange(
                hs * raygen_count,
                hs * raygen_count + hs,
            )
            &&& forall|j: int|
                0 <= j < hit_count && (j == 0 || hs == st) ==> #[trigger] c.subrange(
                    hit_start + j * st,
                    hit_start + j * st + hs,
                ) == handles.subrange(
                    hs * (raygen_count + miss_count) + j * hs,
                    hs * (raygen_count + miss_count) + j * hs + hs,
                )
        }),
{
    let l = spec_sbt_layout(handle_size, base_alignment, raygen_count, miss_count, hit_count);
    let c = spec_sbt_contents(handles, l);
    let hs = handle_size as int;
    let st = l.handle_size_aligned as int;
    let r = raygen_count as int;
    let m = miss_count as int;
    let h = hit_count as int;
    lemma_sbt_regions_aligned(handle_size, base_alignment, raygen_count, miss_count, hit_count);
    assert(hs * r <= st * r) by (nonlinear_arith)
        requires
            hs <= st,
            0 <= r,
    ;
    assert(hs * h <= st * h) by (nonlinear_arith)
        requires
            hs <= st,
            0 <= h,
    ;
    assert(hs * (r + m + h) == hs * r + hs * m + hs * h) by (nonlinear_arith);
    assert(hs * (r + m) == hs * r + hs * m) by (nonlinear_arith);
    assert(hs * (r + 1) == hs * r + hs) by (nonlinear_arith);
    assert(hs * m >= 0) by (nonlinear_arith)
        requires
            hs >= 0,
            m >= 0,
    ;
    let part_a = padded(handles.subrange(0, hs * r), l.raygen_size as nat);
    let miss_copied = min_u64(l.handle_size, l.miss_size);
    let part_b = padded(handles.subrange(hs * r, hs * r + miss_copied), l.miss_size as nat);
    let part_c = padded(handles.subrange(hs * (r + m), hs * (r + m + h)), l.hit_size as nat);
    assert(part_a.len() == l.raygen_size);
    assert(part_b.len() == l.miss_size);
    assert(part_c.len() == l.hit_size);
    assert(c == part_a + part_b + part_c);

    assert forall|j: int|
        0 <= j < raygen_count && (j == 0 || hs == st) implies #[trigger] c.subrange(j * st, j * st + hs)
            == handles.subrange(j * hs, j * hs + hs) by {
        assert(j * st == j * hs) by (nonlinear_arith)
            requires
                j == 0 || hs == st,
        ;
        assert(j * hs + hs <= hs * r) by (nonlinear_arith)
            requires
                0 <= j < r,
                hs >= 0,
        ;
        assert forall|k: int| 0 <= k < hs implies #[trigger] c.subrange(j * st, j * st + hs)[k] == handles.subrange(
            j * hs,
            j * hs + hs,
        )[k] by {
            assert(c[j * st + k] == part_a[j * hs + k]);
        }
        assert(c.subrange(j * st, j * st + hs) =~= handles.subrange(j * hs, j * hs + hs));
    }

    if miss_count > 0 {
        assert(st * m >= st) by (nonlinear_arith)
            requires
                m >= 1,
                st >= 0,
        ;
        assert(miss_copied == l.handle_size);
        assert forall|k: int| 0 <= k < hs implies #[trigger] c.subrange(l.raygen_size as int, l.raygen_size + hs)[k]
            == handles.subrange(hs * r, hs * r + hs)[k] by {
            assert(c[l.raygen_size + k] == part_b[k]);
        }
        assert(c.subrange(l.raygen_size as int, l.raygen_size + hs) =~= handles.subrange(
            hs * r,
            hs * r + hs,
        ));
    }

    let hit_start = l.raygen_size + l.miss_size;
    assert forall|j: int|
        0 <= j < hit_count && (j == 0 || hs == st) implies #[trigger] c.subrange(
            hit_start + j * st,
            hit_start + j * st + hs,
        ) == handles.subrange(hs * (r + m) + j * hs, hs * (r + m) + j * hs + hs) by {
        assert(j * st == j * hs) by (nonlinear_arith)
            requires
                j == 0 || hs == st,
        ;
        assert(j * hs + hs <= hs * h) by (nonlinear_arith)
            requires
                0 <= j < h,
                hs >= 0,
        ;
        assert forall|k: int| 0 <= k < hs implies #[trigger] c.subrange(hit_start + j * st, hit_start + j * st + hs)[k]
            == handles.subrange(hs * (r + m) + j * hs, hs * (r + m) + j * hs + hs)[k] by {
            assert(c[hit_start + j * hs + k] == part_c[j * hs + k]);
        }
        assert(c.subrange(hit_start + j * st, hit_start + j * st + hs) =~= handles.subrange(
            hs * (r + m) + j * hs,
            hs * (r + m) + j * hs + hs,
        ));
    }
}

/// A region size is a multiple of a power-of-two alignment.
proof fn lemma_region_multiple(hsa: u64, base_alignment: u32, count: u64)
    requires
        is_power_of_two(base_alignment as u64),
        hsa * count + base_alignment - 1 <= u64::MAX,
    ensures
        (masked_round_up((hsa * count) as u64, base_alignment as u64) as int) % (base_alignment as int) == 0,
{
    let a = base_alignment as int;
    vstd::arithmetic::power2::lemma_pow2_pos(choose|n: nat| n < 64 && base_alignment as nat == vstd::arithmetic::power2::pow2(n));
    let x = (hsa * count + base_alignment - 1) as u64;
    crate::alignment::lemma_clear_low_bits(x, base_alignment as u64);
    vstd::arithmetic::div_mod::lemma_fundamental_div_mod(x as int, a);
    vstd::arithmetic::div_mod::lemma_mod_multiples_basic(x as int / a, a);
    vstd::arithmetic::mul::lemma_mul_is_commutative(a, x as int / a);
}

impl<B, A> ShaderBindingTable<B, A> {
    /// Places the three regions of `layout` in `buffer`, one after another from
    /// its device address, each with the aligned handle size as stride and size.
    pub fn new(buffer: BufferObjects<B, A>, layout: &SbtLayout) -> (table: Self)
        requires
            buffer.device_address + layout.raygen_size + layout.miss_size <= u64::MAX,
        ensures
            table.buffer == buffer,
            table.raygen_item == (SbtItem {
                device_address: buffer.device_address,
                stride: layout.handle_size_aligned,
                size: layout.handle_size_aligned,
            }),
            table.miss_item == (SbtItem {
                device_address: (buffer.device_address + layout.raygen_size) as u64,
                stride: layout.handle_size_aligned,
                size: layout.handle_size_aligned,
            }),
            table.hit_item == (SbtItem {
                device_address: (buffer.device_address + layout.raygen_size + layout.miss_size) as u64,
                stride: layout.handle_size_aligned,
                size: layout.handle_size_aligned,
            }),
    {
        let address = buffer.device_address;
        let raygen_item = SbtItem {
            device_address: address,
            stride: layout.handle_size_aligned,
            size: layout.handle_size_aligned,
        };
        let miss_item = SbtItem {
            device_address: address + layout.raygen_size,
            stride: layout.handle_size_aligned,
            size: layout.handle_size_aligned,
        };
        let hit_item = SbtItem {
            device_address: address + layout.raygen_size + layout.miss_size,
            stride: layout.handle_size_aligned,
            size: layout.handle_size_aligned,
        };
        ShaderBindingTable { buffer, raygen_item, miss_item, hit_item }
    }
}

} // verus!
