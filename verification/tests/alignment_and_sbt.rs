use raytrace_core::alignment::align_up;
use raytrace_core::objects::BufferObjects;
use raytrace_core::sbt::{
    checked_shader_binding_table_layout, shader_binding_table_contents, shader_binding_table_layout, ShaderBindingTable,
};

#[test]
fn align_up_rounds_to_power_of_two_multiples() {
    assert_eq!(align_up(0, 64), 0);
    assert_eq!(align_up(1, 64), 64);
    assert_eq!(align_up(32, 64), 64);
    assert_eq!(align_up(64, 64), 64);
    assert_eq!(align_up(65, 64), 128);
    assert_eq!(align_up(7, 1), 7);
}

#[test]
fn align_up_mask_form_for_other_alignments() {
    // (5 + 2) & !2 == 5
    assert_eq!(align_up(5, 3), 5);
    // (4 + 2) & !2 == 4
    assert_eq!(align_up(4, 3), 4);
}

#[test]
fn sbt_layout_typical_device() {
    // handle size 32, base alignment 64, one group of each kind
    let layout = shader_binding_table_layout(32, 64, 1, 1, 1);
    assert_eq!(layout.handle_size, 32);
    assert_eq!(layout.handle_size_aligned, 64);
    assert_eq!(layout.raygen_size, 64);
    assert_eq!(layout.miss_size, 64);
    assert_eq!(layout.hit_size, 64);
    assert_eq!(layout.buffer_size, 192);
    assert_eq!(layout.group_count, 3);
    assert_eq!(layout.handle_storage_size, 192);
}

#[test]
fn sbt_layout_several_groups() {
    let layout = shader_binding_table_layout(32, 64, 1, 2, 3);
    assert_eq!(layout.raygen_size, 64);
    assert_eq!(layout.miss_size, 128);
    assert_eq!(layout.hit_size, 192);
    assert_eq!(layout.buffer_size, 384);
    assert_eq!(layout.group_count, 6);
    assert_eq!(layout.handle_storage_size, 384);
}

#[test]
fn sbt_regions_are_aligned() {
    let layout = shader_binding_table_layout(48, 32, 3, 1, 2);
    assert_eq!(layout.handle_size_aligned % 32, 0);
    assert_eq!(layout.raygen_size % 32, 0);
    assert_eq!((layout.raygen_size + layout.miss_size) % 32, 0);
    assert!(layout.raygen_size >= layout.handle_size_aligned * 3);
    assert!(layout.hit_size >= layout.handle_size_aligned * 2);
}

#[test]
fn sbt_contents_place_handles_at_region_starts() {
    let layout = shader_binding_table_layout(4, 8, 1, 1, 1);
    // three handles of 4 bytes, followed by the padding the driver call leaves
    let mut handles: Vec<u8> = vec![1, 1, 1, 1, 2, 2, 2, 2, 3, 3, 3, 3];
    handles.resize(layout.handle_storage_size as usize, 0xEE);
    let contents = shader_binding_table_contents(&handles, &layout);
    assert_eq!(contents.len(), 24);
    assert_eq!(
        contents,
        vec![1, 1, 1, 1, 0, 0, 0, 0, 2, 2, 2, 2, 0, 0, 0, 0, 3, 3, 3, 3, 0, 0, 0, 0]
    );
}

#[test]
fn sbt_contents_copy_one_miss_handle() {
    let layout = shader_binding_table_layout(2, 2, 1, 2, 1);
    let handles: Vec<u8> = vec![10, 11, 20, 21, 22, 23, 30, 31];
    let contents = shader_binding_table_contents(&handles, &layout);
    // raygen [10 11], miss region of 4 bytes holds only the first miss handle, hit [30 31]
    assert_eq!(contents, vec![10, 11, 20, 21, 0, 0, 30, 31]);
}

#[test]
fn sbt_items_follow_regions() {
    let layout = shader_binding_table_layout(32, 64, 1, 1, 1);
    let buffer = BufferObjects { buffer: "buffer", allocation: "allocation", device_address: 0x1000 };
    let table = ShaderBindingTable::new(buffer, &layout);
    assert_eq!(table.raygen_item.device_address, 0x1000);
    assert_eq!(table.miss_item.device_address, 0x1040);
    assert_eq!(table.hit_item.device_address, 0x1080);
    assert_eq!(table.hit_item.stride, 64);
    assert_eq!(table.hit_item.size, 64);
    assert_eq!(table.buffer.device_address, 0x1000);
}

#[test]
fn checked_sbt_layout_matches_unchecked() {
    let checked = checked_shader_binding_table_layout(32, 64, 1, 2, 3).expect("fits");
    let layout = shader_binding_table_layout(32, 64, 1, 2, 3);
    assert_eq!(checked.buffer_size, layout.buffer_size);
    assert_eq!(checked.raygen_size, 64);
    assert_eq!(checked.miss_size, 128);
    assert_eq!(checked.hit_size, 192);
    assert_eq!(checked.handle_storage_size, 384);
}

#[test]
fn checked_sbt_layout_refuses_zero_alignment() {
    assert!(checked_shader_binding_table_layout(32, 0, 1, 1, 1).is_none());
}

#[test]
fn checked_sbt_layout_refuses_overflowing_sizes() {
    assert!(checked_shader_binding_table_layout(32, 64, u64::MAX / 16, 1, 1).is_none());
    assert!(checked_shader_binding_table_layout(32, 64, 1, 1, u32::MAX as u64).is_none());
}

#[test]
fn sbt_records_hold_handles_when_handles_are_aligned() {
    // handle size 8 is already a multiple of the alignment 8: every raygen and hit
    // record starts with its own handle
    let layout = shader_binding_table_layout(8, 8, 2, 1, 2);
    let handles: Vec<u8> = (0u8..40).collect();
    let contents = shader_binding_table_contents(&handles, &layout);
    assert_eq!(contents.len(), 40);
    assert_eq!(&contents[8..16], &handles[8..16]);
    assert_eq!(&contents[16..24], &handles[16..24]);
    assert_eq!(&contents[32..40], &handles[32..40]);
}
