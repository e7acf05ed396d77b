use ash::vk;
use raytrace_core::bindless::{BindlessDescriptorSets, BindlessKind};
use raytrace_core::debug_labels::{severity_label, type_label};
use raytrace_core::scene_layout::{
    assign_texture_indices, blas_geometry_counts, glb_instances, has_translucent_texel,
    scene_instances, triangle_corners, InstanceRecord, MaterialTextureIndices, MaterialTextures,
};

fn textures(b: bool, m: bool, r: bool, n: bool, e: bool) -> MaterialTextures {
    MaterialTextures { base_color: b, metallic: m, roughness: r, normal: n, emissive: e }
}

#[test]
fn texture_indices_count_in_load_order() {
    let materials = vec![
        textures(true, false, true, false, false),
        textures(false, false, false, false, false),
        textures(true, true, true, true, true),
    ];
    let indices = assign_texture_indices(&materials);
    assert!(
        indices[0]
            == MaterialTextureIndices { base_color: 0, metallic: -1, roughness: 1, normal: -1, emissive: -1 }
    );
    assert!(
        indices[1]
            == MaterialTextureIndices { base_color: -1, metallic: -1, roughness: -1, normal: -1, emissive: -1 }
    );
    assert!(
        indices[2]
            == MaterialTextureIndices { base_color: 2, metallic: 3, roughness: 4, normal: 5, emissive: 6 }
    );
}

#[test]
fn texture_indices_are_distinct_and_dense() {
    let materials = vec![
        textures(true, true, false, false, true),
        textures(false, true, false, true, false),
    ];
    let indices = assign_texture_indices(&materials);
    let mut all: Vec<i32> = vec![];
    for ix in &indices {
        for v in [ix.base_color, ix.metallic, ix.roughness, ix.normal, ix.emissive] {
            if v >= 0 {
                all.push(v);
            }
        }
    }
    all.sort();
    assert_eq!(all, vec![0, 1, 2, 3, 4]);
}

#[test]
fn translucency_looks_at_alpha_only() {
    assert!(!has_translucent_texel(&vec![0, 0, 0, 255, 10, 20, 30, 255]));
    assert!(has_translucent_texel(&vec![255, 255, 255, 255, 0, 0, 0, 254]));
    assert!(!has_translucent_texel(&vec![0, 0, 0]));
    assert!(!has_translucent_texel(&vec![]));
}

#[test]
fn obj_scene_instances() {
    let records = scene_instances(&vec![0, 1, 1], &vec![4, 0, 2], 2);
    assert!(records[0] == InstanceRecord { blas_index: 0, material_index: 4, sbt_offset: 0 });
    assert!(records[2] == InstanceRecord { blas_index: 1, material_index: 2, sbt_offset: 0 });
}

#[test]
fn glb_scene_instances_take_hit_group_from_material() {
    let records = glb_instances(&vec![1, 0], 2, &vec![0, 1]);
    assert!(records[0] == InstanceRecord { blas_index: 1, material_index: 1, sbt_offset: 1 });
    assert!(records[1] == InstanceRecord { blas_index: 0, material_index: 0, sbt_offset: 0 });
}

#[test]
fn triangles_come_last_first() {
    let t = triangle_corners(&vec![0, 1, 2, 2, 3, 0, 4, 5, 6]);
    assert_eq!(t, vec![(4, 5, 6), (2, 3, 0), (0, 1, 2)]);
    assert_eq!(triangle_corners(&vec![]), vec![]);
}

#[test]
fn blas_counts_from_index_count() {
    assert_eq!(blas_geometry_counts(6), (5, 2));
    assert_eq!(blas_geometry_counts(3), (2, 1));
}

#[test]
fn bindless_sets_created_in_binding_order() {
    let sets = BindlessDescriptorSets::create(|kind: BindlessKind| match kind {
        BindlessKind::UniformBuffer => 0,
        BindlessKind::CombinedImageSampler => 1,
        BindlessKind::StorageBuffer => 2,
        BindlessKind::StorageImage => 3,
    });
    assert_eq!(sets.uniform_buffer, 0);
    assert_eq!(sets.combined_image_sampler, 1);
    assert_eq!(sets.storage_buffer, 2);
    assert_eq!(sets.storage_image, 3);
}

#[test]
fn debug_labels_match_vulkan_flags() {
    assert_eq!(severity_label(vk::DebugUtilsMessageSeverityFlagsEXT::VERBOSE.as_raw()), Some("[VERBOSE]"));
    assert_eq!(severity_label(vk::DebugUtilsMessageSeverityFlagsEXT::INFO.as_raw()), Some("[INFO]"));
    assert_eq!(severity_label(vk::DebugUtilsMessageSeverityFlagsEXT::WARNING.as_raw()), Some("[WARNING]"));
    assert_eq!(severity_label(vk::DebugUtilsMessageSeverityFlagsEXT::ERROR.as_raw()), Some("[ERROR]"));
    assert_eq!(severity_label(0x0101), None);
    assert_eq!(type_label(vk::DebugUtilsMessageTypeFlagsEXT::GENERAL.as_raw()), Some("[GENERAL]"));
    assert_eq!(type_label(vk::DebugUtilsMessageTypeFlagsEXT::VALIDATION.as_raw()), Some("[VALIDATION]"));
    assert_eq!(type_label(vk::DebugUtilsMessageTypeFlagsEXT::PERFORMANCE.as_raw()), Some("[PERFORMANCE]"));
    assert_eq!(type_label(0x3), None);
}
