use raytrace_core::device_select::{
    extensions_supported, get_queue_indices, get_required_device_extensions, is_device_suitable,
    queue_families_supported, scan_queue_families, select_device_and_families, select_physical_device,
    unique_queue_families, DeviceCandidate, FamilyScan, QueueFamilySupport, QueueIndices,
};
use raytrace_core::pipeline_groups::{
    shader_stages_and_groups, HitShaderModules, ShaderGroup, StageSource,
};

fn family(graphics: bool, transfer: bool, compute: bool, present: bool) -> QueueFamilySupport {
    QueueFamilySupport { graphics, transfer, compute, present }
}

fn name(s: &str) -> Vec<u8> {
    s.as_bytes().to_vec()
}

#[test]
fn stages_and_groups_for_one_of_each() {
    let hits = vec![HitShaderModules { closest_hit: "chit", any_hit: None, intersection: None }];
    let (stages, groups) = shader_stages_and_groups(1, 1, &hits);
    assert!(stages == vec![StageSource::Raygen(0), StageSource::Miss(0), StageSource::ClosestHit(0)]);
    assert!(groups[0] == ShaderGroup::General { general_shader: 0 });
    assert!(groups[1] == ShaderGroup::General { general_shader: 1 });
    assert!(
        groups[2]
            == ShaderGroup::TrianglesHit {
                closest_hit_shader: 2,
                any_hit_shader: None,
                intersection_shader: None
            }
    );
}

#[test]
fn stages_and_groups_with_optional_hit_shaders() {
    let hits = vec![
        HitShaderModules { closest_hit: 0, any_hit: Some(1), intersection: None },
        HitShaderModules { closest_hit: 2, any_hit: Some(3), intersection: Some(4) },
        HitShaderModules { closest_hit: 5, any_hit: None, intersection: Some(6) },
    ];
    let (stages, groups) = shader_stages_and_groups(1, 2, &hits);
    assert_eq!(stages.len(), 10);
    assert!(stages[3] == StageSource::ClosestHit(0));
    assert!(stages[4] == StageSource::AnyHit(0));
    assert!(stages[5] == StageSource::ClosestHit(1));
    assert!(stages[6] == StageSource::AnyHit(1));
    assert!(stages[7] == StageSource::Intersection(1));
    assert!(stages[8] == StageSource::ClosestHit(2));
    assert!(stages[9] == StageSource::Intersection(2));
    assert_eq!(groups.len(), 6);
    assert!(groups[2] == ShaderGroup::General { general_shader: 2 });
    assert!(
        groups[3]
            == ShaderGroup::TrianglesHit {
                closest_hit_shader: 3,
                any_hit_shader: Some(4),
                intersection_shader: None
            }
    );
    assert!(
        groups[4]
            == ShaderGroup::TrianglesHit {
                closest_hit_shader: 5,
                any_hit_shader: Some(6),
                intersection_shader: Some(7)
            }
    );
    assert!(
        groups[5]
            == ShaderGroup::TrianglesHit {
                closest_hit_shader: 8,
                any_hit_shader: None,
                intersection_shader: Some(9)
            }
    );
}

#[test]
fn every_group_names_a_stage_of_its_kind() {
    let hits = vec![
        HitShaderModules { closest_hit: (), any_hit: Some(()), intersection: Some(()) },
        HitShaderModules { closest_hit: (), any_hit: None, intersection: Some(()) },
    ];
    let (stages, groups) = shader_stages_and_groups(2, 1, &hits);
    for (g, group) in groups.iter().enumerate() {
        match group {
            ShaderGroup::General { general_shader } => {
                let stage = &stages[*general_shader as usize];
                assert!(matches!(stage, StageSource::Raygen(_) | StageSource::Miss(_)));
            }
            ShaderGroup::TrianglesHit { closest_hit_shader, any_hit_shader, intersection_shader } => {
                let j = g - 3;
                assert!(stages[*closest_hit_shader as usize] == StageSource::ClosestHit(j));
                if let Some(a) = any_hit_shader {
                    assert!(stages[*a as usize] == StageSource::AnyHit(j));
                }
                if let Some(s) = intersection_shader {
                    assert!(stages[*s as usize] == StageSource::Intersection(j));
                }
            }
        }
    }
}

#[test]
fn queue_indices_on_a_typical_device() {
    // family 0: everything, 1: transfer only, 2: compute + transfer + present
    let families = vec![
        family(true, true, true, true),
        family(false, true, false, false),
        family(false, true, true, true),
    ];
    let q = get_queue_indices(&families).expect("queues");
    assert_eq!(q.graphics_index, 0);
    assert_eq!(q.transfer_index, 1);
    assert_eq!(q.compute_index, 2);
    assert_eq!(q.present_index, 2);
}

#[test]
fn queue_indices_take_the_last_remaining_compute_and_present() {
    let families = vec![
        family(true, false, true, true),
        family(true, true, true, true),
        family(false, false, true, true),
        family(false, false, true, false),
    ];
    let q = get_queue_indices(&families).expect("queues");
    assert_eq!(q.graphics_index, 0);
    assert_eq!(q.transfer_index, 1);
    assert_eq!(q.compute_index, 3);
    assert_eq!(q.present_index, 2);
}

#[test]
fn queue_indices_missing_when_only_one_family() {
    // a single family is taken by graphics and leaves nothing for the others
    let families = vec![family(true, true, true, true)];
    assert!(get_queue_indices(&families).is_none());
    assert!(get_queue_indices(&vec![]).is_none());
}

#[test]
fn unique_families_drop_repeats() {
    let q = QueueIndices { graphics_index: 0, transfer_index: 1, compute_index: 0, present_index: 1 };
    let mut f = unique_queue_families(&q);
    f.sort();
    assert_eq!(f, vec![0, 1]);
    let q = QueueIndices { graphics_index: 3, transfer_index: 1, compute_index: 2, present_index: 0 };
    let mut f = unique_queue_families(&q);
    f.sort();
    assert_eq!(f, vec![0, 1, 2, 3]);
}

#[test]
fn queue_support_needs_every_kind() {
    assert!(queue_families_supported(&vec![family(true, true, false, false), family(false, false, true, true)]));
    assert!(!queue_families_supported(&vec![family(true, true, true, false)]));
    assert!(!queue_families_supported(&vec![]));
}

#[test]
fn required_extensions_append_ray_tracing_names() {
    let extra = vec![name("VK_KHR_external_memory")];
    let all = get_required_device_extensions(&extra);
    let expected: Vec<Vec<u8>> = vec![
        name("VK_KHR_external_memory"),
        name("VK_KHR_swapchain"),
        name("VK_KHR_synchronization2"),
        name("VK_KHR_timeline_semaphore"),
        name("VK_KHR_ray_tracing_pipeline"),
        name("VK_KHR_acceleration_structure"),
        name("VK_KHR_deferred_host_operations"),
    ];
    assert_eq!(all, expected);
    assert_eq!(get_required_device_extensions(&vec![]).len(), 6);
}

#[test]
fn extension_support_is_inclusion() {
    let available = vec![name("a"), name("bb"), name("ccc")];
    assert!(extensions_supported(&vec![name("bb"), name("a")], &available));
    assert!(!extensions_supported(&vec![name("b")], &available));
    assert!(extensions_supported(&vec![], &available));
}

fn candidate(with_present: bool) -> DeviceCandidate {
    DeviceCandidate {
        queue_families: vec![family(true, true, true, with_present)],
        extension_names: vec![name("VK_KHR_swapchain")],
        surface_format_count: 2,
        present_mode_count: 1,
        shader_int64: true,
        timeline_semaphore: true,
        scalar_block_layout: true,
        synchronization2: true,
    }
}

#[test]
fn device_suitability_and_selection() {
    let required = vec![name("VK_KHR_swapchain")];
    assert!(is_device_suitable(&candidate(true), &required));
    assert!(!is_device_suitable(&candidate(false), &required));
    let mut no_formats = candidate(true);
    no_formats.surface_format_count = 0;
    assert!(!is_device_suitable(&no_formats, &required));
    let mut no_int64 = candidate(true);
    no_int64.shader_int64 = false;
    assert!(!is_device_suitable(&no_int64, &required));
    assert!(!is_device_suitable(&candidate(true), &vec![name("VK_KHR_missing")]));

    let devices = vec![candidate(false), candidate(true), candidate(true)];
    assert_eq!(select_physical_device(&devices, &required), Some(1));
    assert_eq!(select_physical_device(&vec![candidate(false)], &required), None);
}

fn empty_scan() -> FamilyScan {
    FamilyScan { graphics: None, transfer: None, present: None }
}

#[test]
fn family_scan_keeps_the_last_of_each_kind() {
    let families = vec![family(true, true, false, false), family(false, true, true, false), family(true, false, false, false)];
    let scan = scan_queue_families(&families, empty_scan());
    assert!(scan == FamilyScan { graphics: Some(2), transfer: Some(1), present: None });
}

#[test]
fn family_scan_stops_once_every_kind_is_found() {
    let families = vec![family(true, true, false, true), family(true, true, true, true)];
    let scan = scan_queue_families(&families, empty_scan());
    assert!(scan == FamilyScan { graphics: Some(0), transfer: Some(0), present: Some(0) });
}

#[test]
fn family_scan_starts_from_what_was_found_before() {
    let earlier = FamilyScan { graphics: Some(3), transfer: None, present: Some(4) };
    let scan = scan_queue_families(&vec![family(false, true, false, false)], earlier);
    assert!(scan == FamilyScan { graphics: Some(3), transfer: Some(0), present: Some(4) });
}

#[test]
fn window_device_selection_carries_the_scan_across_devices() {
    let required = vec![name("VK_KHR_swapchain")];
    // the first device has graphics and present but no swapchain formats
    let mut first = candidate(true);
    first.queue_families = vec![family(true, false, false, true)];
    first.surface_format_count = 0;
    // the second offers only a transfer family; graphics and present carry over
    let mut second = candidate(true);
    second.queue_families = vec![family(false, false, false, false), family(false, true, false, false)];
    let chosen = select_device_and_families(&vec![first, second], &required);
    assert!(chosen == Some((1, FamilyScan { graphics: Some(0), transfer: Some(1), present: Some(0) })));
}

#[test]
fn window_device_selection_ignores_int64_and_needs_graphics() {
    let required = vec![name("VK_KHR_swapchain")];
    let mut no_int64 = candidate(false);
    no_int64.shader_int64 = false;
    let chosen = select_device_and_families(&vec![no_int64], &required);
    assert!(chosen == Some((0, FamilyScan { graphics: Some(0), transfer: Some(0), present: None })));
    let mut compute_only = candidate(true);
    compute_only.queue_families = vec![family(false, false, true, true)];
    assert!(select_device_and_families(&vec![compute_only], &required).is_none());
}
