use vstd::prelude::*;

verus! {

/// What one queue family of a physical device offers: the queue kinds it
/// supports and whether it can present to the window's surface.
#[derive(Clone, Copy)]
pub struct QueueFamilySupport {
    pub graphics: bool,
    pub transfer: bool,
    pub compute: bool,
    pub present: bool,
}

/// The queue family chosen for each kind of work.
pub struct QueueIndices {
    pub graphics_index: u32,
    pub transfer_index: u32,
    pub compute_index: u32,
    pub present_index: u32,
}

pub open spec fn not_index(found: Option<usize>, i: int) -> bool {
    match found {
        Some(f) => f != i,
        None => true,
    }
}

pub open spec fn graphics_candidate(families: Seq<QueueFamilySupport>, i: int) -> bool {
    families[i].graphics
}

pub open spec fn transfer_candidate(
    families: Seq<QueueFamilySupport>,
    graphics: Option<usize>,
    i: int,
) -> bool {
    families[i].transfer && not_index(graphics, i)
}

pub open spec fn compute_candidate(
    families: Seq<QueueFamilySupport>,
    graphics: Option<usize>,
    transfer: Option<usize>,
    i: int,
) -> bool {
    families[i].compute && not_index(graphics, i) && not_index(transfer, i)
}

pub open spec fn present_candidate(
    families: Seq<QueueFamilySupport>,
    graphics: Option<usize>,
    transfer: Option<usize>,
    i: int,
) -> bool {
    families[i].present && not_index(graphics, i) && not_index(transfer, i)
}

/// The choice among the first `k` families: graphics takes the first
/// graphics family; transfer the first other transfer family; compute and
/// present the last family of their kind that graphics and transfer did not take.
pub open spec fn queue_choice_upto(
    families: Seq<QueueFamilySupport>,
    k: int,
    graphics: Option<usize>,
    transfer: Option<usize>,
    compute: Option<usize>,
    present: Option<usize>,
) -> bool {
    &&& match graphics {
        Some(i) => i < k && graphics_candidate(families, i as int) && forall|j: int|
            0 <= j < i ==> !#[trigger] graphics_candidate(families, j),
        None => forall|j: int| 0 <= j < k ==> !#[trigger] graphics_candidate(families, j),
    }
    &&& match transfer {
        Some(i) => i < k && transfer_candidate(families, graphics, i as int) && forall|j: int|
            0 <= j < i ==> !#[trigger] transfer_candidate(families, graphics, j),
        None => forall|j: int| 0 <= j < k ==> !#[trigger] transfer_candidate(families, graphics, j),
    }
    &&& match compute {
        Some(i) => i < k && compute_candidate(families, graphics, transfer, i as int) && forall|
            j: int,
        |
            i < j < k ==> !#[trigger] compute_candidate(families, graphics, transfer, j),
        None => forall|j: int|
            0 <= j < k ==> !#[trigger] compute_candidate(families, graphics, transfer, j),
    }
    &&& match present {
        Some(i) => i < k && present_candidate(families, graphics, transfer, i as int) && forall|
            j: int,
        |
            i < j < k ==> !#[trigger] present_candidate(families, graphics, transfer, j),
        None => forall|j: int|
            0 <= j < k ==> !#[trigger] present_candidate(families, graphics, transfer, j),
    }
}

/// The choice over all families.
pub open spec fn queue_choice(
    families: Seq<QueueFamilySupport>,
    graphics: Option<usize>,
    transfer: Option<usize>,
    compute: Option<usize>,
    present: Option<usize>,
) -> bool {
    queue_choice_upto(families, families.len() as int, graphics, transfer, compute, present)
}

/// Chooses a queue family for graphics, transfer, compute and presentation;
/// `None` when some kind finds no family.
pub fn get_queue_indices(families: &Vec<QueueFamilySupport>) -> (indices: Option<QueueIndices>)
    ensures
        exists|g: Option<usize>, t: Option<usize>, c: Option<usize>, p: Option<usize>|
            {
                &&& queue_choice(families@, g, t, c, p)
                &&& match indices {
                    Some(q) => g matches Some(gi) && t matches Some(ti) && c matches Some(ci)
                        && p matches Some(pi) && q.graphics_index == gi as u32 && q.transfer_index
                        == ti as u32 && q.compute_index == ci as u32 && q.present_index == pi as u32,
                    None => g is None || t is None || c is None || p is None,
                }
            },
{
    let ghost fams = families@;
    let mut graphics: Option<usize> = None;
    let mut transfer: Option<usize> = None;
    let mut compute: Option<usize> = None;
    let mut present: Option<usize> = None;
    let mut i: usize = 0;
    while i < families.len()
        invariant
            i <= families.len(),
            fams == families@,
            queue_choice_upto(fams, i as int, graphics, transfer, compute, present),
        decreases families.len() - i,
    {
        let family = families[i];
        let ghost old_graphics = graphics;
        let ghost old_transfer = transfer;
        if family.graphics && graphics.is_none() {
            graphics = Some(i);
            proof {
                assert forall|j: int| 0 <= j < i implies transfer_candidate(fams, graphics, j)
                    == transfer_candidate(fams, old_graphics, j) by {}
                assert forall|j: int| 0 <= j < i implies compute_candidate(
                    fams,
                    graphics,
                    transfer,
                    j,
                ) == compute_candidate(fams, old_graphics, transfer, j) by {}
                assert forall|j: int| 0 <= j < i implies present_candidate(
                    fams,
                    graphics,
                    transfer,
                    j,
                ) == present_candidate(fams, old_graphics, transfer, j) by {}
            }
        } else if family.transfer && transfer.is_none() {
            transfer = Some(i);
            proof {
                assert forall|j: int| 0 <= j < i implies compute_candidate(
                    fams,
                    graphics,
                    transfer,
                    j,
                ) == compute_candidate(fams, graphics, old_transfer, j) by {}
                assert forall|j: int| 0 <= j < i implies present_candidate(
                    fams,
                    graphics,
                    transfer,
                    j,
                ) == present_candidate(fams, graphics, old_transfer, j) by {}
            }
        } else {
            if family.compute {
                compute = Some(i);
            }
            if family.present {
                present = Some(i);
            }
        }
        i = i + 1;
    }
    proof {
        assert(queue_choice(families@, graphics, transfer, compute, present));
    }
    match (graphics, transfer, compute, present) {
        (Some(g), Some(t), Some(c), Some(p)) => Some(
            QueueIndices {
                graphics_index: g as u32,
                transfer_index: t as u32,
                compute_index: c as u32,
                present_index: p as u32,
            },
        ),
        _ => None,
    }
}


/// The extension name `name` as the bytes of its ASCII characters.
pub open spec fn ascii(name: Seq<char>) -> Seq<u8> {
    name.map_values(|c: char| c as u8)
}

/// The device extensions that ray tracing with a swapchain needs, in the order
/// they are appended to the caller's list.
pub open spec fn ray_tracing_extension_names() -> Seq<Seq<u8>> {
    seq![
        ascii("VK_KHR_swapchain"@),
        ascii("VK_KHR_synchronization2"@),
        ascii("VK_KHR_timeline_semaphore"@),
        ascii("VK_KHR_ray_tracing_pipeline"@),
        ascii("VK_KHR_acceleration_structure"@),
        ascii("VK_KHR_deferred_host_operations"@),
    ]
}

/// `ash::extensions::khr::Swapchain::name()`, whose bytes are `VK_KHR_swapchain`.
#[verifier::external_body]
fn swapchain_extension_name() -> (name: Vec<u8>)
    ensures
        name@ == ascii("VK_KHR_swapchain"@),
{
    ash::extensions::khr::Swapchain::name().to_bytes().to_vec()
}

/// `ash::extensions::khr::Synchronization2::name()`, whose bytes are `VK_KHR_synchronization2`.
#[verifier::external_body]
fn synchronization2_extension_name() -> (name: Vec<u8>)
    ensures
        name@ == ascii("VK_KHR_synchronization2"@),
{
    ash::extensions::khr::Synchronization2::name().to_bytes().to_vec()
}

/// `ash::extensions::khr::TimelineSemaphore::name()`, whose bytes are `VK_KHR_timeline_semaphore`.
#[verifier::external_body]
fn timeline_semaphore_extension_name() -> (name: Vec<u8>)
    ensures
        name@ == ascii("VK_KHR_timeline_semaphore"@),
{
    ash::extensions::khr::TimelineSemaphore::name().to_bytes().to_vec()
}

/// `ash::extensions::khr::RayTracingPipeline::name()`, whose bytes are `VK_KHR_ray_tracing_pipeline`.
#[verifier::external_body]
fn ray_tracing_pipeline_extension_name() -> (name: Vec<u8>)
    ensures
        name@ == ascii("VK_KHR_ray_tracing_pipeline"@),
{
    ash::extensions::khr::RayTracingPipeline::name().to_bytes().to_vec()
}

/// `ash::extensions::khr::AccelerationStructure::name()`, whose bytes are `VK_KHR_acceleration_structure`.
#[verifier::external_body]
fn acceleration_structure_extension_name() -> (name: Vec<u8>)
    ensures
        name@ == ascii("VK_KHR_acceleration_structure"@),
{
    ash::extensions::khr::AccelerationStructure::name().to_bytes().to_vec()
}

/// `ash::extensions::khr::DeferredHostOperations::name()`, whose bytes are
/// `VK_KHR_deferred_host_operations`.
#[verifier::external_body]
fn deferred_host_operations_extension_name() -> (name: Vec<u8>)
    ensures
        name@ == ascii("VK_KHR_deferred_host_operations"@),
{
    ash::extensions::khr::DeferredHostOperations::name().to_bytes().to_vec()
}

pub open spec fn names_view(names: Seq<Vec<u8>>) -> Seq<Seq<u8>> {
    names.map_values(|name: Vec<u8>| name@)
}

/// The caller's required device extensions followed by the ones that ray
/// tracing with a swapchain needs.
pub fn get_required_device_extensions(required_device_extensions: &Vec<Vec<u8>>) -> (extensions: Vec<Vec<u8>>)
    ensures
        names_view(extensions@) == names_view(required_device_extensions@) + ray_tracing_extension_names(),
{
    let mut extensions: Vec<Vec<u8>> = Vec::new();
    let mut i: usize = 0;
    while i < required_device_extensions.len()
        invariant
            i <= required_device_extensions.len(),
            extensions.len() == i,
            forall|k: int| 0 <= k < i ==> extensions@[k]@ == required_device_extensions@[k]@,
        decreases required_device_extensions.len() - i,
    {
        let name = required_device_extensions[i].clone();
        assert(name@ =~= required_device_extensions@[i as int]@);
        extensions.push(name);
        i = i + 1;
    }
    let ghost before = extensions@;
    extensions.push(swapchain_extension_name());
    extensions.push(synchronization2_extension_name());
    extensions.push(timeline_semaphore_extension_name());
    extensions.push(ray_tracing_pipeline_extension_name());
    extensions.push(acceleration_structure_extension_name());
    extensions.push(deferred_host_operations_extension_name());
    let ghost expected = names_view(required_device_extensions@) + ray_tracing_extension_names();
    assert forall|k: int| 0 <= k < expected.len() implies names_view(extensions@)[k] == expected[k] by {
        if k < i {
            assert(extensions@[k] == before[k]);
        }
    }
    assert(names_view(extensions@) =~= expected);
    extensions
}


/// Each chosen family supports the queue kind it was chosen for, and the
/// graphics and transfer queues come from different families.
pub proof fn lemma_chosen_families_fit(
    families: Seq<QueueFamilySupport>,
    graphics: usize,
    transfer: usize,
    compute: usize,
    present: usize,
)
    requires
        queue_choice(families, Some(graphics), Some(transfer), Some(compute), Some(present)),
    ensures
        graphics < families.len() && families[graphics as int].graphics,
        transfer < families.len() && families[transfer as int].transfer,
        compute < families.len() && families[compute as int].compute,
        present < families.len() && families[present as int].present,
        graphics != transfer,
        compute != graphics && compute != transfer,
        present != graphics && present != transfer,
{
}

/// The choice is unique: the capabilities of the families decide which family
/// each kind of queue gets (or that it gets none).
pub proof fn lemma_queue_choice_unique(
    families: Seq<QueueFamilySupport>,
    g1: Option<usize>,
    t1: Option<usize>,
    c1: Option<usize>,
    p1: Option<usize>,
    g2: Option<usize>,
    t2: Option<usize>,
    c2: Option<usize>,
    p2: Option<usize>,
)
    requires
        queue_choice(families, g1, t1, c1, p1),
        queue_choice(families, g2, t2, c2, p2),
    ensures
        g1 == g2,
        t1 == t2,
        c1 == c2,
        p1 == p2,
{
    if let (Some(a), Some(b)) = (g1, g2) {
        assert(graphics_candidate(families, a as int) && graphics_candidate(families, b as int));
    } else if let Some(a) = g1 {
        assert(graphics_candidate(families, a as int));
    } else if let Some(b) = g2 {
        assert(graphics_candidate(families, b as int));
    }
    if let (Some(a), Some(b)) = (t1, t2) {
        assert(transfer_candidate(families, g1, a as int) && transfer_candidate(families, g1, b as int));
    } else if let Some(a) = t1 {
        assert(transfer_candidate(families, g1, a as int));
    } else if let Some(b) = t2 {
        assert(transfer_candidate(families, g1, b as int));
    }
    if let (Some(a), Some(b)) = (c1, c2) {
        assert(compute_candidate(families, g1, t1, a as int) && compute_candidate(families, g1, t1, b as int));
    } else if let Some(a) = c1 {
        assert(compute_candidate(families, g1, t1, a as int));
    } else if let Some(b) = c2 {
        assert(compute_candidate(families, g1, t1, b as int));
    }
    if let (Some(a), Some(b)) = (p1, p2) {
        assert(present_candidate(families, g1, t1, a as int) && present_candidate(families, g1, t1, b as int));
    } else if let Some(a) = p1 {
        assert(present_candidate(families, g1, t1, a as int));
    } else if let Some(b) = p2 {
        assert(present_candidate(families, g1, t1, b as int));
    }
}

/// The set of family indices that `indices` names.
pub open spec fn queue_index_set(indices: QueueIndices) -> Set<u32> {
    set![indices.graphics_index, indices.transfer_index, indices.compute_index, indices.present_index]
}

fn push_unique(families: &mut Vec<u32>, index: u32)
    requires
        old(families)@.no_duplicates(),
    ensures
        final(families)@.no_duplicates(),
        final(families)@.to_set() == old(families)@.to_set().insert(index),
{
    let mut i: usize = 0;
    while i < families.len()
        invariant
            i <= families.len(),
            families@ == old(families)@,
            families@.no_duplicates(),
            forall|k: int| 0 <= k < i ==> families@[k] != index,
        decreases families.len() - i,
    {
        if families[i] == index {
            proof {
                assert(families@.to_set().contains(index));
                assert(families@.to_set().insert(index) =~= families@.to_set());
            }
            return;
        }
        i = i + 1;
    }
    let ghost before = families@;
    families.push(index);
    proof {
        assert(families@.to_set() =~= before.to_set().insert(index)) by {
            assert forall|x: u32| families@.to_set().contains(x) implies before.to_set().insert(index).contains(x) by {
                let k = choose|k: int| 0 <= k < families@.len() && families@[k] == x;
                if k < before.len() {
                    assert(before[k] == x);
                }
            }
            assert forall|x: u32| before.to_set().insert(index).contains(x) implies families@.to_set().contains(x) by {
                if x == index {
                    assert(families@[before.len() as int] == x);
                } else {
                    let k = choose|k: int| 0 <= k < before.len() && before[k] == x;
                    assert(families@[k] == x);
                }
            }
        }
    }
}

/// The distinct queue families among the chosen ones; one queue is created
/// in each.
pub fn unique_queue_families(indices: &QueueIndices) -> (families: Vec<u32>)
    ensures
        families@.no_duplicates(),
        families@.to_set() == queue_index_set(*indices),
{
    let mut families: Vec<u32> = Vec::new();
    proof {
        assert(families@.to_set() =~= Set::<u32>::empty());
    }
    push_unique(&mut families, indices.graphics_index);
    push_unique(&mut families, indices.transfer_index);
    push_unique(&mut families, indices.compute_index);
    push_unique(&mut families, indices.present_index);
    proof {
        assert(families@.to_set() =~= queue_index_set(*indices));
    }
    families
}

/// What is known of a physical device when choosing one: its queue families,
/// the names of its device extensions, how many surface formats and present
/// modes it offers for the window, and the features the renderer needs.
pub struct DeviceCandidate {
    pub queue_families: Vec<QueueFamilySupport>,
    pub extension_names: Vec<Vec<u8>>,
    pub surface_format_count: usize,
    pub present_mode_count: usize,
    pub shader_int64: bool,
    pub timeline_semaphore: bool,
    pub scalar_block_layout: bool,
    pub synchronization2: bool,
}

/// Some family supports graphics, some transfer, some compute and some can present.
pub open spec fn spec_queue_families_supported(families: Seq<QueueFamilySupport>) -> bool {
    &&& exists|i: int| 0 <= i < families.len() && #[trigger] families[i].graphics
    &&& exists|i: int| 0 <= i < families.len() && #[trigger] families[i].transfer
    &&& exists|i: int| 0 <= i < families.len() && #[trigger] families[i].compute
    &&& exists|i: int| 0 <= i < families.len() && #[trigger] families[i].present
}

/// Every required extension name is among the available ones.
pub open spec fn spec_extensions_supported(required: Seq<Seq<u8>>, available: Seq<Seq<u8>>) -> bool {
    forall|r: int| 0 <= r < required.len() ==> #[trigger] available.contains(required[r])
}

pub open spec fn spec_device_suitable(candidate: DeviceCandidate, required: Seq<Seq<u8>>) -> bool {
    &&& spec_queue_families_supported(candidate.queue_families@)
    &&& candidate.surface_format_count > 0 && candidate.present_mode_count > 0
    &&& spec_extensions_supported(required, names_view(candidate.extension_names@))
    &&& candidate.shader_int64 && candidate.timeline_semaphore && candidate.scalar_block_layout
        && candidate.synchronization2
}

/// Whether every kind of queue is offered by some family; the scan stops once
/// all four kinds have been seen.
pub fn queue_families_supported(families: &Vec<QueueFamilySupport>) -> (supported: bool)
    ensures
        supported == spec_queue_families_supported(families@),
{
    let mut graphics = false;
    let mut transfer = false;
    let mut compute = false;
    let mut present = false;
    let mut i: usize = 0;
    while i < families.len() && !(graphics && transfer && compute && present)
        invariant
            i <= families.len(),
            graphics == exists|j: int| 0 <= j < i && #[trigger] families@[j].graphics,
            transfer == exists|j: int| 0 <= j < i && #[trigger] families@[j].transfer,
            compute == exists|j: int| 0 <= j < i && #[trigger] families@[j].compute,
            present == exists|j: int| 0 <= j < i && #[trigger] families@[j].present,
        decreases families.len() - i,
    {
        let family = families[i];
        graphics = graphics || family.graphics;
        transfer = transfer || family.transfer;
        compute = compute || family.compute;
        present = present || family.present;
        i = i + 1;
    }
    graphics && transfer && compute && present
}

/// Whether two byte strings are equal.
fn same_bytes(a: &Vec<u8>, b: &Vec<u8>) -> (same: bool)
    ensures
        same == (a@ == b@),
{
    if a.len() != b.len() {
        return false;
    }
    let mut i: usize = 0;
    while i < a.len()
        invariant
            i <= a.len(),
            a.len() == b.len(),
            forall|k: int| 0 <= k < i ==> a@[k] == b@[k],
        decreases a.len() - i,
    {
        if a[i] != b[i] {
            return false;
        }
        i = i + 1;
    }
    assert(a@ =~= b@);
    true
}

/// Whether `name` is one of `names`.
fn contains_name(names: &Vec<Vec<u8>>, name: &Vec<u8>) -> (found: bool)
    ensures
        found == names_view(names@).contains(name@),
{
    let mut i: usize = 0;
    while i < names.len()
        invariant
            i <= names.len(),
            forall|k: int| 0 <= k < i ==> names@[k]@ != name@,
        decreases names.len() - i,
    {
        if same_bytes(&names[i], name) {
            assert(names_view(names@)[i as int] == name@);
            return true;
        }
        i = i + 1;
    }
    assert forall|k: int| 0 <= k < names_view(names@).len() implies names_view(names@)[k] != name@ by {
        assert(names_view(names@)[k] == names@[k]@);
    }
    false
}

/// Whether every required extension is among the available ones.
pub fn extensions_supported(required: &Vec<Vec<u8>>, available: &Vec<Vec<u8>>) -> (supported: bool)
    ensures
        supported == spec_extensions_supported(names_view(required@), names_view(available@)),
{
    let mut i: usize = 0;
    while i < required.len()
        invariant
            i <= required.len(),
            forall|r: int| 0 <= r < i ==> #[trigger] names_view(available@).contains(names_view(required@)[r]),
        decreases required.len() - i,
    {
        if !contains_name(available, &required[i]) {
            assert(names_view(required@)[i as int] == required@[i as int]@);
            return false;
        }
        assert(names_view(required@)[i as int] == required@[i as int]@);
        i = i + 1;
    }
    true
}

/// Whether the device offers the queues, extensions, swapchain support and
/// features that the renderer needs.
pub fn is_device_suitable(candidate: &DeviceCandidate, required_device_extensions: &Vec<Vec<u8>>) -> (suitable: bool)
    ensures
        suitable == spec_device_suitable(*candidate, names_view(required_device_extensions@)),
{
    let queues = queue_families_supported(&candidate.queue_families);
    let extensions = extensions_supported(required_device_extensions, &candidate.extension_names);
    let swapchain = candidate.surface_format_count > 0 && candidate.present_mode_count > 0;
    let features = candidate.shader_int64 && candidate.timeline_semaphore
        && candidate.scalar_block_layout && candidate.synchronization2;
    queues && swapchain && extensions && features
}

/// The first suitable device, if any.
pub fn select_physical_device(
    candidates: &Vec<DeviceCandidate>,
    required_device_extensions: &Vec<Vec<u8>>,
) -> (chosen: Option<usize>)
    ensures
        match chosen {
            Some(i) => i < candidates.len() && spec_device_suitable(
                candidates@[i as int],
                names_view(required_device_extensions@),
            ) && forall|j: int|
                0 <= j < i ==> !spec_device_suitable(
                    #[trigger] candidates@[j],
                    names_view(required_device_extensions@),
                ),
            None => forall|j: int|
                0 <= j < candidates.len() ==> !spec_device_suitable(
                    #[trigger] candidates@[j],
                    names_view(required_device_extensions@),
                ),
        },
        chosen matches Some(i) ==> {
            &&& candidates@[i as int].shader_int64 && candidates@[i as int].timeline_semaphore
            &&& candidates@[i as int].scalar_block_layout && candidates@[i as int].synchronization2
            &&& forall|r: int|
                0 <= r < required_device_extensions@.len() ==> #[trigger] names_view(
                    candidates@[i as int].extension_names@,
                ).contains(names_view(required_device_extensions@)[r])
        },
{
    let mut i: usize = 0;
    while i < candidates.len()
        invariant
            i <= candidates.len(),
            forall|j: int|
                0 <= j < i ==> !spec_device_suitable(
                    #[trigger] candidates@[j],
                    names_view(required_device_extensions@),
                ),
        decreases candidates.len() - i,
    {
        if is_device_suitable(&candidates[i], required_device_extensions) {
            proof {
                lemma_suitable_device_offers_everything(candidates@[i as int], names_view(required_device_extensions@));
            }
            return Some(i);
        }
        i = i + 1;
    }
    None
}


/// The queue families found so far by a scan that keeps the last family of
/// each kind; the window program carries it from one device to the next.
#[derive(Clone, Copy, PartialEq, Eq, Structural)]
pub struct FamilyScan {
    pub graphics: Option<usize>,
    pub transfer: Option<usize>,
    pub present: Option<usize>,
}

/// A scan that has found no family yet.
pub open spec fn empty_scan() -> FamilyScan {
    FamilyScan { graphics: None, transfer: None, present: None }
}

/// The scan after looking at family `i`: each kind it supports now names `i`.
pub open spec fn scan_step(scan: FamilyScan, family: QueueFamilySupport, i: usize) -> FamilyScan {
    FamilyScan {
        graphics: if family.graphics { Some(i) } else { scan.graphics },
        transfer: if family.transfer { Some(i) } else { scan.transfer },
        present: if family.present { Some(i) } else { scan.present },
    }
}

pub open spec fn scan_complete(scan: FamilyScan) -> bool {
    scan.graphics is Some && scan.transfer is Some && scan.present is Some
}

/// Scanning families `i..` from `scan`, stopping right after the family with
/// which every kind has been found.
pub open spec fn scan_families_from(families: Seq<QueueFamilySupport>, scan: FamilyScan, i: int) -> FamilyScan
    decreases families.len() - i,
{
    if i < 0 || i >= families.len() {
        scan
    } else {
        let next = scan_step(scan, families[i], i as usize);
        if scan_complete(next) {
            next
        } else {
            scan_families_from(families, next, i + 1)
        }
    }
}

/// Scans a device's queue families, starting from what earlier scans found.
pub fn scan_queue_families(families: &Vec<QueueFamilySupport>, scan: FamilyScan) -> (result: FamilyScan)
    ensures
        result == scan_families_from(families@, scan, 0),
{
    let mut current = scan;
    let mut i: usize = 0;
    while i < families.len()
        invariant
            i <= families.len(),
            scan_families_from(families@, current, i as int) == scan_families_from(families@, scan, 0),
        decreases families.len() - i,
    {
        let family = families[i];
        current = FamilyScan {
            graphics: if family.graphics { Some(i) } else { current.graphics },
            transfer: if family.transfer { Some(i) } else { current.transfer },
            present: if family.present { Some(i) } else { current.present },
        };
        if current.graphics.is_some() && current.transfer.is_some() && current.present.is_some() {
            return current;
        }
        i = i + 1;
    }
    current
}

/// What the window program asks of a device: graphics and transfer families
/// (as the scan left them), swapchain support, the required extensions, and
/// timeline semaphores and synchronization2.
pub open spec fn spec_window_device_suitable(
    candidate: DeviceCandidate,
    scan: FamilyScan,
    required: Seq<Seq<u8>>,
) -> bool {
    &&& scan.graphics is Some && scan.transfer is Some
    &&& candidate.surface_format_count > 0 && candidate.present_mode_count > 0
    &&& spec_extensions_supported(required, names_view(candidate.extension_names@))
    &&& candidate.timeline_semaphore && candidate.synchronization2
}

/// The first suitable device from `d` on, with the scan as it stood after
/// that device; the scan carries over from each rejected device to the next.
pub open spec fn window_device_selection(
    candidates: Seq<DeviceCandidate>,
    required: Seq<Seq<u8>>,
    scan: FamilyScan,
    d: int,
) -> Option<(usize, FamilyScan)>
    decreases candidates.len() - d,
{
    if d < 0 || d >= candidates.len() {
        None
    } else {
        let after = scan_families_from(candidates[d].queue_families@, scan, 0);
        if spec_window_device_suitable(candidates[d], after, required) {
            Some((d as usize, after))
        } else {
            window_device_selection(candidates, required, after, d + 1)
        }
    }
}

/// Chooses the device of the window program together with its graphics,
/// transfer and present families; `None` when no device is suitable.
pub fn select_device_and_families(
    candidates: &Vec<DeviceCandidate>,
    required_device_extensions: &Vec<Vec<u8>>,
) -> (chosen: Option<(usize, FamilyScan)>)
    ensures
        chosen == window_device_selection(
            candidates@,
            names_view(required_device_extensions@),
            empty_scan(),
            0,
        ),
        match chosen {
            Some((d, scan)) => d < candidates.len() && scan.graphics is Some && scan.transfer is Some,
            None => true,
        },
        chosen matches Some((d, _)) ==> {
            &&& forall|r: int|
                0 <= r < required_device_extensions@.len() ==> #[trigger] names_view(
                    candidates@[d as int].extension_names@,
                ).contains(names_view(required_device_extensions@)[r])
            &&& candidates@[d as int].timeline_semaphore && candidates@[d as int].synchronization2
        },
{
    proof {
        assert(candidates@.len() == candidates.len());
        lemma_window_device_offers_everything(
            candidates@,
            names_view(required_device_extensions@),
            empty_scan(),
            0,
        );
    }
    let ghost required = names_view(required_device_extensions@);
    let mut scan = FamilyScan { graphics: None, transfer: None, present: None };
    let mut d: usize = 0;
    while d < candidates.len()
        invariant
            d <= candidates.len(),
            required == names_view(required_device_extensions@),
            window_device_selection(candidates@, required, scan, d as int) == window_device_selection(
                candidates@,
                required,
                empty_scan(),
                0,
            ),
        decreases candidates.len() - d,
    {
        let candidate = &candidates[d];
        let after = scan_queue_families(&candidate.queue_families, scan);
        let extensions = extensions_supported(required_device_extensions, &candidate.extension_names);
        if after.graphics.is_some() && after.transfer.is_some() && candidate.surface_format_count > 0
            && candidate.present_mode_count > 0 && extensions && candidate.timeline_semaphore
            && candidate.synchronization2 {
            return Some((d, after));
        }
        scan = after;
        d = d + 1;
    }
    None
}


/// A suitable device offers every required feature and extension, surface
/// formats and present modes, and a family of each queue kind.
pub proof fn lemma_suitable_device_offers_everything(candidate: DeviceCandidate, required: Seq<Seq<u8>>)
    requires
        spec_device_suitable(candidate, required),
    ensures
        candidate.shader_int64,
        candidate.timeline_semaphore,
        candidate.scalar_block_layout,
        candidate.synchronization2,
        candidate.surface_format_count > 0,
        candidate.present_mode_count > 0,
        forall|r: int| 0 <= r < required.len() ==> #[trigger] names_view(candidate.extension_names@).contains(required[r]),
        exists|i: int| 0 <= i < candidate.queue_families@.len() && #[trigger] candidate.queue_families@[i].graphics,
        exists|i: int| 0 <= i < candidate.queue_families@.len() && #[trigger] candidate.queue_families@[i].transfer,
        exists|i: int| 0 <= i < candidate.queue_families@.len() && #[trigger] candidate.queue_families@[i].compute,
        exists|i: int| 0 <= i < candidate.queue_families@.len() && #[trigger] candidate.queue_families@[i].present,
{
}

/// The device that `select_physical_device` chooses offers every required
/// feature, extension and queue kind, and no earlier device is suitable.
pub proof fn lemma_selected_device_offers_everything(
    candidates: Seq<DeviceCandidate>,
    required: Seq<Seq<u8>>,
    i: int,
)
    requires
        0 <= i < candidates.len(),
        spec_device_suitable(candidates[i], required),
    ensures
        candidates[i].synchronization2 && candidates[i].shader_int64 && candidates[i].timeline_semaphore
            && candidates[i].scalar_block_layout,
        forall|r: int| 0 <= r < required.len() ==> #[trigger] names_view(candidates[i].extension_names@).contains(required[r]),
{
    lemma_suitable_device_offers_everything(candidates[i], required);
}

/// The device that the window program chooses (from device `d` on) offers
/// every required extension, timeline semaphores, synchronization2, surface
/// formats and present modes, and its scan has graphics and transfer families.
pub proof fn lemma_window_device_offers_everything(
    candidates: Seq<DeviceCandidate>,
    required: Seq<Seq<u8>>,
    scan: FamilyScan,
    d: int,
)
    requires
        candidates.len() <= usize::MAX,
    ensures
        window_device_selection(candidates, required, scan, d) matches Some((i, s)) ==> {
            &&& d <= i < candidates.len()
            &&& forall|r: int| 0 <= r < required.len() ==> #[trigger] names_view(candidates[i as int].extension_names@).contains(required[r])
            &&& candidates[i as int].timeline_semaphore && candidates[i as int].synchronization2
            &&& candidates[i as int].surface_format_count > 0 && candidates[i as int].present_mode_count > 0
            &&& s.graphics is Some && s.transfer is Some
        },
    decreases candidates.len() - d,
{
    if 0 <= d < candidates.len() {
        let after = scan_families_from(candidates[d].queue_families@, scan, 0);
        if spec_window_device_suitable(candidates[d], after, required) {
            assert(window_device_selection(candidates, required, scan, d) == Some((d as usize, after)));
            assert(spec_extensions_supported(required, names_view(candidates[d].extension_names@)));
        } else {
            assert(window_device_selection(candidates, required, scan, d) == window_device_selection(
                candidates,
                required,
                after,
                d + 1,
            ));
            lemma_window_device_offers_everything(candidates, required, after, d + 1);
        }
    }
}
} // verus!
