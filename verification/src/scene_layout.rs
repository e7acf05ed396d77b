use vstd::prelude::*;

verus! {

/// A mesh of the scene, loaded from an OBJ file.
pub struct Mesh {
    pub path: String,
}

/// A glTF binary file of the scene.
pub struct Glb {
    pub path: String,
}

/// Number of texture slots of a material.
pub const TEXTURE_SLOTS: usize = 5;

/// Which textures a material has, in the order they are loaded: base color,
/// metallic, roughness, normal, emissive.
#[derive(Clone, Copy)]
pub struct MaterialTextures {
    pub base_color: bool,
    pub metallic: bool,
    pub roughness: bool,
    pub normal: bool,
    pub emissive: bool,
}

/// The bindless texture index of each of a material's textures; -1 where it has none.
#[derive(PartialEq, Eq, Structural)]
pub struct MaterialTextureIndices {
    pub base_color: i32,
    pub metallic: i32,
    pub roughness: i32,
    pub normal: i32,
    pub emissive: i32,
}

pub open spec fn slot_present(textures: MaterialTextures, slot: int) -> bool {
    if slot == 0 {
        textures.base_color
    } else if slot == 1 {
        textures.metallic
    } else if slot == 2 {
        textures.roughness
    } else if slot == 3 {
        textures.normal
    } else {
        textures.emissive
    }
}

pub open spec fn slot_index(indices: MaterialTextureIndices, slot: int) -> i32 {
    if slot == 0 {
        indices.base_color
    } else if slot == 1 {
        indices.metallic
    } else if slot == 2 {
        indices.roughness
    } else if slot == 3 {
        indices.normal
    } else {
        indices.emissive
    }
}

/// Whether the `k`-th texture in load order (material `k / 5`, slot `k % 5`) is present.
pub open spec fn present_at(materials: Seq<MaterialTextures>, k: int) -> bool {
    slot_present(materials[k / 5], k % 5)
}

/// How many of the first `k` textures in load order are present.
pub open spec fn present_before(materials: Seq<MaterialTextures>, k: int) -> nat
    decreases k,
{
    if k <= 0 {
        0
    } else {
        present_before(materials, k - 1) + if present_at(materials, k - 1) { 1nat } else { 0nat }
    }
}

/// The index given to slot `slot` of material `m`: the number of textures
/// loaded before it, or -1 when the material has no such texture.
pub open spec fn texture_index(materials: Seq<MaterialTextures>, m: int, slot: int) -> i32 {
    if present_at(materials, 5 * m + slot) {
        present_before(materials, 5 * m + slot) as i32
    } else {
        -1i32
    }
}

proof fn lemma_flat_position(m: int, slot: int)
    requires
        0 <= m,
        0 <= slot < 5,
    ensures
        (5 * m + slot) / 5 == m,
        (5 * m + slot) % 5 == slot,
{
    vstd::arithmetic::div_mod::lemma_fundamental_div_mod_converse(5 * m + slot, 5, m, slot);
}

proof fn lemma_present_before_monotonic(materials: Seq<MaterialTextures>, i: int, j: int)
    requires
        0 <= i <= j,
    ensures
        present_before(materials, i) <= present_before(materials, j),
    decreases j - i,
{
    if i < j {
        lemma_present_before_monotonic(materials, i, j - 1);
    }
}

proof fn lemma_present_before_at_most(materials: Seq<MaterialTextures>, k: int)
    requires
        0 <= k,
    ensures
        present_before(materials, k) <= k,
    decreases k,
{
    if k > 0 {
        lemma_present_before_at_most(materials, k - 1);
    }
}

/// Gives the next index to one slot if present.
fn next_index(present: bool, next: &mut usize) -> (index: i32)
    requires
        present ==> *old(next) < usize::MAX,
    ensures
        present ==> index == *old(next) as i32 && *final(next) == *old(next) + 1,
        !present ==> index == -1 && *final(next) == *old(next),
{
    if present {
        let index = *next as i32;
        *next = *next + 1;
        index
    } else {
        -1
    }
}

/// Numbers the textures of the materials in load order: each present texture
/// gets the count of textures loaded before it, each missing one -1.
pub fn assign_texture_indices(materials: &Vec<MaterialTextures>) -> (indices: Vec<MaterialTextureIndices>)
    requires
        5 * materials.len() <= usize::MAX,
    ensures
        indices.len() == materials.len(),
        forall|m: int, slot: int|
            0 <= m < materials.len() && 0 <= slot < 5 ==> #[trigger] slot_index(indices@[m], slot)
                == texture_index(materials@, m, slot),
{
    let ghost ms = materials@;
    let mut indices: Vec<MaterialTextureIndices> = Vec::new();
    let mut next: usize = 0;
    let mut m: usize = 0;
    while m < materials.len()
        invariant
            m <= materials.len(),
            ms == materials@,
            indices.len() == m,
            next == present_before(ms, 5 * m as int),
            5 * materials.len() <= usize::MAX,
            forall|mm: int, slot: int|
                0 <= mm < m && 0 <= slot < 5 ==> #[trigger] slot_index(indices@[mm], slot)
                    == texture_index(ms, mm, slot),
        decreases materials.len() - m,
    {
        let textures = materials[m];
        let ghost base = 5 * m as int;
        proof {
            lemma_flat_position(m as int, 0);
            lemma_flat_position(m as int, 1);
            lemma_flat_position(m as int, 2);
            lemma_flat_position(m as int, 3);
            lemma_flat_position(m as int, 4);
            lemma_present_before_at_most(ms, base);
            lemma_present_before_at_most(ms, base + 1);
            lemma_present_before_at_most(ms, base + 2);
            lemma_present_before_at_most(ms, base + 3);
            lemma_present_before_at_most(ms, base + 4);
            assert(present_before(ms, base + 1) == present_before(ms, base) + if present_at(ms, base) { 1nat } else { 0nat });
            assert(present_before(ms, base + 2) == present_before(ms, base + 1) + if present_at(ms, base + 1) { 1nat } else { 0nat });
            assert(present_before(ms, base + 3) == present_before(ms, base + 2) + if present_at(ms, base + 2) { 1nat } else { 0nat });
            assert(present_before(ms, base + 4) == present_before(ms, base + 3) + if present_at(ms, base + 3) { 1nat } else { 0nat });
            assert(present_before(ms, base + 5) == present_before(ms, base + 4) + if present_at(ms, base + 4) { 1nat } else { 0nat });
        }
        let base_color = next_index(textures.base_color, &mut next);
        let metallic = next_index(textures.metallic, &mut next);
        let roughness = next_index(textures.roughness, &mut next);
        let normal = next_index(textures.normal, &mut next);
        let emissive = next_index(textures.emissive, &mut next);
        let entry = MaterialTextureIndices { base_color, metallic, roughness, normal, emissive };
        proof {
            assert forall|slot: int| 0 <= slot < 5 implies slot_index(entry, slot) == texture_index(
                ms,
                m as int,
                slot,
            ) by {}
            assert(5 * (m + 1) == base + 5);
        }
        indices.push(entry);
        m = m + 1;
    }
    indices
}

/// Two different present textures get different indices, and every index is
/// below the number of textures loaded.
pub proof fn lemma_texture_indices_distinct(
    materials: Seq<MaterialTextures>,
    m1: int,
    s1: int,
    m2: int,
    s2: int,
)
    requires
        0 <= m1 < materials.len(),
        0 <= m2 < materials.len(),
        0 <= s1 < 5,
        0 <= s2 < 5,
        present_at(materials, 5 * m1 + s1),
        present_at(materials, 5 * m2 + s2),
        (m1, s1) != (m2, s2),
    ensures
        present_before(materials, 5 * m1 + s1) != present_before(materials, 5 * m2 + s2),
        present_before(materials, 5 * m1 + s1) < present_before(materials, 5 * materials.len() as int),
{
    let k1 = 5 * m1 + s1;
    let k2 = 5 * m2 + s2;
    lemma_flat_position(m1, s1);
    lemma_flat_position(m2, s2);
    assert(k1 != k2);
    if k1 < k2 {
        lemma_present_before_monotonic(materials, k1 + 1, k2);
    } else {
        lemma_present_before_monotonic(materials, k2 + 1, k1);
    }
    assert(k1 + 1 <= 5 * materials.len() as int);
    lemma_present_before_monotonic(materials, k1 + 1, 5 * materials.len() as int);
}

/// Whether some texel of RGBA8 data is not fully opaque.
pub fn has_translucent_texel(rgba: &Vec<u8>) -> (translucent: bool)
    ensures
        translucent == exists|i: int| 0 <= i < rgba.len() && i % 4 == 3 && #[trigger] rgba@[i] < 255,
{
    let mut i: usize = 3;
    while i < rgba.len()
        invariant
            3 <= i,
            i % 4 == 3,
            forall|j: int| 0 <= j < i && j < rgba.len() && j % 4 == 3 ==> #[trigger] rgba@[j] == 255,
        decreases rgba.len() + 4 - i,
    {
        if rgba[i] < 255 {
            return true;
        }
        if i > usize::MAX - 4 {
            return false;
        }
        i = i + 4;
    }
    false
}

/// One instance of the top-level acceleration structure: which bottom-level
/// structure it places, its material, and its hit group offset in the table.
#[derive(PartialEq, Eq, Structural)]
pub struct InstanceRecord {
    pub blas_index: usize,
    pub material_index: u32,
    pub sbt_offset: u32,
}

/// The instances of an OBJ scene: each places the structure of its mesh
/// with its own material, in the first hit group.
pub fn scene_instances(mesh_indices: &Vec<usize>, material_indices: &Vec<usize>, blas_count: usize) -> (records: Vec<InstanceRecord>)
    requires
        mesh_indices.len() == material_indices.len(),
        forall|i: int| 0 <= i < mesh_indices.len() ==> #[trigger] mesh_indices@[i] < blas_count,
    ensures
        records.len() == mesh_indices.len(),
        forall|i: int|
            0 <= i < records.len() ==> #[trigger] records@[i] == (InstanceRecord {
                blas_index: mesh_indices@[i],
                material_index: material_indices@[i] as u32,
                sbt_offset: 0,
            }),
{
    let mut records: Vec<InstanceRecord> = Vec::new();
    let mut i: usize = 0;
    while i < mesh_indices.len()
        invariant
            i <= mesh_indices.len(),
            mesh_indices.len() == material_indices.len(),
            records.len() == i,
            forall|k: int|
                0 <= k < i ==> #[trigger] records@[k] == (InstanceRecord {
                    blas_index: mesh_indices@[k],
                    material_index: material_indices@[k] as u32,
                    sbt_offset: 0,
                }),
        decreases mesh_indices.len() - i,
    {
        records.push(
            InstanceRecord {
                blas_index: mesh_indices[i],
                material_index: material_indices[i] as u32,
                sbt_offset: 0,
            },
        );
        i = i + 1;
    }
    records
}

/// The instances of a glTF scene: instance `i` places structure
/// `glb_indices[i]` with the material of the same index, in the hit group that
/// the material's type selects.
pub fn glb_instances(glb_indices: &Vec<usize>, blas_count: usize, material_types: &Vec<u32>) -> (records: Vec<InstanceRecord>)
    requires
        forall|i: int|
            0 <= i < glb_indices.len() ==> #[trigger] glb_indices@[i] < blas_count
                && glb_indices@[i] < material_types.len(),
    ensures
        records.len() == glb_indices.len(),
        forall|i: int|
            0 <= i < records.len() ==> #[trigger] records@[i] == (InstanceRecord {
                blas_index: glb_indices@[i],
                material_index: glb_indices@[i] as u32,
                sbt_offset: material_types@[glb_indices@[i] as int],
            }),
{
    let mut records: Vec<InstanceRecord> = Vec::new();
    let mut i: usize = 0;
    while i < glb_indices.len()
        invariant
            i <= glb_indices.len(),
            forall|k: int|
                0 <= k < glb_indices.len() ==> #[trigger] glb_indices@[k] < blas_count
                    && glb_indices@[k] < material_types.len(),
            records.len() == i,
            forall|k: int|
                0 <= k < i ==> #[trigger] records@[k] == (InstanceRecord {
                    blas_index: glb_indices@[k],
                    material_index: glb_indices@[k] as u32,
                    sbt_offset: material_types@[glb_indices@[k] as int],
                }),
        decreases glb_indices.len() - i,
    {
        let glb_index = glb_indices[i];
        records.push(
            InstanceRecord {
                blas_index: glb_index,
                material_index: glb_index as u32,
                sbt_offset: material_types[glb_index],
            },
        );
        i = i + 1;
    }
    records
}

/// The corners of each triangle of an index list, last triangle first.
pub fn triangle_corners(indices: &Vec<u32>) -> (triangles: Vec<(u32, u32, u32)>)
    requires
        indices.len() % 3 == 0,
    ensures
        triangles.len() == indices.len() / 3,
        forall|t: int|
            0 <= t < triangles.len() ==> {
                let first = 3 * (triangles.len() - 1 - t);
                #[trigger] triangles@[t] == (indices@[first], indices@[first + 1], indices@[first + 2])
            },
{
    let count = indices.len() / 3;
    let mut triangles: Vec<(u32, u32, u32)> = Vec::new();
    let mut t: usize = 0;
    while t < count
        invariant
            t <= count,
            count == indices.len() / 3,
            indices.len() % 3 == 0,
            triangles.len() == t,
            forall|k: int|
                0 <= k < t ==> {
                    let first = 3 * (count - 1 - k);
                    #[trigger] triangles@[k] == (indices@[first], indices@[first + 1], indices@[first + 2])
                },
        decreases count - t,
    {
        let first = 3 * (count - 1 - t);
        triangles.push((indices[first], indices[first + 1], indices[first + 2]));
        t = t + 1;
    }
    triangles
}

/// The geometry counts of a bottom-level structure built from `index_count`
/// indices: the highest vertex index it declares (the index count, as a
/// 32-bit number, less one) and its number of triangles.
pub fn blas_geometry_counts(index_count: usize) -> (counts: (u32, u32))
    requires
        index_count as u32 > 0,
    ensures
        counts.0 == index_count as u32 - 1,
        counts.1 == (index_count / 3) as u32,
{
    ((index_count as u32) - 1, (index_count / 3) as u32)
}

} // verus!
