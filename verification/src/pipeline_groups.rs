use vstd::prelude::*;

verus! {

/// The shader modules of one hit group: a closest-hit shader and optional
/// any-hit and intersection shaders.
pub struct HitShaderModules<M> {
    pub closest_hit: M,
    pub any_hit: Option<M>,
    pub intersection: Option<M>,
}

/// Where a pipeline stage's module comes from: the index of the module in the
/// raygen or miss list, or the index of the hit group that holds it.
#[derive(PartialEq, Eq, Structural)]
pub enum StageSource {
    Raygen(usize),
    Miss(usize),
    ClosestHit(usize),
    AnyHit(usize),
    Intersection(usize),
}

/// A ray tracing shader group: a general group (raygen or miss) naming one
/// stage, or a triangles hit group naming its stages; `None` is an unused slot.
#[derive(PartialEq, Eq, Structural)]
pub enum ShaderGroup {
    General { general_shader: u32 },
    TrianglesHit { closest_hit_shader: u32, any_hit_shader: Option<u32>, intersection_shader: Option<u32> },
}

/// Number of stages a hit group contributes.
pub open spec fn hit_stage_count<M>(hit: HitShaderModules<M>) -> nat {
    1 + (if hit.any_hit is Some { 1nat } else { 0nat }) + (if hit.intersection is Some { 1nat } else { 0nat })
}

/// Number of stages that the first `j` hit groups contribute.
pub open spec fn hit_stages_before<M>(hits: Seq<HitShaderModules<M>>, j: int) -> nat
    decreases j,
{
    if j <= 0 {
        0
    } else {
        hit_stages_before(hits, j - 1) + hit_stage_count(hits[j - 1])
    }
}

/// Index of the first stage of hit group `j`.
pub open spec fn hit_base<M>(
    raygen_count: nat,
    miss_count: nat,
    hits: Seq<HitShaderModules<M>>,
    j: int,
) -> nat {
    raygen_count + miss_count + hit_stages_before(hits, j)
}

/// The stages of hit group `j` stand at its base index: the closest-hit
/// stage, then the any-hit and intersection stages that it has.
pub open spec fn hit_stages_at<M>(
    stages: Seq<StageSource>,
    raygen_count: nat,
    miss_count: nat,
    hits: Seq<HitShaderModules<M>>,
    j: int,
) -> bool {
    let base = hit_base(raygen_count, miss_count, hits, j) as int;
    let any = if hits[j].any_hit is Some { 1int } else { 0int };
    &&& stages[base] == StageSource::ClosestHit(j as usize)
    &&& hits[j].any_hit is Some ==> stages[base + 1] == StageSource::AnyHit(j as usize)
    &&& hits[j].intersection is Some ==> stages[base + 1 + any] == StageSource::Intersection(
        j as usize,
    )
}

/// The group of hit group `j` names the stages at its base index.
pub open spec fn hit_group_at<M>(
    groups: Seq<ShaderGroup>,
    raygen_count: nat,
    miss_count: nat,
    hits: Seq<HitShaderModules<M>>,
    j: int,
) -> bool {
    let base = hit_base(raygen_count, miss_count, hits, j) as int;
    let any = if hits[j].any_hit is Some { 1int } else { 0int };
    groups[raygen_count + miss_count + j] == (ShaderGroup::TrianglesHit {
        closest_hit_shader: base as u32,
        any_hit_shader: if hits[j].any_hit is Some {
            Some((base + 1) as u32)
        } else {
            None
        },
        intersection_shader: if hits[j].intersection is Some {
            Some((base + 1 + any) as u32)
        } else {
            None
        },
    })
}

/// The stage list: raygen modules, then miss modules, then for each hit group
/// its closest-hit, any-hit and intersection modules, those present, in order.
pub open spec fn stages_laid_out<M>(
    stages: Seq<StageSource>,
    raygen_count: nat,
    miss_count: nat,
    hits: Seq<HitShaderModules<M>>,
) -> bool {
    &&& stages.len() == hit_base(raygen_count, miss_count, hits, hits.len() as int)
    &&& forall|i: int| 0 <= i < raygen_count ==> stages[i] == StageSource::Raygen(i as usize)
    &&& forall|i: int|
        raygen_count <= i < raygen_count + miss_count ==> stages[i] == StageSource::Miss(
            (i - raygen_count) as usize,
        )
    &&& forall|j: int|
        0 <= j < hits.len() ==> #[trigger] hit_stages_at(stages, raygen_count, miss_count, hits, j)
}

/// The group list: one general group per raygen and miss stage, then one
/// triangles hit group per hit group naming its stages.
pub open spec fn groups_laid_out<M>(
    groups: Seq<ShaderGroup>,
    raygen_count: nat,
    miss_count: nat,
    hits: Seq<HitShaderModules<M>>,
) -> bool {
    &&& groups.len() == raygen_count + miss_count + hits.len()
    &&& forall|i: int|
        0 <= i < raygen_count + miss_count ==> groups[i] == (ShaderGroup::General {
            general_shader: i as u32,
        })
    &&& forall|j: int|
        0 <= j < hits.len() ==> #[trigger] hit_group_at(groups, raygen_count, miss_count, hits, j)
}

proof fn lemma_hit_stages_before_monotonic<M>(hits: Seq<HitShaderModules<M>>, i: int, j: int)
    requires
        0 <= i <= j,
    ensures
        hit_stages_before(hits, i) + (j - i) <= hit_stages_before(hits, j),
    decreases j - i,
{
    if i < j {
        lemma_hit_stages_before_monotonic(hits, i, j - 1);
    }
}

/// Extending the stage list keeps the earlier hit groups' stages in place.
proof fn lemma_hit_stages_kept<M>(
    old_stages: Seq<StageSource>,
    stages: Seq<StageSource>,
    raygen_count: nat,
    miss_count: nat,
    hits: Seq<HitShaderModules<M>>,
    j: int,
)
    requires
        0 <= j < hits.len(),
        hit_stages_at(old_stages, raygen_count, miss_count, hits, j),
        hit_base(raygen_count, miss_count, hits, j + 1) <= old_stages.len(),
        old_stages.len() <= stages.len(),
        stages.subrange(0, old_stages.len() as int) == old_stages,
    ensures
        hit_stages_at(stages, raygen_count, miss_count, hits, j),
{
    let base = hit_base(raygen_count, miss_count, hits, j) as int;
    assert(stages[base] == old_stages[base]);
    if hits[j].any_hit is Some {
        assert(stages[base + 1] == old_stages[base + 1]);
    }
    let any = if hits[j].any_hit is Some { 1int } else { 0int };
    if hits[j].intersection is Some {
        assert(stages[base + 1 + any] == old_stages[base + 1 + any]);
    }
}

/// Appends the stages of hit group `j` and returns the indices of its
/// any-hit and intersection stages, with `index` the index of its closest-hit stage.
fn push_hit_stages<M>(
    stages: &mut Vec<StageSource>,
    hit: &HitShaderModules<M>,
    j: usize,
    index: u32,
) -> (result: (u32, Option<u32>, Option<u32>))
    requires
        old(stages).len() == index,
        index + hit_stage_count(*hit) <= u32::MAX,
    ensures
        final(stages)@.len() == index + hit_stage_count(*hit),
        final(stages)@.subrange(0, index as int) == old(stages)@,
        final(stages)@[index as int] == StageSource::ClosestHit(j),
        hit.any_hit is Some ==> final(stages)@[index + 1] == StageSource::AnyHit(j),
        hit.intersection is Some ==> final(stages)@[index + 1 + (if hit.any_hit is Some { 1int } else { 0int })]
            == StageSource::Intersection(j),
        result.0 == index + hit_stage_count(*hit),
        result.1 == (if hit.any_hit is Some { Some((index + 1) as u32) } else { None::<u32> }),
        result.2 == (if hit.intersection is Some {
            Some((index + 1 + (if hit.any_hit is Some { 1int } else { 0int })) as u32)
        } else {
            None::<u32>
        }),
{
    let mut next = index;
    stages.push(StageSource::ClosestHit(j));
    let any_hit_index = if hit.any_hit.is_some() {
        next = next + 1;
        stages.push(StageSource::AnyHit(j));
        Some(next)
    } else {
        None
    };
    let intersection_index = if hit.intersection.is_some() {
        next = next + 1;
        stages.push(StageSource::Intersection(j));
        Some(next)
    } else {
        None
    };
    (next + 1, any_hit_index, intersection_index)
}

/// Lists the stages of a ray tracing pipeline and the shader groups over them.
pub fn shader_stages_and_groups<M>(
    raygen_count: usize,
    miss_count: usize,
    hits: &Vec<HitShaderModules<M>>,
) -> (result: (Vec<StageSource>, Vec<ShaderGroup>))
    requires
        hit_base(raygen_count as nat, miss_count as nat, hits@, hits.len() as int) <= u32::MAX,
    ensures
        stages_laid_out(result.0@, raygen_count as nat, miss_count as nat, hits@),
        groups_laid_out(result.1@, raygen_count as nat, miss_count as nat, hits@),
{
    let ghost r = raygen_count as nat;
    let ghost m = miss_count as nat;
    proof {
        lemma_hit_stages_before_monotonic(hits@, 0, hits.len() as int);
        assert(r + m <= u32::MAX);
    }
    let mut stages: Vec<StageSource> = Vec::new();
    let mut groups: Vec<ShaderGroup> = Vec::new();
    let mut index: u32 = 0;
    let mut i: usize = 0;
    while i < raygen_count
        invariant
            i <= raygen_count,
            r == raygen_count,
            m == miss_count,
            r + m <= u32::MAX,
            index == i,
            stages.len() == i,
            groups.len() == i,
            forall|k: int| 0 <= k < i ==> stages@[k] == StageSource::Raygen(k as usize),
            forall|k: int| 0 <= k < i ==> groups@[k] == (ShaderGroup::General { general_shader: k as u32 }),
        decreases raygen_count - i,
    {
        stages.push(StageSource::Raygen(i));
        groups.push(ShaderGroup::General { general_shader: index });
        index = index + 1;
        i = i + 1;
    }
    let mut i: usize = 0;
    while i < miss_count
        invariant
            i <= miss_count,
            r == raygen_count,
            m == miss_count,
            r + m <= u32::MAX,
            index == raygen_count + i,
            stages.len() == index,
            groups.len() == index,
            forall|k: int| 0 <= k < r ==> stages@[k] == StageSource::Raygen(k as usize),
            forall|k: int| r <= k < r + i ==> stages@[k] == StageSource::Miss((k - r) as usize),
            forall|k: int| 0 <= k < index ==> groups@[k] == (ShaderGroup::General { general_shader: k as u32 }),
        decreases miss_count - i,
    {
        stages.push(StageSource::Miss(i));
        groups.push(ShaderGroup::General { general_shader: index });
        index = index + 1;
        i = i + 1;
    }
    let mut j: usize = 0;
    while j < hits.len()
        invariant
            j <= hits.len(),
            r == raygen_count,
            m == miss_count,
            index == hit_base(r, m, hits@, j as int),
            stages.len() == index,
            groups.len() == r + m + j,
            hit_base(r, m, hits@, hits.len() as int) <= u32::MAX,
            forall|k: int| 0 <= k < r ==> stages@[k] == StageSource::Raygen(k as usize),
            forall|k: int| r <= k < r + m ==> stages@[k] == StageSource::Miss((k - r) as usize),
            forall|k: int| 0 <= k < r + m ==> groups@[k] == (ShaderGroup::General { general_shader: k as u32 }),
            forall|jj: int| 0 <= jj < j ==> #[trigger] hit_stages_at(stages@, r, m, hits@, jj),
            forall|jj: int| 0 <= jj < j ==> #[trigger] hit_group_at(groups@, r, m, hits@, jj),
        decreases hits.len() - j,
    {
        proof {
            lemma_hit_stages_before_monotonic(hits@, j as int + 1, hits.len() as int);
        }
        let ghost old_stages = stages@;
        let ghost old_groups = groups@;
        let (next, any_hit_index, intersection_index) = push_hit_stages(&mut stages, &hits[j], j, index);
        groups.push(
            ShaderGroup::TrianglesHit {
                closest_hit_shader: index,
                any_hit_shader: any_hit_index,
                intersection_shader: intersection_index,
            },
        );
        proof {
            assert forall|jj: int| 0 <= jj < j implies #[trigger] hit_stages_at(stages@, r, m, hits@, jj) by {
                lemma_hit_stages_before_monotonic(hits@, jj + 1, j as int);
                lemma_hit_stages_kept(old_stages, stages@, r, m, hits@, jj);
            }
            assert(hit_stages_at(stages@, r, m, hits@, j as int));
            assert forall|jj: int| 0 <= jj < j implies #[trigger] hit_group_at(groups@, r, m, hits@, jj) by {
                assert(hit_group_at(old_groups, r, m, hits@, jj));
                assert(groups@[r + m + jj] == old_groups[r + m + jj]);
            }
            assert(hit_group_at(groups@, r, m, hits@, j as int));
            assert forall|k: int| 0 <= k < r implies stages@[k] == StageSource::Raygen(k as usize) by {
                assert(stages@[k] == old_stages[k]);
            }
            assert forall|k: int| r <= k < r + m implies stages@[k] == StageSource::Miss((k - r) as usize) by {
                assert(stages@[k] == old_stages[k]);
            }
        }
        index = next;
        j = j + 1;
    }
    (stages, groups)
}

/// Every stage index that a group names is a stage of the kind the group
/// expects: general groups name raygen or miss stages, hit groups name the
/// closest-hit, any-hit and intersection stages of their own hit group.
pub proof fn lemma_groups_name_matching_stages<M>(
    stages: Seq<StageSource>,
    groups: Seq<ShaderGroup>,
    raygen_count: nat,
    miss_count: nat,
    hits: Seq<HitShaderModules<M>>,
    g: int,
)
    requires
        stages_laid_out(stages, raygen_count, miss_count, hits),
        groups_laid_out(groups, raygen_count, miss_count, hits),
        stages.len() <= u32::MAX,
        0 <= g < groups.len(),
    ensures
        match groups[g] {
            ShaderGroup::General { general_shader } => {
                &&& general_shader < stages.len()
                &&& (g < raygen_count ==> stages[general_shader as int] == StageSource::Raygen(g as usize))
                &&& (g >= raygen_count ==> stages[general_shader as int] == StageSource::Miss(
                    (g - raygen_count) as usize,
                ))
            },
            ShaderGroup::TrianglesHit { closest_hit_shader, any_hit_shader, intersection_shader } => {
                let j = g - raygen_count - miss_count;
                &&& closest_hit_shader < stages.len()
                &&& stages[closest_hit_shader as int] == StageSource::ClosestHit(j as usize)
                &&& (any_hit_shader matches Some(a) ==> a < stages.len() && stages[a as int]
                    == StageSource::AnyHit(j as usize))
                &&& (intersection_shader matches Some(s) ==> s < stages.len() && stages[s as int]
                    == StageSource::Intersection(j as usize))
            },
        },
{
    if g >= raygen_count + miss_count {
        let j = g - raygen_count - miss_count;
        let h = hits[j];
        lemma_hit_stages_before_monotonic(hits, j + 1, hits.len() as int);
        assert(hit_stages_at(stages, raygen_count, miss_count, hits, j));
        assert(hit_group_at(groups, raygen_count, miss_count, hits, j));
        assert(hit_stages_before(hits, j + 1) == hit_stages_before(hits, j) + hit_stage_count(h));
    }
}

} // verus!
