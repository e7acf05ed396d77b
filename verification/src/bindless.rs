use vstd::prelude::*;

verus! {

/// The kinds of bindless descriptor sets, in the order the pipeline layouts bind them.
#[derive(Clone, Copy, PartialEq, Eq, Structural)]
pub enum BindlessKind {
    UniformBuffer,
    CombinedImageSampler,
    StorageBuffer,
    StorageImage,
}

/// One descriptor set (with its layout and pool) for each bindless kind.
pub struct BindlessDescriptorSets<S> {
    pub uniform_buffer: S,
    pub combined_image_sampler: S,
    pub storage_buffer: S,
    pub storage_image: S,
}

impl<S> BindlessDescriptorSets<S> {
    /// Creates the four sets with `create_set`, one call per kind, in binding order.
    pub fn create<F: Fn(BindlessKind) -> S>(create_set: F) -> (sets: Self)
        requires
            forall|kind: BindlessKind| create_set.requires((kind,)),
        ensures
            create_set.ensures((BindlessKind::UniformBuffer,), sets.uniform_buffer),
            create_set.ensures((BindlessKind::CombinedImageSampler,), sets.combined_image_sampler),
            create_set.ensures((BindlessKind::StorageBuffer,), sets.storage_buffer),
            create_set.ensures((BindlessKind::StorageImage,), sets.storage_image),
    {
        let uniform_buffer = create_set(BindlessKind::UniformBuffer);
        let combined_image_sampler = create_set(BindlessKind::CombinedImageSampler);
        let storage_buffer = create_set(BindlessKind::StorageBuffer);
        let storage_image = create_set(BindlessKind::StorageImage);
        BindlessDescriptorSets { uniform_buffer, combined_image_sampler, storage_buffer, storage_image }
    }
}

} // verus!
