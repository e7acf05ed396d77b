use vstd::prelude::*;

verus! {

/// A buffer, the memory bound to it, and its device address.
///
/// The buffer and allocation handles are whatever the device layer uses; the
/// library only reads the address.
#[derive(Clone)]
pub struct BufferObjects<B, A> {
    pub buffer: B,
    pub allocation: A,
    pub device_address: u64,
}

/// An image, its memory and a view on it.
pub struct ImageHandles<I, A, V> {
    pub image: I,
    pub allocation: A,
    pub image_view: V,
}

/// A bottom-level acceleration structure with the buffers it was built from.
#[derive(Clone)]
pub struct BlasObjects<S, B, A> {
    pub blas: S,
    pub blas_buffer: BufferObjects<B, A>,
    pub vertex_buffer: BufferObjects<B, A>,
    pub index_buffer: BufferObjects<B, A>,
}

/// A top-level acceleration structure with its instance parameters and materials.
#[derive(Clone)]
pub struct TlasObjects<S, B, A> {
    pub tlas: S,
    pub tlas_buffer: BufferObjects<B, A>,
    pub instance_params_buffer: BufferObjects<B, A>,
    pub materials_buffer: BufferObjects<B, A>,
}

} // verus!
