//! Resource bookkeeping, render-graph compilation and device-property decoding for a
//! bindless Vulkan renderer. Vulkan objects themselves live with the caller; this crate
//! works on the plain values (raw Vulkan enum and flag values, slot-map keys as their
//! 64-bit FFI form) that the renderer's decisions are made from.
use vstd::prelude::*;

pub mod basic_render_graph_builder;
pub mod buffer;
pub mod descriptor_set;
pub mod descriptor_set_manager;
pub mod device;
pub mod id_pool;
pub mod image;
pub mod instance;
pub mod physical_device;
pub mod pipeline;
pub mod render_graph;
pub mod render_graph_builder;
pub mod render_graph_builder_trait;
pub mod render_graph_executor;
pub mod resource_managers;
pub mod resource_set;
pub mod sampler;
pub mod swapchain;
pub mod texture;
pub mod transfer_queue;
pub mod upload_queue;

verus! {

/// Key of a surface in the instance's surface list (the slot-map key's FFI value).
#[derive(PartialEq, Eq, Structural, Clone, Copy, Debug, Hash)]
pub struct SurfaceKey(pub u64);

/// Key of a persistent buffer in the resource manager.
#[derive(PartialEq, Eq, Structural, Clone, Copy, Debug, Hash)]
pub struct BufferKey(pub u64);

/// Key of a persistent image in the resource manager.
#[derive(PartialEq, Eq, Structural, Clone, Copy, Debug, Hash)]
pub struct ImageKey(pub u64);

/// Key of a sampler in the resource manager.
#[derive(PartialEq, Eq, Structural, Clone, Copy, Debug, Hash)]
pub struct SamplerKey(pub u64);

/// Key of a compute pipeline.
#[derive(PartialEq, Eq, Structural, Clone, Copy, Debug, Hash)]
pub struct ComputePipelineKey(pub u64);

/// Key of a raster pipeline.
#[derive(PartialEq, Eq, Structural, Clone, Copy, Debug, Hash)]
pub struct RasterPipleineKey(pub u64);

/// Key of a buffer set.
#[derive(PartialEq, Eq, Structural, Clone, Copy, Debug, Hash)]
pub struct BufferSetKey(pub u64);

/// The FFI value of slotmap's null key: index `u32::MAX`, version 1.
pub const NULL_KEY: u64 = 0x1_ffff_ffff;

/// The FFI value of a default (null) slotmap key.
///
/// Calls `slotmap::KeyData::default` and `KeyData::as_ffi`. The crate's source defines the
/// default as `KeyData::new(u32::MAX, 1)` and the FFI value as the version shifted left by
/// 32 bits, or-ed with the index; the contract states that value.
#[verifier::external_body]
fn default_key_ffi() -> (ffi: u64)
    ensures
        ffi == NULL_KEY,
{
    <slotmap::KeyData as Default>::default().as_ffi()
}

impl Default for BufferSetKey {
    /// The null key.
    fn default() -> (key: Self)
        ensures
            key == BufferSetKey(NULL_KEY),
    {
        BufferSetKey(default_key_ffi())
    }
}

/// An error of a Vulkan call or of the GPU memory allocator.
#[derive(PartialEq, Eq, Clone, Debug)]
pub enum VulkanError {
    /// A `VkResult` error code.
    Vk(i32),
    /// The allocator's error, as its message.
    GpuAllocator(String),
}

#[derive(PartialEq, Eq, Structural, Clone, Copy, Debug, Hash)]
pub struct SurfaceHandle(pub SurfaceKey);

/// A buffer as user code names it: a persistent resource, or a buffer created inside the
/// current render graph (by its index there).
#[derive(PartialEq, Eq, Structural, Clone, Copy, Debug, Hash)]
pub enum BufferHandle {
    Persistent(BufferKey),
    Transient(usize),
}

impl BufferHandle {
    /// The key of a persistent buffer; a transient buffer has none.
    pub fn as_key(&self) -> (key: BufferKey)
        requires
            self is Persistent,
        ensures
            *self == BufferHandle::Persistent(key),
    {
        match self {
            BufferHandle::Persistent(key) => *key,
            BufferHandle::Transient(_) => {
                assert(false);
                BufferKey(0)
            },
        }
    }
}

/// An image as user code names it: a persistent resource, or an image created (or a
/// swapchain image acquired) inside the current render graph, by its index there.
#[derive(PartialEq, Eq, Structural, Clone, Copy, Debug, Hash)]
pub enum ImageHandle {
    Persistent(ImageKey),
    Transient(usize),
}

impl ImageHandle {
    /// The key of a persistent image; a transient image has none.
    pub fn as_key(&self) -> (key: ImageKey)
        requires
            self is Persistent,
        ensures
            *self == ImageHandle::Persistent(key),
    {
        match self {
            ImageHandle::Persistent(key) => *key,
            ImageHandle::Transient(_) => {
                assert(false);
                ImageKey(0)
            },
        }
    }
}

/// The key of a persistent buffer handle (transient buffers are not supported).
pub fn buffer_handle_to_key(handle: BufferHandle) -> (key: BufferKey)
    requires
        handle is Persistent,
    ensures
        handle == BufferHandle::Persistent(key),
{
    match handle {
        BufferHandle::Persistent(key) => key,
        BufferHandle::Transient(_) => {
            assert(false);
            BufferKey(0)
        },
    }
}

/// The key of a persistent image handle (transient images are not supported).
pub fn image_handle_to_key(handle: ImageHandle) -> (key: ImageKey)
    requires
        handle is Persistent,
    ensures
        handle == ImageHandle::Persistent(key),
{
    match handle {
        ImageHandle::Persistent(key) => key,
        ImageHandle::Transient(_) => {
            assert(false);
            ImageKey(0)
        },
    }
}

#[derive(PartialEq, Eq, Structural, Clone, Copy, Debug, Hash)]
pub struct SamplerHandle(pub SamplerKey);

#[derive(PartialEq, Eq, Structural, Clone, Copy, Debug, Hash)]
pub struct ComputePipelineHandle(pub ComputePipelineKey);

#[derive(PartialEq, Eq, Structural, Clone, Copy, Debug, Hash)]
pub struct RasterPipelineHandle(pub RasterPipleineKey);

/// A value that becomes available some frames later; the caller polls it once a frame.
pub struct VulkanFuture<T> {
    _phantom: std::marker::PhantomData<T>,
}

} // verus!
