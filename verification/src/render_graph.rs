//! The compiled render graph: resources by index, passes grouped in pass sets with their
//! barriers, and command buffers with their dependencies.
use vstd::prelude::*;
use crate::buffer::{BufferUsage, MemoryLocation};
use crate::image::TransientImageDesc;
use crate::resource_managers::{BufferResourceAccess, BufferTempResource, ImageResourceAccess};
use crate::{BufferKey, ComputePipelineHandle, ImageKey, RasterPipelineHandle, SamplerHandle, SurfaceHandle};

verus! {

#[derive(PartialEq, Eq, Structural, Clone, Copy, Debug, Default)]
pub enum QueueType {
    #[default]
    Graphics,
    PreferAsyncCompute,
    PreferAsyncTransfer,
}

pub type BufferIndex = usize;

pub type ImageIndex = usize;

/// Where a buffer of the graph comes from.
#[derive(PartialEq, Eq, Structural, Clone, Copy, Debug)]
pub enum BufferResourceDescription {
    Persistent(BufferKey),
    Transient { size: usize, usage: BufferUsage, location: MemoryLocation },
}

impl BufferResourceDescription {
    pub fn is_persistent(&self) -> (b: bool)
        ensures
            b == (self is Persistent),
    {
        match self {
            BufferResourceDescription::Persistent(_) => true,
            BufferResourceDescription::Transient { .. } => false,
        }
    }

    pub fn as_persistent(&self) -> (key: Option<BufferKey>)
        ensures
            key == match self {
                BufferResourceDescription::Persistent(k) => Some(*k),
                _ => None::<BufferKey>,
            },
    {
        match self {
            BufferResourceDescription::Persistent(key) => Some(*key),
            BufferResourceDescription::Transient { .. } => None,
        }
    }
}

#[derive(PartialEq, Eq, Structural, Clone, Copy, Debug)]
pub struct BufferGraphResource {
    pub description: BufferResourceDescription,
    pub last_access: BufferResourceAccess,
}

/// Where an image of the graph comes from.
#[derive(PartialEq, Eq, Clone, Copy, Debug)]
pub enum ImageResourceDescription {
    Persistent(ImageKey),
    Transient(TransientImageDesc),
    /// The image acquired from the swapchain of the graph's `n`-th swapchain entry.
    Swapchain(usize),
}

#[derive(PartialEq, Eq, Clone, Copy, Debug)]
pub struct ImageGraphResource {
    pub description: ImageResourceDescription,
    pub first_access: Option<ImageResourceAccess>,
    pub last_access: Option<ImageResourceAccess>,
}

#[derive(PartialEq, Eq, Structural, Clone, Copy, Debug)]
pub struct BufferOffset {
    pub buffer: BufferIndex,
    pub offset: u64,
}

#[derive(PartialEq, Eq, Structural, Clone, Copy, Debug)]
pub enum ShaderResourceUsage {
    StorageBuffer { buffer: BufferIndex, write: bool },
    StorageImage { image: ImageIndex, write: bool },
    SampledImage(ImageIndex),
    Sampler(SamplerHandle),
}

#[derive(PartialEq, Eq, Structural, Clone, Copy, Debug)]
pub struct ImageCopyBuffer {
    pub buffer: BufferIndex,
    pub offset: u64,
    pub row_length: Option<u32>,
    pub row_height: Option<u32>,
}

#[derive(PartialEq, Eq, Clone, Copy, Debug)]
pub struct ImageCopyImage {
    pub image: ImageIndex,
    pub offset: [u32; 2],
}

#[allow(inconsistent_fields)]
#[derive(PartialEq, Eq, Clone, Copy, Debug)]
pub enum Transfer {
    BufferToBuffer { src: BufferOffset, dst: BufferOffset, copy_size: u64 },
    BufferToImage { src: ImageCopyBuffer, dst: ImageCopyImage, copy_size: [u32; 2] },
    ImageToBuffer { src: ImageCopyImage, dst: ImageCopyBuffer, copy_size: [u32; 2] },
    ImageToImage { src: ImageCopyImage, dst: ImageCopyImage, copy_size: [u32; 2] },
}

#[derive(PartialEq, Eq, Clone, Copy, Debug)]
pub enum ComputeDispatch {
    Size([u32; 3]),
    Indirect(BufferOffset),
}

#[derive(PartialEq, Eq, Structural, Clone, Copy, Debug)]
pub enum IndexType {
    U16,
    U32,
}

/// A color attachment; the clear color is kept as the bit patterns of its `f32` components.
#[derive(PartialEq, Eq, Clone, Copy, Debug)]
pub struct ColorAttachment {
    pub image: ImageIndex,
    pub clear: Option<[u32; 4]>,
}

/// A depth-stencil attachment; the clear depth is kept as the bit pattern of its `f32`.
#[derive(PartialEq, Eq, Clone, Copy, Debug)]
pub struct DepthStencilAttachment {
    pub image: ImageIndex,
    pub clear: Option<(u32, u32)>,
}

#[derive(PartialEq, Eq, Debug)]
pub struct Framebuffer {
    pub color_attachments: Vec<ColorAttachment>,
    pub depth_stencil_attachment: Option<DepthStencilAttachment>,
}

#[derive(PartialEq, Eq, Debug)]
pub enum DrawCommandDispatch {
    Draw { vertices: std::ops::Range<u32>, instances: std::ops::Range<u32> },
    DrawIndexed {
        base_vertex: i32,
        indices: std::ops::Range<u32>,
        instances: std::ops::Range<u32>,
        index_buffer: BufferOffset,
        index_type: IndexType,
    },
    DrawIndirect { indirect_buffer: BufferOffset, draw_count: u32, stride: u32 },
    DrawIndirectIndexed {
        indirect_buffer: BufferOffset,
        draw_count: u32,
        stride: u32,
        index_buffer: BufferOffset,
        index_type: IndexType,
    },
}

#[derive(PartialEq, Eq, Debug)]
pub struct RasterDrawCommand {
    pub pipeline: RasterPipelineHandle,
    pub vertex_buffers: Vec<BufferOffset>,
    pub resources: Vec<ShaderResourceUsage>,
    pub dispatch: DrawCommandDispatch,
}

#[derive(PartialEq, Eq, Debug)]
pub enum RenderPassCommand {
    Transfer { transfers: Vec<Transfer> },
    Compute {
        pipeline: ComputePipelineHandle,
        resources: Vec<ShaderResourceUsage>,
        dispatch: ComputeDispatch,
    },
    Raster { framebuffer: Framebuffer, draw_commands: Vec<RasterDrawCommand> },
}

/// A write of `write_size` bytes into a buffer of the graph; the bytes come from a
/// callback that the executor holds.
#[derive(PartialEq, Eq, Structural, Clone, Copy, Debug)]
pub struct BufferWrite {
    pub buffer_offset: BufferOffset,
    pub write_size: usize,
}

#[derive(PartialEq, Eq, Structural, Clone, Copy, Debug)]
pub struct BufferWrite2 {
    pub buffer_offset: BufferOffset,
    pub write_size: usize,
}

/// A read of `read_size` bytes from a buffer of the graph, handed to a callback that the
/// executor holds.
#[derive(PartialEq, Eq, Structural, Clone, Copy, Debug)]
pub struct BufferRead {
    pub buffer_offset: BufferOffset,
    pub read_size: usize,
}

#[derive(PartialEq, Eq, Structural, Clone, Copy, Debug, Default)]
pub enum Queue {
    #[default]
    Graphics,
    Compute,
    Transfer,
}

/// A pass; the label color is kept as the bit patterns of its `f32` components.
#[derive(PartialEq, Eq, Debug)]
pub struct RenderPass {
    pub label_name: String,
    pub label_color: [u32; 4],
    pub command: Option<RenderPassCommand>,
}

/// A pass in the shape the upload queue records it: with the accesses of its buffers and
/// images listed beside it rather than turned into barriers.
#[derive(PartialEq, Eq, Debug)]
pub struct OldRenderPass {
    pub label_name: String,
    /// The label color, as the bit patterns of its `f32` components.
    pub label_color: [u32; 4],
    pub queue: QueueType,
    pub buffer_access: Vec<(BufferIndex, BufferResourceAccess)>,
    pub image_access: Vec<(ImageIndex, ImageResourceAccess)>,
    pub command: Option<RenderPassCommand>,
}

#[derive(PartialEq, Eq, Structural, Clone, Copy, Debug)]
pub enum BufferBarrierSource {
    /// Retrieve usage from a previous frame
    FirstUsage,
    /// Precalculated usage from the graph
    Precalculated(BufferResourceAccess),
}

#[derive(PartialEq, Eq, Structural, Clone, Copy, Debug)]
pub struct BufferBarrier {
    pub index: BufferIndex,
    pub src: BufferBarrierSource,
    pub dst: BufferResourceAccess,
}

#[derive(PartialEq, Eq, Structural, Clone, Copy, Debug)]
pub enum ImageBarrierSource {
    /// Retrieve usage from a previous frame
    FirstUsage,
    /// Precalculated usage from the graph
    Precalculated(ImageResourceAccess),
}

#[derive(PartialEq, Eq, Structural, Clone, Copy, Debug)]
pub struct ImageBarrier {
    pub index: ImageIndex,
    pub src: ImageBarrierSource,
    pub dst: ImageResourceAccess,
}

/// A global memory barrier, with raw Vulkan `VkPipelineStageFlags2` and `VkAccessFlags2`.
#[derive(PartialEq, Eq, Structural, Clone, Copy, Debug)]
pub struct MemoryBarrier {
    pub src_stage_mask: u64,
    pub src_access_mask: u64,
    pub dst_stage_mask: u64,
    pub dst_access_mask: u64,
}

#[derive(PartialEq, Eq, Debug)]
pub struct RenderPassSet {
    pub memory_barriers: Vec<MemoryBarrier>,
    pub buffer_barriers: Vec<BufferBarrier>,
    pub image_barriers: Vec<ImageBarrier>,
    pub render_passes: Vec<RenderPass>,
}

#[derive(PartialEq, Eq, Structural, Clone, Copy, Debug)]
pub struct BufferOwnershipTransfer {
    pub index: BufferIndex,
    pub access_flags: u64,
}

#[derive(PartialEq, Eq, Structural, Clone, Copy, Debug)]
pub struct ImageOwnershipTransfer {
    pub index: BufferIndex,
    pub access_flags: u64,
}

#[derive(PartialEq, Eq, Debug)]
pub enum CommandBufferDependency {
    CommandBuffer {
        /// The index of the command buffer
        command_buffer_index: usize,
        /// The index of the dependency, used for sync primitive lookup
        dependency_index: usize,
        /// The wait or signal stage of the semaphore
        stage_mask: u64,
        /// The buffers to send or receive
        buffer_ownership_transfer: Vec<BufferOwnershipTransfer>,
        /// The images to send or receive
        image_ownership_transfer: Vec<ImageOwnershipTransfer>,
    },
    Swapchain { index: usize, access: ImageResourceAccess },
}

#[derive(PartialEq, Eq, Debug)]
pub struct CommandBuffer {
    /// Queue that the command buffer is submitted to
    pub queue: Queue,
    /// List of command buffers / swapchains that this command buffer is dependant on
    pub command_buffer_wait_dependencies: Vec<CommandBufferDependency>,
    pub render_pass_sets: Vec<RenderPassSet>,
    /// List of command buffers / swapchains that depend on this command buffer
    pub command_buffer_signal_dependencies: Vec<CommandBufferDependency>,
}

impl CommandBuffer {
    /// An empty command buffer on the graphics queue.
    pub fn new() -> (c: Self)
        ensures
            c.queue == Queue::Graphics,
            c.command_buffer_wait_dependencies@.len() == 0,
            c.render_pass_sets@.len() == 0,
            c.command_buffer_signal_dependencies@.len() == 0,
    {
        CommandBuffer {
            queue: Queue::Graphics,
            command_buffer_wait_dependencies: Vec::new(),
            render_pass_sets: Vec::new(),
            command_buffer_signal_dependencies: Vec::new(),
        }
    }
}

/// Sum of the sizes of a sequence of writes.
pub open spec fn sum_write_sizes(writes: Seq<BufferWrite2>) -> int
    decreases writes.len(),
{
    if writes.len() == 0 {
        0
    } else {
        sum_write_sizes(writes.drop_last()) + writes.last().write_size
    }
}

/// Sum of the sizes of the writes that target an unmapped buffer and so go through the
/// staging buffer.
pub open spec fn staging_size(writes: Seq<BufferWrite2>, resources: Seq<BufferTempResource>) -> int
    decreases writes.len(),
{
    if writes.len() == 0 {
        0
    } else {
        staging_size(writes.drop_last(), resources) + if resources[writes.last().buffer_offset.buffer as int].is_mapped {
            0
        } else {
            writes.last().write_size as int
        }
    }
}

/// Every write targets a buffer of `resources`.
pub open spec fn writes_in_bounds(writes: Seq<BufferWrite2>, len: nat) -> bool {
    forall|i: int| 0 <= i < writes.len() ==> (#[trigger] writes[i]).buffer_offset.buffer < len
}

/// The staging buffer never needs more bytes than all the writes together.
pub proof fn lemma_staging_size_bounds(writes: Seq<BufferWrite2>, resources: Seq<BufferTempResource>)
    ensures
        0 <= staging_size(writes, resources) <= sum_write_sizes(writes),
    decreases writes.len(),
{
    if writes.len() > 0 {
        lemma_staging_size_bounds(writes.drop_last(), resources);
    }
}

/// The writes of a graph and the running total of their sizes.
#[derive(PartialEq, Eq, Debug)]
pub struct BufferWrites {
    pub total_write_size: usize,
    pub buffer_writes: Vec<BufferWrite2>,
}

impl BufferWrites {
    pub fn new() -> (w: Self)
        ensures
            w.total_write_size == 0,
            w.buffer_writes@ == Seq::<BufferWrite2>::empty(),
            w.total_write_size == sum_write_sizes(w.buffer_writes@),
    {
        BufferWrites { total_write_size: 0, buffer_writes: Vec::new() }
    }

    /// Appends a write and adds its size to the total, so a total that was the sum of the
    /// sizes of the writes stays so.
    pub fn push(&mut self, write: BufferWrite2)
        requires
            old(self).total_write_size + write.write_size <= usize::MAX,
        ensures
            final(self).total_write_size == old(self).total_write_size + write.write_size,
            final(self).buffer_writes@ == old(self).buffer_writes@.push(write),
            old(self).total_write_size == sum_write_sizes(old(self).buffer_writes@)
                ==> final(self).total_write_size == sum_write_sizes(final(self).buffer_writes@),
    {
        proof {
            if self.total_write_size == sum_write_sizes(self.buffer_writes@) {
                lemma_push_keeps_total(*self, write);
            }
        }
        self.total_write_size = self.total_write_size + write.write_size;
        self.buffer_writes.push(write);
    }

    /// The size of the staging buffer the writes need: the bytes of every write whose
    /// target buffer is not mapped.
    pub fn calc_needed_staging_size(&self, buffer_resources: &[BufferTempResource]) -> (size: usize)
        requires
            writes_in_bounds(self.buffer_writes@, buffer_resources@.len()),
            staging_size(self.buffer_writes@, buffer_resources@) <= usize::MAX,
        ensures
            size == staging_size(self.buffer_writes@, buffer_resources@),
    {
        let mut total: usize = 0;
        let mut i: usize = 0;
        while i < self.buffer_writes.len()
            invariant
                i <= self.buffer_writes@.len(),
                writes_in_bounds(self.buffer_writes@, buffer_resources@.len()),
                staging_size(self.buffer_writes@, buffer_resources@) <= usize::MAX,
                total == staging_size(self.buffer_writes@.take(i as int), buffer_resources@),
            decreases self.buffer_writes@.len() - i,
        {
            let write = self.buffer_writes[i];
            assert(self.buffer_writes@.take(i + 1).drop_last() =~= self.buffer_writes@.take(i as int));
            assert(write.buffer_offset.buffer < buffer_resources@.len());
            proof {
                lemma_staging_size_prefix_monotone(self.buffer_writes@, buffer_resources@, i + 1);
            }
            let size: usize = if buffer_resources[write.buffer_offset.buffer].is_mapped {
                0
            } else {
                write.write_size
            };
            total = total + size;
            i = i + 1;
        }
        assert(self.buffer_writes@.take(i as int) =~= self.buffer_writes@);
        total
    }
}

/// The staging size of a prefix never exceeds that of the whole sequence.
pub proof fn lemma_staging_size_prefix_monotone(
    writes: Seq<BufferWrite2>,
    resources: Seq<BufferTempResource>,
    n: int,
)
    requires
        0 <= n <= writes.len(),
    ensures
        staging_size(writes.take(n), resources) <= staging_size(writes, resources),
    decreases writes.len() - n,
{
    if n < writes.len() {
        lemma_staging_size_prefix_monotone(writes, resources, n + 1);
        assert(writes.take(n + 1).drop_last() =~= writes.take(n));
    } else {
        assert(writes.take(n) =~= writes);
    }
}

impl Default for BufferWrites {
    /// No writes, and a total of zero.
    fn default() -> (w: Self)
        ensures
            w.total_write_size == 0,
            w.buffer_writes@ == Seq::<BufferWrite2>::empty(),
            w.total_write_size == sum_write_sizes(w.buffer_writes@),
    {
        BufferWrites::new()
    }
}

/// Pushing a write keeps the running total equal to the sum of the sizes of all writes.
pub proof fn lemma_push_keeps_total(writes: BufferWrites, write: BufferWrite2)
    requires
        writes.total_write_size == sum_write_sizes(writes.buffer_writes@),
    ensures
        writes.total_write_size + write.write_size == sum_write_sizes(writes.buffer_writes@.push(write)),
{
    assert(writes.buffer_writes@.push(write).drop_last() =~= writes.buffer_writes@);
}

/// The total and the writes of a `BufferWrites` made by `new` (or `default`) after
/// pushing `pushed` in order: each push adds the write's size to the total and appends it.
pub open spec fn after_pushes(pushed: Seq<BufferWrite2>) -> (int, Seq<BufferWrite2>)
    decreases pushed.len(),
{
    if pushed.len() == 0 {
        (0, Seq::empty())
    } else {
        let (total, writes) = after_pushes(pushed.drop_last());
        (total + pushed.last().write_size, writes.push(pushed.last()))
    }
}

/// After any history of pushes from an empty `BufferWrites`, the writes are those pushed,
/// in order, and the running total is the sum of their sizes.
pub proof fn lemma_pushes_total_is_sum(pushed: Seq<BufferWrite2>)
    ensures
        after_pushes(pushed).1 == pushed,
        after_pushes(pushed).0 == sum_write_sizes(pushed),
    decreases pushed.len(),
{
    if pushed.len() > 0 {
        lemma_pushes_total_is_sum(pushed.drop_last());
        assert(pushed.drop_last().push(pushed.last()) =~= pushed);
    }
}

#[derive(PartialEq, Eq, Debug)]
pub struct CompiledRenderGraph {
    pub buffer_writes2: BufferWrites,
    pub buffer_writes: Vec<BufferWrite>,
    pub buffer_reads: Vec<BufferRead>,
    /// List of buffers used by this graph
    pub buffer_resources: Vec<BufferGraphResource>,
    /// List of images used by this graph
    pub image_resources: Vec<ImageGraphResource>,
    /// List of swapchains and swapchain images used by this graph
    pub swapchain_images: Vec<(SurfaceHandle, ImageIndex)>,
    pub command_buffers: Vec<CommandBuffer>,
}

} // verus!
