//! Builders that collect one pass, or one draw command, piece by piece before it is
//! handed to a render graph builder.
use vstd::prelude::*;
use crate::render_graph::{IndexType, QueueType};
pub use crate::render_graph_builder::{
    BufferOffset, ColorAttachment, ComputeDispatch, DepthStencilAttachment, DrawCommandDispatch,
    ImageCopyBuffer, ImageCopyImage, RasterDrawCommand, ShaderResourceUsage, Transfer,
};
use crate::{BufferHandle, ComputePipelineHandle, ImageHandle, RasterPipelineHandle, SamplerHandle};

verus! {

/// The default label color of transfer passes, red (bit patterns of `[1.0, 0.0, 0.0, 1.0]`).
pub const TRANSFER_LABEL_COLOR: [u32; 4] = [0x3f80_0000, 0, 0, 0x3f80_0000];

/// The default label color of compute and raster passes, green (bit patterns of
/// `[0.0, 1.0, 0.0, 1.0]`).
pub const GREEN_LABEL_COLOR: [u32; 4] = [0, 0x3f80_0000, 0, 0x3f80_0000];

/// A pass of copies, collected in order.
pub struct TransferPassBuilder {
    pub name: String,
    /// The label color, as the bit patterns of its `f32` components.
    pub color: [u32; 4],
    pub queue: QueueType,
    pub transfers: Vec<Transfer>,
}

impl TransferPassBuilder {
    pub fn new(name: &str, queue: QueueType) -> (b: Self)
        ensures
            b.name@ == name@,
            b.color == TRANSFER_LABEL_COLOR,
            b.queue == queue,
            b.transfers@.len() == 0,
    {
        TransferPassBuilder { name: name.to_owned(), color: TRANSFER_LABEL_COLOR, queue, transfers: Vec::new() }
    }

    pub fn override_label_color(&mut self, color: [u32; 4])
        ensures
            final(self).color == color,
            final(self).name == old(self).name,
            final(self).queue == old(self).queue,
            final(self).transfers@ == old(self).transfers@,
    {
        self.color = color;
    }

    pub fn copy_buffer_to_buffer(&mut self, src: BufferOffset, dst: BufferOffset, copy_size: usize)
        ensures
            final(self).transfers@ == old(self).transfers@.push(
                Transfer::CopyBufferToBuffer { src, dst, copy_size: copy_size as u64 },
            ),
            final(self).name == old(self).name,
            final(self).color == old(self).color,
            final(self).queue == old(self).queue,
    {
        self.transfers.push(Transfer::CopyBufferToBuffer { src, dst, copy_size: copy_size as u64 });
    }

    pub fn copy_buffer_to_image(&mut self, src: ImageCopyBuffer, dst: ImageCopyImage, copy_size: [u32; 2])
        ensures
            final(self).transfers@ == old(self).transfers@.push(Transfer::CopyBufferToImage { src, dst, copy_size }),
            final(self).name == old(self).name,
            final(self).color == old(self).color,
            final(self).queue == old(self).queue,
    {
        self.transfers.push(Transfer::CopyBufferToImage { src, dst, copy_size });
    }

    pub fn copy_image_to_buffer(&mut self, src: ImageCopyImage, dst: ImageCopyBuffer, copy_size: [u32; 2])
        ensures
            final(self).transfers@ == old(self).transfers@.push(Transfer::CopyImageToBuffer { src, dst, copy_size }),
            final(self).name == old(self).name,
            final(self).color == old(self).color,
            final(self).queue == old(self).queue,
    {
        self.transfers.push(Transfer::CopyImageToBuffer { src, dst, copy_size });
    }

    pub fn copy_image_to_image(&mut self, src: ImageCopyImage, dst: ImageCopyImage, copy_size: [u32; 2])
        ensures
            final(self).transfers@ == old(self).transfers@.push(Transfer::CopyImageToImage { src, dst, copy_size }),
            final(self).name == old(self).name,
            final(self).color == old(self).color,
            final(self).queue == old(self).queue,
    {
        self.transfers.push(Transfer::CopyImageToImage { src, dst, copy_size });
    }
}

/// A compute dispatch and the shader resources it uses, collected in order.
pub struct ComputePassBuilder {
    pub name: String,
    /// The label color, as the bit patterns of its `f32` components.
    pub color: [u32; 4],
    pub queue: QueueType,
    pub pipeline: ComputePipelineHandle,
    pub resources: Vec<ShaderResourceUsage>,
    pub dispatch: ComputeDispatch,
}

impl ComputePassBuilder {
    /// A pass that dispatches one workgroup until told otherwise.
    pub fn new(name: &str, queue: QueueType, pipeline: ComputePipelineHandle) -> (b: Self)
        ensures
            b.name@ == name@,
            b.color == GREEN_LABEL_COLOR,
            b.queue == queue,
            b.pipeline == pipeline,
            b.resources@.len() == 0,
            b.dispatch == ComputeDispatch::Size([1u32, 1u32, 1u32]),
    {
        ComputePassBuilder {
            name: name.to_owned(),
            color: GREEN_LABEL_COLOR,
            queue,
            pipeline,
            resources: Vec::new(),
            dispatch: ComputeDispatch::Size([1, 1, 1]),
        }
    }

    pub fn override_label_color(&mut self, color: [u32; 4])
        ensures
            final(self).color == color,
            final(self).name == old(self).name,
            final(self).queue == old(self).queue,
            final(self).pipeline == old(self).pipeline,
            final(self).resources@ == old(self).resources@,
            final(self).dispatch == old(self).dispatch,
    {
        self.color = color;
    }

    pub fn dispatch_size(&mut self, size: [u32; 3])
        ensures
            final(self).dispatch == ComputeDispatch::Size(size),
            final(self).name == old(self).name,
            final(self).color == old(self).color,
            final(self).queue == old(self).queue,
            final(self).pipeline == old(self).pipeline,
            final(self).resources@ == old(self).resources@,
    {
        self.dispatch = ComputeDispatch::Size(size);
    }

    pub fn dispatch_indirect(&mut self, buffer: BufferHandle, offset: usize)
        ensures
            final(self).dispatch == ComputeDispatch::Indirect(BufferOffset { buffer, offset }),
            final(self).name == old(self).name,
            final(self).color == old(self).color,
            final(self).queue == old(self).queue,
            final(self).pipeline == old(self).pipeline,
            final(self).resources@ == old(self).resources@,
    {
        self.dispatch = ComputeDispatch::Indirect(BufferOffset { buffer, offset });
    }

    pub fn read_buffer(&mut self, buffer: BufferHandle)
        ensures
            final(self).resources@ == old(self).resources@.push(ShaderResourceUsage::StorageBuffer { buffer, write: false }),
            final(self).name == old(self).name,
            final(self).color == old(self).color,
            final(self).queue == old(self).queue,
            final(self).pipeline == old(self).pipeline,
            final(self).dispatch == old(self).dispatch,
    {
        self.resources.push(ShaderResourceUsage::StorageBuffer { buffer, write: false });
    }

    pub fn write_buffer(&mut self, buffer: BufferHandle)
        ensures
            final(self).resources@ == old(self).resources@.push(ShaderResourceUsage::StorageBuffer { buffer, write: true }),
            final(self).name == old(self).name,
            final(self).color == old(self).color,
            final(self).queue == old(self).queue,
            final(self).pipeline == old(self).pipeline,
            final(self).dispatch == old(self).dispatch,
    {
        self.resources.push(ShaderResourceUsage::StorageBuffer { buffer, write: true });
    }

    pub fn read_storage_image(&mut self, image: ImageHandle)
        ensures
            final(self).resources@ == old(self).resources@.push(ShaderResourceUsage::StorageImage { image, write: false }),
            final(self).name == old(self).name,
            final(self).color == old(self).color,
            final(self).queue == old(self).queue,
            final(self).pipeline == old(self).pipeline,
            final(self).dispatch == old(self).dispatch,
    {
        self.resources.push(ShaderResourceUsage::StorageImage { image, write: false });
    }

    pub fn write_storage_image(&mut self, image: ImageHandle)
        ensures
            final(self).resources@ == old(self).resources@.push(ShaderResourceUsage::StorageImage { image, write: true }),
            final(self).name == old(self).name,
            final(self).color == old(self).color,
            final(self).queue == old(self).queue,
            final(self).pipeline == old(self).pipeline,
            final(self).dispatch == old(self).dispatch,
    {
        self.resources.push(ShaderResourceUsage::StorageImage { image, write: true });
    }

    pub fn read_sampled_image(&mut self, image: ImageHandle)
        ensures
            final(self).resources@ == old(self).resources@.push(ShaderResourceUsage::SampledImage(image)),
            final(self).name == old(self).name,
            final(self).color == old(self).color,
            final(self).queue == old(self).queue,
            final(self).pipeline == old(self).pipeline,
            final(self).dispatch == old(self).dispatch,
    {
        self.resources.push(ShaderResourceUsage::SampledImage(image));
    }

    pub fn read_sampler(&mut self, sampler: SamplerHandle)
        ensures
            final(self).resources@ == old(self).resources@.push(ShaderResourceUsage::Sampler(sampler)),
            final(self).name == old(self).name,
            final(self).color == old(self).color,
            final(self).queue == old(self).queue,
            final(self).pipeline == old(self).pipeline,
            final(self).dispatch == old(self).dispatch,
    {
        self.resources.push(ShaderResourceUsage::Sampler(sampler));
    }
}

/// The attachments a raster pass draws into, named by handle.
pub struct Framebuffer {
    pub color_attachments: Vec<ColorAttachment>,
    pub depth_stencil_attachment: Option<DepthStencilAttachment>,
}

impl Default for Framebuffer {
    fn default() -> (f: Self)
        ensures
            f.color_attachments@.len() == 0,
            f.depth_stencil_attachment is None,
    {
        Framebuffer { color_attachments: Vec::new(), depth_stencil_attachment: None }
    }
}

/// A raster pass: its attachments and draw commands, collected in order.
pub struct RasterPassBuilder {
    pub name: String,
    /// The label color, as the bit patterns of its `f32` components.
    pub color: [u32; 4],
    pub framebuffer: Framebuffer,
    pub draw_commands: Vec<RasterDrawCommand>,
}

impl RasterPassBuilder {
    pub fn new(name: &str) -> (b: Self)
        ensures
            b.name@ == name@,
            b.color == GREEN_LABEL_COLOR,
            b.framebuffer.color_attachments@.len() == 0,
            b.framebuffer.depth_stencil_attachment is None,
            b.draw_commands@.len() == 0,
    {
        RasterPassBuilder {
            name: name.to_owned(),
            color: GREEN_LABEL_COLOR,
            framebuffer: Framebuffer::default(),
            draw_commands: Vec::new(),
        }
    }

    pub fn override_label_color(&mut self, color: [u32; 4])
        ensures
            final(self).color == color,
            final(self).name == old(self).name,
            final(self).framebuffer == old(self).framebuffer,
            final(self).draw_commands == old(self).draw_commands,
    {
        self.color = color;
    }

    /// Adds a color attachment; the clear color is given as the bit patterns of its `f32`
    /// components.
    pub fn add_color_attachment(&mut self, image: ImageHandle, clear: Option<[u32; 4]>)
        ensures
            final(self).framebuffer.color_attachments@ == old(self).framebuffer.color_attachments@.push(
                ColorAttachment { image, clear },
            ),
            final(self).framebuffer.depth_stencil_attachment == old(self).framebuffer.depth_stencil_attachment,
            final(self).name == old(self).name,
            final(self).color == old(self).color,
            final(self).draw_commands == old(self).draw_commands,
    {
        self.framebuffer.color_attachments.push(ColorAttachment { image, clear });
    }

    /// Sets the pass's one depth-stencil attachment; the clear depth is given as the bit
    /// pattern of its `f32`.
    pub fn add_depth_stencil_attachment(&mut self, image: ImageHandle, clear: Option<(u32, u32)>)
        requires
            old(self).framebuffer.depth_stencil_attachment is None,
        ensures
            final(self).framebuffer.depth_stencil_attachment == Some(DepthStencilAttachment { image, clear }),
            final(self).framebuffer.color_attachments == old(self).framebuffer.color_attachments,
            final(self).name == old(self).name,
            final(self).color == old(self).color,
            final(self).draw_commands == old(self).draw_commands,
    {
        self.framebuffer.depth_stencil_attachment = Some(DepthStencilAttachment { image, clear });
    }

    pub fn add_draw_command(&mut self, draw_command: RasterDrawCommand)
        ensures
            final(self).draw_commands@ == old(self).draw_commands@.push(draw_command),
            final(self).framebuffer == old(self).framebuffer,
            final(self).name == old(self).name,
            final(self).color == old(self).color,
    {
        self.draw_commands.push(draw_command);
    }
}

/// One draw command: its pipeline, vertex buffers and shader resources, and how it draws.
pub struct RasterDrawCommandBuilder {
    pub pipeline: RasterPipelineHandle,
    pub vertex_buffers: Vec<BufferOffset>,
    pub resources: Vec<ShaderResourceUsage>,
    pub dispatch: Option<DrawCommandDispatch>,
}

impl RasterDrawCommandBuilder {
    pub fn new(pipeline: RasterPipelineHandle) -> (b: Self)
        ensures
            b.pipeline == pipeline,
            b.vertex_buffers@.len() == 0,
            b.resources@.len() == 0,
            b.dispatch is None,
    {
        RasterDrawCommandBuilder { pipeline, vertex_buffers: Vec::new(), resources: Vec::new(), dispatch: None }
    }

    pub fn add_vertex_buffer(&mut self, buffer_offset: BufferOffset)
        ensures
            final(self).vertex_buffers@ == old(self).vertex_buffers@.push(buffer_offset),
            final(self).pipeline == old(self).pipeline,
            final(self).resources@ == old(self).resources@,
            final(self).dispatch == old(self).dispatch,
    {
        self.vertex_buffers.push(buffer_offset);
    }

    pub fn read_buffer(&mut self, buffer: BufferHandle)
        ensures
            final(self).resources@ == old(self).resources@.push(ShaderResourceUsage::StorageBuffer { buffer, write: false }),
            final(self).pipeline == old(self).pipeline,
            final(self).vertex_buffers@ == old(self).vertex_buffers@,
            final(self).dispatch == old(self).dispatch,
    {
        self.resources.push(ShaderResourceUsage::StorageBuffer { buffer, write: false });
    }

    pub fn write_buffer(&mut self, buffer: BufferHandle)
        ensures
            final(self).resources@ == old(self).resources@.push(ShaderResourceUsage::StorageBuffer { buffer, write: true }),
            final(self).pipeline == old(self).pipeline,
            final(self).vertex_buffers@ == old(self).vertex_buffers@,
            final(self).dispatch == old(self).dispatch,
    {
        self.resources.push(ShaderResourceUsage::StorageBuffer { buffer, write: true });
    }

    pub fn read_storage_image(&mut self, image: ImageHandle)
        ensures
            final(self).resources@ == old(self).resources@.push(ShaderResourceUsage::StorageImage { image, write: false }),
            final(self).pipeline == old(self).pipeline,
            final(self).vertex_buffers@ == old(self).vertex_buffers@,
            final(self).dispatch == old(self).dispatch,
    {
        self.resources.push(ShaderResourceUsage::StorageImage { image, write: false });
    }

    pub fn write_storage_image(&mut self, image: ImageHandle)
        ensures
            final(self).resources@ == old(self).resources@.push(ShaderResourceUsage::StorageImage { image, write: true }),
            final(self).pipeline == old(self).pipeline,
            final(self).vertex_buffers@ == old(self).vertex_buffers@,
            final(self).dispatch == old(self).dispatch,
    {
        self.resources.push(ShaderResourceUsage::StorageImage { image, write: true });
    }

    pub fn read_sampled_image(&mut self, image: ImageHandle)
        ensures
            final(self).resources@ == old(self).resources@.push(ShaderResourceUsage::SampledImage(image)),
            final(self).pipeline == old(self).pipeline,
            final(self).vertex_buffers@ == old(self).vertex_buffers@,
            final(self).dispatch == old(self).dispatch,
    {
        self.resources.push(ShaderResourceUsage::SampledImage(image));
    }

    pub fn read_sampler(&mut self, sampler: SamplerHandle)
        ensures
            final(self).resources@ == old(self).resources@.push(ShaderResourceUsage::Sampler(sampler)),
            final(self).pipeline == old(self).pipeline,
            final(self).vertex_buffers@ == old(self).vertex_buffers@,
            final(self).dispatch == old(self).dispatch,
    {
        self.resources.push(ShaderResourceUsage::Sampler(sampler));
    }

    /// Draws the vertices and instances of the ranges, without an index buffer.
    pub fn draw(&mut self, vertices: std::ops::Range<u32>, instances: std::ops::Range<u32>)
        ensures
            final(self).dispatch matches Some(DrawCommandDispatch::Draw { vertices: v, instances: i })
                && v == vertices && i == instances,
            final(self).pipeline == old(self).pipeline,
            final(self).vertex_buffers@ == old(self).vertex_buffers@,
            final(self).resources@ == old(self).resources@,
    {
        self.dispatch = Some(DrawCommandDispatch::Draw { vertices, instances });
    }

    pub fn draw_indexed(
        &mut self,
        base_vertex: i32,
        indices: std::ops::Range<u32>,
        instances: std::ops::Range<u32>,
        index_buffer: BufferOffset,
        index_type: IndexType,
    )
        ensures
            final(self).dispatch matches Some(
                DrawCommandDispatch::DrawIndexed { base_vertex: b, indices: ix, instances: i, index_buffer: ib, index_type: it },
            ) && b == base_vertex && ix == indices && i == instances && ib == index_buffer && it == index_type,
            final(self).pipeline == old(self).pipeline,
            final(self).vertex_buffers@ == old(self).vertex_buffers@,
            final(self).resources@ == old(self).resources@,
    {
        self.dispatch = Some(DrawCommandDispatch::DrawIndexed { base_vertex, indices, instances, index_buffer, index_type });
    }

    pub fn draw_indirect(&mut self, indirect_buffer: BufferOffset, draw_count: u32, stride: u32)
        ensures
            final(self).dispatch == Some(DrawCommandDispatch::DrawIndirect { indirect_buffer, draw_count, stride }),
            final(self).pipeline == old(self).pipeline,
            final(self).vertex_buffers@ == old(self).vertex_buffers@,
            final(self).resources@ == old(self).resources@,
    {
        self.dispatch = Some(DrawCommandDispatch::DrawIndirect { indirect_buffer, draw_count, stride });
    }

    pub fn draw_indirect_indexed(
        &mut self,
        indirect_buffer: BufferOffset,
        draw_count: u32,
        stride: u32,
        index_buffer: BufferOffset,
        index_type: IndexType,
    )
        ensures
            final(self).dispatch == Some(
                DrawCommandDispatch::DrawIndirectIndexed { indirect_buffer, draw_count, stride, index_buffer, index_type },
            ),
            final(self).pipeline == old(self).pipeline,
            final(self).vertex_buffers@ == old(self).vertex_buffers@,
            final(self).resources@ == old(self).resources@,
    {
        self.dispatch = Some(
            DrawCommandDispatch::DrawIndirectIndexed { indirect_buffer, draw_count, stride, index_buffer, index_type },
        );
    }

    /// The draw command; a dispatch mode must have been set.
    pub fn build(self) -> (command: RasterDrawCommand)
        requires
            self.dispatch is Some,
        ensures
            command.pipeline == self.pipeline,
            command.vertex_buffers@ == self.vertex_buffers@,
            command.resources@ == self.resources@,
            Some(command.dispatch) == self.dispatch,
    {
        let RasterDrawCommandBuilder { pipeline, vertex_buffers, resources, dispatch } = self;
        RasterDrawCommand { pipeline, vertex_buffers, resources, dispatch: dispatch.unwrap() }
    }
}

} // verus!
