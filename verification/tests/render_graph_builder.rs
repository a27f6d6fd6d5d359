use neptune_vulkan::basic_render_graph_builder::BasicRenderGraphBuilder;
use neptune_vulkan::buffer::{BufferUsage, MemoryLocation};
use neptune_vulkan::image::{TransientImageDesc, TransientImageSize};
use neptune_vulkan::render_graph::{
    BufferResourceDescription, CommandBufferDependency, ImageBarrierSource, ImageResourceDescription, Queue,
    QueueType, RenderPassCommand,
};
use neptune_vulkan::render_graph_builder::{
    BufferOffset, ColorAttachment, ComputeDispatch, DepthStencilAttachment, DrawCommandDispatch, ImageCopyBuffer,
    ImageCopyImage, RasterDrawCommand, ShaderResourceUsage, Transfer,
};
use neptune_vulkan::resource_managers::{BufferResourceAccess, ImageResourceAccess};
use neptune_vulkan::{
    BufferHandle, BufferKey, ComputePipelineHandle, ComputePipelineKey, ImageHandle, ImageKey, RasterPipelineHandle,
    RasterPipleineKey, SurfaceHandle, SurfaceKey,
};

fn image_desc() -> TransientImageDesc {
    TransientImageDesc {
        size: TransientImageSize::Exact([64, 32]),
        format: 37,
        usage: 0x10,
        mip_levels: 1,
        memory_location: MemoryLocation::GpuOnly,
    }
}

const RED: [u32; 4] = [0x3f80_0000, 0, 0, 0x3f80_0000];

#[test]
fn transient_buffers_are_numbered_in_order() {
    let mut builder = BasicRenderGraphBuilder::new();
    let a = builder.create_transient_buffer(256, BufferUsage(BufferUsage::STORAGE), MemoryLocation::GpuOnly);
    let b = builder.create_transient_buffer(16, BufferUsage(BufferUsage::VERTEX), MemoryLocation::CpuToGpu);
    assert_eq!(a, BufferHandle::Transient(0));
    assert_eq!(b, BufferHandle::Transient(1));
    let graph = builder.build();
    assert_eq!(graph.buffer_resources.len(), 2);
    assert_eq!(
        graph.buffer_resources[1].description,
        BufferResourceDescription::Transient {
            size: 16,
            usage: BufferUsage(BufferUsage::VERTEX),
            location: MemoryLocation::CpuToGpu
        }
    );
    assert_eq!(graph.buffer_resources[1].last_access, BufferResourceAccess::Unused);
}

#[test]
fn persistent_buffer_is_added_once() {
    let mut builder = BasicRenderGraphBuilder::default();
    let key = BufferHandle::Persistent(BufferKey(77));
    builder.add_buffer_write(BufferOffset { buffer: key, offset: 8 }, 4);
    builder.add_buffer_read(BufferOffset { buffer: key, offset: 0 }, 12);
    builder.add_buffer_write(BufferOffset { buffer: BufferHandle::Persistent(BufferKey(5)), offset: 0 }, 1);
    let graph = builder.build();
    assert_eq!(graph.buffer_resources.len(), 2);
    assert_eq!(graph.buffer_resources[0].description, BufferResourceDescription::Persistent(BufferKey(77)));
    assert_eq!(graph.buffer_resources[1].description, BufferResourceDescription::Persistent(BufferKey(5)));
    assert_eq!(graph.buffer_writes.len(), 2);
    assert_eq!(graph.buffer_writes[0].buffer_offset.buffer, 0);
    assert_eq!(graph.buffer_writes[0].buffer_offset.offset, 8);
    assert_eq!(graph.buffer_writes[0].write_size, 4);
    assert_eq!(graph.buffer_writes[1].buffer_offset.buffer, 1);
    assert_eq!(graph.buffer_reads.len(), 1);
    assert_eq!(graph.buffer_reads[0].buffer_offset.buffer, 0);
    assert_eq!(graph.buffer_reads[0].read_size, 12);
}

#[test]
fn transfer_pass_barriers_chain_previous_accesses() {
    let mut builder = BasicRenderGraphBuilder::new();
    let image = builder.create_transient_image(image_desc());
    let staging = builder.create_transient_buffer(1024, BufferUsage(BufferUsage::TRANSFER), MemoryLocation::CpuToGpu);
    let persistent = ImageHandle::Persistent(ImageKey(3));
    let transfers = [
        Transfer::CopyBufferToImage {
            src: ImageCopyBuffer { buffer: staging, offset: 0, row_length: None, row_height: None },
            dst: ImageCopyImage { image, offset: [0, 0] },
            copy_size: [64, 32],
        },
        Transfer::CopyImageToImage {
            src: ImageCopyImage { image, offset: [0, 0] },
            dst: ImageCopyImage { image: persistent, offset: [1, 2] },
            copy_size: [8, 8],
        },
    ];
    builder.add_transfer_pass("upload".to_string(), RED, QueueType::Graphics, &transfers);
    let graph = builder.build();

    assert_eq!(graph.image_resources.len(), 2);
    assert_eq!(graph.image_resources[1].description, ImageResourceDescription::Persistent(ImageKey(3)));
    let set = &graph.command_buffers[0].render_pass_sets[0];
    assert_eq!(set.memory_barriers.len(), 1);
    assert_eq!(set.memory_barriers[0].src_stage_mask, 0x10000);
    assert_eq!(set.memory_barriers[0].src_access_mask, 0x18000);
    assert!(set.buffer_barriers.is_empty());
    assert_eq!(set.image_barriers.len(), 3);
    assert_eq!(set.image_barriers[0].index, 0);
    assert_eq!(set.image_barriers[0].src, ImageBarrierSource::FirstUsage);
    assert_eq!(set.image_barriers[0].dst, ImageResourceAccess::TransferWrite);
    assert_eq!(set.image_barriers[1].index, 0);
    assert_eq!(set.image_barriers[1].src, ImageBarrierSource::Precalculated(ImageResourceAccess::TransferWrite));
    assert_eq!(set.image_barriers[1].dst, ImageResourceAccess::TransferRead);
    assert_eq!(set.image_barriers[2].index, 1);
    assert_eq!(set.image_barriers[2].src, ImageBarrierSource::FirstUsage);
    assert_eq!(graph.image_resources[0].first_access, Some(ImageResourceAccess::TransferWrite));
    assert_eq!(graph.image_resources[0].last_access, Some(ImageResourceAccess::TransferRead));
    assert_eq!(set.render_passes[0].label_name, "upload");
    assert_eq!(set.render_passes[0].label_color, RED);
    match &set.render_passes[0].command {
        Some(RenderPassCommand::Transfer { transfers }) => {
            assert_eq!(transfers.len(), 2);
            match transfers[1] {
                neptune_vulkan::render_graph::Transfer::ImageToImage { src, dst, copy_size } => {
                    assert_eq!(src.image, 0);
                    assert_eq!(dst.image, 1);
                    assert_eq!(dst.offset, [1, 2]);
                    assert_eq!(copy_size, [8, 8]);
                }
                _ => panic!("expected an image to image copy"),
            }
        }
        _ => panic!("expected a transfer pass"),
    }
}

#[test]
fn later_pass_starts_from_last_access_of_earlier_pass() {
    let mut builder = BasicRenderGraphBuilder::new();
    let image = builder.create_transient_image(image_desc());
    builder.add_compute_pass(
        "write".to_string(),
        RED,
        QueueType::Graphics,
        ComputePipelineHandle(ComputePipelineKey(1)),
        ComputeDispatch::Size([4, 4, 1]),
        &[ShaderResourceUsage::StorageImage { image, write: true }],
    );
    builder.add_compute_pass(
        "read".to_string(),
        RED,
        QueueType::Graphics,
        ComputePipelineHandle(ComputePipelineKey(1)),
        ComputeDispatch::Size([1, 1, 1]),
        &[ShaderResourceUsage::SampledImage(image)],
    );
    let graph = builder.build();
    let sets = &graph.command_buffers[0].render_pass_sets;
    assert_eq!(sets.len(), 2);
    assert_eq!(sets[0].image_barriers[0].src, ImageBarrierSource::FirstUsage);
    assert_eq!(sets[0].image_barriers[0].dst, ImageResourceAccess::StorageWrite);
    assert_eq!(sets[1].image_barriers[0].src, ImageBarrierSource::Precalculated(ImageResourceAccess::StorageWrite));
    assert_eq!(sets[1].image_barriers[0].dst, ImageResourceAccess::SampledRead);
}

#[test]
fn compute_pass_with_indirect_dispatch() {
    let mut builder = BasicRenderGraphBuilder::new();
    let args = BufferHandle::Persistent(BufferKey(11));
    let data = BufferHandle::Persistent(BufferKey(12));
    builder.add_compute_pass(
        "cull".to_string(),
        RED,
        QueueType::PreferAsyncCompute,
        ComputePipelineHandle(ComputePipelineKey(9)),
        ComputeDispatch::Indirect(BufferOffset { buffer: args, offset: 16 }),
        &[ShaderResourceUsage::StorageBuffer { buffer: data, write: false }],
    );
    let graph = builder.build();
    assert_eq!(graph.buffer_resources.len(), 2);
    assert_eq!(graph.buffer_resources[0].description, BufferResourceDescription::Persistent(BufferKey(12)));
    assert_eq!(graph.buffer_resources[1].description, BufferResourceDescription::Persistent(BufferKey(11)));
    match &graph.command_buffers[0].render_pass_sets[0].render_passes[0].command {
        Some(RenderPassCommand::Compute { pipeline, resources, dispatch }) => {
            assert_eq!(*pipeline, ComputePipelineHandle(ComputePipelineKey(9)));
            assert_eq!(resources.len(), 1);
            assert_eq!(
                resources[0],
                neptune_vulkan::render_graph::ShaderResourceUsage::StorageBuffer { buffer: 0, write: false }
            );
            assert_eq!(
                *dispatch,
                neptune_vulkan::render_graph::ComputeDispatch::Indirect(neptune_vulkan::render_graph::BufferOffset {
                    buffer: 1,
                    offset: 16
                })
            );
        }
        _ => panic!("expected a compute pass"),
    }
}

#[test]
fn raster_pass_attachments_then_draws() {
    let mut builder = BasicRenderGraphBuilder::new();
    let color = builder.create_transient_image(image_desc());
    let depth = ImageHandle::Persistent(ImageKey(40));
    let vertices = BufferHandle::Persistent(BufferKey(1));
    let indices = BufferHandle::Persistent(BufferKey(2));
    let draw = RasterDrawCommand {
        pipeline: RasterPipelineHandle(RasterPipleineKey(5)),
        vertex_buffers: vec![BufferOffset { buffer: vertices, offset: 0 }],
        resources: vec![],
        dispatch: DrawCommandDispatch::DrawIndexed {
            base_vertex: -2,
            indices: 0..36,
            instances: 0..1,
            index_buffer: BufferOffset { buffer: indices, offset: 64 },
            index_type: neptune_vulkan::render_graph::IndexType::U16,
        },
    };
    builder.add_raster_pass(
        "draw".to_string(),
        RED,
        &[ColorAttachment { image: color, clear: Some([0, 0, 0, 0x3f80_0000]) }],
        Some(DepthStencilAttachment { image: depth, clear: Some((0x3f80_0000, 0)) }),
        &[draw],
    );
    let graph = builder.build();
    let set = &graph.command_buffers[0].render_pass_sets[0];
    assert_eq!(set.image_barriers.len(), 2);
    assert_eq!(set.image_barriers[0].dst, ImageResourceAccess::AttachmentWrite);
    assert_eq!(set.image_barriers[1].index, 1);
    match &set.render_passes[0].command {
        Some(RenderPassCommand::Raster { framebuffer, draw_commands }) => {
            assert_eq!(framebuffer.color_attachments[0].image, 0);
            assert_eq!(framebuffer.color_attachments[0].clear, Some([0, 0, 0, 0x3f80_0000]));
            assert_eq!(framebuffer.depth_stencil_attachment.unwrap().image, 1);
            assert_eq!(draw_commands.len(), 1);
            assert_eq!(draw_commands[0].vertex_buffers[0].buffer, 0);
            match &draw_commands[0].dispatch {
                neptune_vulkan::render_graph::DrawCommandDispatch::DrawIndexed {
                    base_vertex,
                    indices,
                    index_buffer,
                    ..
                } => {
                    assert_eq!(*base_vertex, -2);
                    assert_eq!(*indices, 0..36);
                    assert_eq!(index_buffer.buffer, 1);
                    assert_eq!(index_buffer.offset, 64);
                }
                _ => panic!("expected an indexed draw"),
            }
        }
        _ => panic!("expected a raster pass"),
    }
}

#[test]
fn build_waits_and_signals_swapchain_images() {
    let mut builder = BasicRenderGraphBuilder::new();
    let surface = SurfaceHandle(SurfaceKey(2));
    let swapchain = builder.acquire_swapchain_image(surface);
    assert_eq!(swapchain, ImageHandle::Transient(0));
    let unused = builder.acquire_swapchain_image(SurfaceHandle(SurfaceKey(3)));
    assert_eq!(unused, ImageHandle::Transient(1));
    builder.add_compute_pass(
        "fill".to_string(),
        RED,
        QueueType::Graphics,
        ComputePipelineHandle(ComputePipelineKey(1)),
        ComputeDispatch::Size([1, 1, 1]),
        &[ShaderResourceUsage::StorageImage { image: swapchain, write: true }],
    );
    builder.add_raster_pass(
        "ui".to_string(),
        RED,
        &[ColorAttachment { image: swapchain, clear: None }],
        None,
        &[],
    );
    let graph = builder.build();
    assert_eq!(graph.swapchain_images, vec![(surface, 0), (SurfaceHandle(SurfaceKey(3)), 1)]);
    assert_eq!(graph.image_resources[0].description, ImageResourceDescription::Swapchain(0));
    assert_eq!(graph.command_buffers.len(), 1);
    let cb = &graph.command_buffers[0];
    assert_eq!(cb.queue, Queue::Graphics);
    assert_eq!(
        cb.command_buffer_wait_dependencies,
        vec![
            CommandBufferDependency::Swapchain { index: 0, access: ImageResourceAccess::StorageWrite },
            CommandBufferDependency::Swapchain { index: 1, access: ImageResourceAccess::Unused },
        ]
    );
    assert_eq!(
        cb.command_buffer_signal_dependencies,
        vec![
            CommandBufferDependency::Swapchain { index: 0, access: ImageResourceAccess::AttachmentWrite },
            CommandBufferDependency::Swapchain { index: 1, access: ImageResourceAccess::Unused },
        ]
    );
    assert_eq!(graph.buffer_writes2.total_write_size, 0);
}

#[test]
fn get_image_index_adds_persistent_image_once() {
    let mut builder = BasicRenderGraphBuilder::new();
    let a = builder.get_image_index(ImageHandle::Persistent(ImageKey(8)));
    let b = builder.get_image_index(ImageHandle::Persistent(ImageKey(9)));
    let c = builder.get_image_index(ImageHandle::Persistent(ImageKey(8)));
    assert_eq!((a, b, c), (0, 1, 0));
}

#[test]
fn new_persistent_image_gets_next_index_after_transient_ones() {
    let mut builder = BasicRenderGraphBuilder::new();
    let t = builder.create_transient_image(image_desc());
    let p = builder.get_image_index(ImageHandle::Persistent(ImageKey(3)));
    assert_eq!(builder.get_image_index(t), 0);
    assert_eq!(p, 1);
    assert_eq!(builder.get_image_index(ImageHandle::Persistent(ImageKey(3))), 1);
}
