use neptune_vulkan::pipeline::{
    depth_stencil_config, raster_fixed_state, vertex_input_descriptions, ColorBlendAttachment, FramebufferDesc,
    RasterPipelineDescription, VertexAttribute, VertexBufferLayout, VertexInputAttribute, VertexInputBinding,
    VertexState, COMPARE_OP_LESS,
};
use neptune_vulkan::render_graph::{IndexType, QueueType};
use neptune_vulkan::render_graph_builder_trait::{
    BufferOffset, ComputeDispatch, ComputePassBuilder, DrawCommandDispatch, RasterDrawCommandBuilder,
    RasterPassBuilder, ShaderResourceUsage, Transfer, TransferPassBuilder, GREEN_LABEL_COLOR, TRANSFER_LABEL_COLOR,
};
use neptune_vulkan::swapchain::{swapchain_extent_transform_count, SurfaceCapabilities, SurfaceSettings};
use neptune_vulkan::{
    BufferHandle, BufferKey, ComputePipelineHandle, ComputePipelineKey, ImageHandle, ImageKey, RasterPipelineHandle,
    RasterPipleineKey, SamplerHandle, SamplerKey,
};

#[test]
fn draw_command_builder_collects_in_order() {
    let mut builder = RasterDrawCommandBuilder::new(RasterPipelineHandle(RasterPipleineKey(3)));
    let vb = BufferOffset { buffer: BufferHandle::Persistent(BufferKey(1)), offset: 0 };
    builder.add_vertex_buffer(vb);
    builder.read_buffer(BufferHandle::Persistent(BufferKey(2)));
    builder.write_buffer(BufferHandle::Transient(0));
    builder.read_storage_image(ImageHandle::Persistent(ImageKey(1)));
    builder.write_storage_image(ImageHandle::Transient(2));
    builder.read_sampled_image(ImageHandle::Persistent(ImageKey(5)));
    builder.read_sampler(SamplerHandle(SamplerKey(6)));
    builder.draw(0..3, 0..1);
    let command = builder.build();
    assert_eq!(command.pipeline, RasterPipelineHandle(RasterPipleineKey(3)));
    assert_eq!(command.vertex_buffers, vec![vb]);
    assert_eq!(
        command.resources,
        vec![
            ShaderResourceUsage::StorageBuffer { buffer: BufferHandle::Persistent(BufferKey(2)), write: false },
            ShaderResourceUsage::StorageBuffer { buffer: BufferHandle::Transient(0), write: true },
            ShaderResourceUsage::StorageImage { image: ImageHandle::Persistent(ImageKey(1)), write: false },
            ShaderResourceUsage::StorageImage { image: ImageHandle::Transient(2), write: true },
            ShaderResourceUsage::SampledImage(ImageHandle::Persistent(ImageKey(5))),
            ShaderResourceUsage::Sampler(SamplerHandle(SamplerKey(6))),
        ]
    );
    assert_eq!(command.dispatch, DrawCommandDispatch::Draw { vertices: 0..3, instances: 0..1 });
}

#[test]
fn draw_command_last_dispatch_wins() {
    let ib = BufferOffset { buffer: BufferHandle::Persistent(BufferKey(7)), offset: 4 };
    let mut builder = RasterDrawCommandBuilder::new(RasterPipelineHandle(RasterPipleineKey(0)));
    builder.draw(0..3, 0..1);
    builder.draw_indexed(1, 0..6, 0..2, ib, IndexType::U32);
    assert_eq!(
        builder.build().dispatch,
        DrawCommandDispatch::DrawIndexed { base_vertex: 1, indices: 0..6, instances: 0..2, index_buffer: ib, index_type: IndexType::U32 }
    );
    let mut builder = RasterDrawCommandBuilder::new(RasterPipelineHandle(RasterPipleineKey(0)));
    builder.draw_indirect(ib, 3, 16);
    assert_eq!(builder.build().dispatch, DrawCommandDispatch::DrawIndirect { indirect_buffer: ib, draw_count: 3, stride: 16 });
    let mut builder = RasterDrawCommandBuilder::new(RasterPipelineHandle(RasterPipleineKey(0)));
    builder.draw_indirect_indexed(ib, 2, 20, ib, IndexType::U16);
    assert_eq!(
        builder.build().dispatch,
        DrawCommandDispatch::DrawIndirectIndexed {
            indirect_buffer: ib,
            draw_count: 2,
            stride: 20,
            index_buffer: ib,
            index_type: IndexType::U16
        }
    );
}

#[test]
fn transfer_pass_builder_defaults_and_copies() {
    let mut pass = TransferPassBuilder::new("copies", QueueType::PreferAsyncTransfer);
    assert_eq!(pass.name, "copies");
    assert_eq!(pass.color, TRANSFER_LABEL_COLOR);
    assert_eq!(TRANSFER_LABEL_COLOR, [1.0f32.to_bits(), 0, 0, 1.0f32.to_bits()]);
    let a = BufferOffset { buffer: BufferHandle::Persistent(BufferKey(1)), offset: 0 };
    let b = BufferOffset { buffer: BufferHandle::Persistent(BufferKey(2)), offset: 8 };
    pass.copy_buffer_to_buffer(a, b, 128);
    pass.override_label_color([1, 2, 3, 4]);
    assert_eq!(pass.transfers, vec![Transfer::CopyBufferToBuffer { src: a, dst: b, copy_size: 128 }]);
    assert_eq!(pass.color, [1, 2, 3, 4]);
}

#[test]
fn compute_pass_builder_defaults_to_one_workgroup() {
    let mut pass = ComputePassBuilder::new("cull", QueueType::Graphics, ComputePipelineHandle(ComputePipelineKey(4)));
    assert_eq!(pass.dispatch, ComputeDispatch::Size([1, 1, 1]));
    assert_eq!(pass.color, GREEN_LABEL_COLOR);
    assert_eq!(GREEN_LABEL_COLOR, [0, 1.0f32.to_bits(), 0, 1.0f32.to_bits()]);
    pass.dispatch_size([8, 8, 1]);
    assert_eq!(pass.dispatch, ComputeDispatch::Size([8, 8, 1]));
    pass.dispatch_indirect(BufferHandle::Persistent(BufferKey(3)), 12);
    assert_eq!(
        pass.dispatch,
        ComputeDispatch::Indirect(BufferOffset { buffer: BufferHandle::Persistent(BufferKey(3)), offset: 12 })
    );
    pass.read_buffer(BufferHandle::Transient(1));
    pass.write_storage_image(ImageHandle::Transient(0));
    assert_eq!(pass.resources.len(), 2);
}

#[test]
fn raster_pass_builder_attachments() {
    let mut pass = RasterPassBuilder::new("main");
    pass.add_color_attachment(ImageHandle::Transient(0), None);
    pass.add_depth_stencil_attachment(ImageHandle::Transient(1), Some((1.0f32.to_bits(), 0)));
    assert_eq!(pass.framebuffer.color_attachments.len(), 1);
    assert_eq!(pass.framebuffer.depth_stencil_attachment.unwrap().image, ImageHandle::Transient(1));
    let mut draw = RasterDrawCommandBuilder::new(RasterPipelineHandle(RasterPipleineKey(1)));
    draw.draw(0..3, 0..1);
    pass.add_draw_command(draw.build());
    assert_eq!(pass.draw_commands.len(), 1);
}

#[test]
fn swapchain_size_is_clamped_to_surface() {
    let capabilities = SurfaceCapabilities {
        min_image_count: 2,
        max_image_count: 8,
        min_image_extent: [1, 1],
        max_image_extent: [1920, 1080],
        current_transform: 1,
    };
    let settings = SurfaceSettings { image_count: 3, format: 44, color_space: 0, size: [4000, 720], usage: 0x10, present_mode: 2 };
    assert_eq!(swapchain_extent_transform_count(&settings, &capabilities), ([1920, 720], 1, 3));
    let small = SurfaceSettings { image_count: 1, size: [0, 0], ..settings };
    assert_eq!(swapchain_extent_transform_count(&small, &capabilities), ([1, 1], 1, 2));
    let many = SurfaceSettings { image_count: 20, ..settings };
    assert_eq!(swapchain_extent_transform_count(&many, &capabilities).2, 8);
}

#[test]
fn vertex_inputs_are_numbered_by_buffer() {
    let layouts = vec![
        VertexBufferLayout {
            stride: 24,
            input_rate: 0,
            attributes: vec![
                VertexAttribute { shader_location: 0, format: 106, offset: 0 },
                VertexAttribute { shader_location: 1, format: 106, offset: 12 },
            ],
        },
        VertexBufferLayout { stride: 8, input_rate: 1, attributes: vec![VertexAttribute { shader_location: 2, format: 103, offset: 0 }] },
    ];
    let (bindings, attributes) = vertex_input_descriptions(&layouts);
    assert_eq!(
        bindings,
        vec![
            VertexInputBinding { binding: 0, stride: 24, input_rate: 0 },
            VertexInputBinding { binding: 1, stride: 8, input_rate: 1 },
        ]
    );
    assert_eq!(
        attributes,
        vec![
            VertexInputAttribute { binding: 0, location: 0, format: 106, offset: 0 },
            VertexInputAttribute { binding: 0, location: 1, format: 106, offset: 12 },
            VertexInputAttribute { binding: 1, location: 2, format: 103, offset: 0 },
        ]
    );
    let (none, no_attributes) = vertex_input_descriptions(&[]);
    assert!(none.is_empty() && no_attributes.is_empty());
}

#[test]
fn depth_test_follows_depth_attachment() {
    let with_depth = FramebufferDesc { color_attachments: vec![44], depth_attachment: Some(126), stencil_attachment: None };
    let config = depth_stencil_config(&with_depth);
    assert!(config.depth_test_enable && config.depth_write_enable);
    assert_eq!(config.depth_compare_op, COMPARE_OP_LESS);
    assert!(!config.stencil_test_enable);
    let color_only = FramebufferDesc { color_attachments: vec![44], depth_attachment: None, stencil_attachment: Some(127) };
    let config = depth_stencil_config(&color_only);
    assert!(!config.depth_test_enable && !config.depth_write_enable && !config.stencil_test_enable);
}

#[test]
fn raster_pipeline_fixed_state() {
    let desc = RasterPipelineDescription {
        vertex: VertexState { shader_code: vec![0x0723_0203], layouts: vec![] },
        framebuffer: FramebufferDesc { color_attachments: vec![37, 44], depth_attachment: Some(126), stencil_attachment: None },
        fragment_shader: Some(vec![0x0723_0203]),
    };
    let state = raster_fixed_state(&desc);
    assert_eq!(state.topology, 3);
    assert!(!state.primitive_restart_enable);
    assert_eq!(state.shader_stages, vec![0x1, 0x10]);
    assert_eq!((state.polygon_mode, state.cull_mode, state.front_face), (0, 0, 0));
    assert_eq!(state.rasterization_samples, 1);
    assert_eq!(
        state.color_blend_attachments,
        vec![ColorBlendAttachment { color_write_mask: 0xf, blend_enable: false }; 2]
    );
    assert_eq!(state.dynamic_states, vec![0, 1]);

    let vertex_only = RasterPipelineDescription {
        vertex: VertexState { shader_code: vec![], layouts: vec![] },
        framebuffer: FramebufferDesc { color_attachments: vec![], depth_attachment: None, stencil_attachment: None },
        fragment_shader: None,
    };
    let state = raster_fixed_state(&vertex_only);
    assert_eq!(state.shader_stages, vec![0x1]);
    assert!(state.color_blend_attachments.is_empty());
}
