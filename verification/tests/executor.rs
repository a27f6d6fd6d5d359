use neptune_vulkan::render_graph::{
    BufferBarrier, BufferBarrierSource, BufferOffset, BufferWrite2, BufferWrites, CommandBuffer, CommandBufferDependency,
    ImageBarrier, ImageBarrierSource, DrawCommandDispatch, ImageCopyBuffer,
    ImageCopyImage, IndexType,
};
use neptune_vulkan::render_graph_executor::{
    attachment_load_op, buffer_image_copy_region, choose_semaphores, count_command_buffer_dependencies,
    semaphore_counts, SemaphoreChoice, resolve_buffer_barriers, resolve_image_barriers, mark_staged_targets,
    AcquireAction, AcquireOutcome, FrameState, SwapchainAcquisition,
    draw_call, framebuffer_extent, needs_done_fence, next_frame_index, plan_buffer_writes, swapchain_present_transitions,
    vk_index_type, BufferWritePlan, DrawCall, FramebufferError, HandlePool,
};
use neptune_vulkan::resource_managers::{BufferResourceAccess, BufferTempResource, ImageResourceAccess};
use neptune_vulkan::{SurfaceHandle, SurfaceKey};

fn write(buffer: usize, offset: u64, size: usize) -> BufferWrite2 {
    BufferWrite2 { buffer_offset: BufferOffset { buffer, offset }, write_size: size }
}

fn resources() -> Vec<BufferTempResource> {
    vec![
        BufferTempResource { is_mapped: true, last_access: BufferResourceAccess::Unused },
        BufferTempResource { is_mapped: false, last_access: BufferResourceAccess::Unused },
    ]
}

#[test]
fn buffer_writes_keep_running_total() {
    let mut writes = BufferWrites::new();
    writes.push(write(0, 0, 10));
    writes.push(write(1, 4, 20));
    writes.push(write(1, 100, 5));
    assert_eq!(writes.total_write_size, 35);
    assert_eq!(writes.buffer_writes.len(), 3);
}

#[test]
fn staging_size_counts_unmapped_writes_only() {
    let mut writes = BufferWrites::new();
    writes.push(write(0, 0, 10));
    writes.push(write(1, 4, 20));
    writes.push(write(1, 100, 5));
    assert_eq!(writes.calc_needed_staging_size(&resources()), 25);
    let none = BufferWrites::new();
    assert_eq!(none.calc_needed_staging_size(&resources()), 0);
}

#[test]
fn staged_writes_are_packed_in_order() {
    let writes = vec![write(1, 4, 20), write(0, 8, 10), write(1, 100, 5)];
    let plan = plan_buffer_writes(&writes, &resources());
    assert_eq!(
        plan,
        vec![
            BufferWritePlan::Staged { target: BufferOffset { buffer: 1, offset: 4 }, size: 20, staging_offset: 0 },
            BufferWritePlan::Mapped { buffer: 0, start: 8, end: 18 },
            BufferWritePlan::Staged { target: BufferOffset { buffer: 1, offset: 100 }, size: 5, staging_offset: 20 },
        ]
    );
    let mut all = BufferWrites::new();
    for w in writes {
        all.push(w);
    }
    assert_eq!(all.calc_needed_staging_size(&resources()), 25);
}

#[test]
fn frames_in_flight_rotate() {
    assert_eq!(next_frame_index(0, 3), 1);
    assert_eq!(next_frame_index(1, 3), 2);
    assert_eq!(next_frame_index(2, 3), 0);
    assert_eq!(next_frame_index(0, 1), 0);
    let mut index = 1;
    for _ in 0..3 {
        index = next_frame_index(index, 3);
    }
    assert_eq!(index, 1);
}

#[test]
fn handle_pool_hands_out_in_order_and_reuses_after_reset() {
    let mut pool = HandlePool::new(vec![100, 200]);
    assert!(!pool.is_exhausted());
    assert_eq!(pool.take(), 100);
    assert_eq!(pool.take(), 200);
    assert!(pool.is_exhausted());
    assert_eq!(pool.grow_count(), 2);
    pool.extend(vec![300, 400]);
    assert_eq!(pool.take(), 300);
    assert_eq!(pool.in_use(), &[100, 200, 300]);
    pool.reset();
    assert!(pool.in_use().is_empty());
    assert_eq!(pool.take(), 100);
    assert_eq!(pool.grow_count(), 4);
    let empty = HandlePool::new(vec![]);
    assert!(empty.is_exhausted());
    assert_eq!(empty.grow_count(), 2);
}

#[test]
fn framebuffer_extent_cases() {
    assert_eq!(framebuffer_extent(&[[800, 600], [800, 600]], Some([800, 600])), Ok([800, 600]));
    assert_eq!(framebuffer_extent(&[], Some([16, 16])), Ok([16, 16]));
    assert_eq!(framebuffer_extent(&[[800, 600], [800, 601]], None), Err(FramebufferError::ColorExtentMismatch));
    assert_eq!(framebuffer_extent(&[[800, 600]], Some([1, 1])), Err(FramebufferError::DepthExtentMismatch));
    assert_eq!(framebuffer_extent(&[], None), Err(FramebufferError::NoAttachments));
}

#[test]
fn load_op_and_index_type() {
    assert_eq!(attachment_load_op(true), 1);
    assert_eq!(attachment_load_op(false), 0);
    assert_eq!(vk_index_type(IndexType::U16), 0);
    assert_eq!(vk_index_type(IndexType::U32), 1);
}

#[test]
fn draw_calls_from_dispatches() {
    assert_eq!(
        draw_call(&DrawCommandDispatch::Draw { vertices: 3..9, instances: 0..2 }),
        DrawCall::Draw { vertex_count: 6, instance_count: 2, first_vertex: 3, first_instance: 0 }
    );
    assert_eq!(
        draw_call(&DrawCommandDispatch::Draw { vertices: 9..3, instances: 1..1 }),
        DrawCall::Draw { vertex_count: 0, instance_count: 0, first_vertex: 9, first_instance: 1 }
    );
    let index_buffer = BufferOffset { buffer: 2, offset: 16 };
    assert_eq!(
        draw_call(&DrawCommandDispatch::DrawIndexed {
            base_vertex: -4,
            indices: 10..40,
            instances: 5..7,
            index_buffer,
            index_type: IndexType::U32,
        }),
        DrawCall::DrawIndexed {
            index_buffer,
            index_type: 1,
            index_count: 30,
            instance_count: 2,
            first_index: 10,
            vertex_offset: -4,
            first_instance: 5,
        }
    );
    let indirect = BufferOffset { buffer: 3, offset: 0 };
    assert_eq!(
        draw_call(&DrawCommandDispatch::DrawIndirect { indirect_buffer: indirect, draw_count: 7, stride: 16 }),
        DrawCall::DrawIndirect { buffer: indirect, draw_count: 7, stride: 16 }
    );
    assert_eq!(
        draw_call(&DrawCommandDispatch::DrawIndirectIndexed {
            indirect_buffer: indirect,
            draw_count: 2,
            stride: 20,
            index_buffer,
            index_type: IndexType::U16,
        }),
        DrawCall::DrawIndexedIndirect { index_buffer, index_type: 0, buffer: indirect, draw_count: 2, stride: 20 }
    );
}

#[test]
fn copy_region_defaults_to_tight_packing() {
    let region = buffer_image_copy_region(
        &ImageCopyBuffer { buffer: 0, offset: 128, row_length: None, row_height: Some(8) },
        &ImageCopyImage { image: 1, offset: [4, 5] },
        [16, 8],
    );
    assert_eq!(region.buffer_offset, 128);
    assert_eq!(region.buffer_row_length, 0);
    assert_eq!(region.buffer_image_height, 8);
    assert_eq!(region.image_offset, [4, 5, 0]);
    assert_eq!(region.image_extent, [16, 8, 1]);
}

fn cb_dependency() -> CommandBufferDependency {
    CommandBufferDependency::CommandBuffer {
        command_buffer_index: 0,
        dependency_index: 0,
        stage_mask: 1,
        buffer_ownership_transfer: vec![],
        image_ownership_transfer: vec![],
    }
}

#[test]
fn submission_decisions() {
    let signals = vec![
        CommandBufferDependency::Swapchain { index: 1, access: ImageResourceAccess::AttachmentWrite },
        cb_dependency(),
        CommandBufferDependency::Swapchain { index: 0, access: ImageResourceAccess::TransferWrite },
    ];
    assert_eq!(count_command_buffer_dependencies(&signals), 1);
    assert!(!needs_done_fence(&signals));
    assert_eq!(
        swapchain_present_transitions(&signals),
        vec![(1, ImageResourceAccess::AttachmentWrite), (0, ImageResourceAccess::TransferWrite)]
    );
    let only_swapchain = vec![CommandBufferDependency::Swapchain { index: 0, access: ImageResourceAccess::Unused }];
    assert!(needs_done_fence(&only_swapchain));
    assert!(needs_done_fence(&[]));
}

#[test]
fn frame_index_wraps_from_any_start() {
    assert_eq!(next_frame_index(5, 3), 0);
    assert_eq!(next_frame_index(7, 3), 2);
}

#[test]
fn default_buffer_writes_start_empty() {
    let mut writes = BufferWrites::default();
    assert_eq!(writes.total_write_size, 0);
    assert!(writes.buffer_writes.is_empty());
    writes.push(write(0, 0, 12));
    assert_eq!(writes.total_write_size, 12);
}

#[test]
fn semaphores_for_waits_and_signals() {
    let deps = vec![
        CommandBufferDependency::Swapchain { index: 2, access: ImageResourceAccess::AttachmentWrite },
        CommandBufferDependency::CommandBuffer {
            command_buffer_index: 1,
            dependency_index: 3,
            stage_mask: 64,
            buffer_ownership_transfer: vec![],
            image_ownership_transfer: vec![],
        },
    ];
    assert_eq!(
        choose_semaphores(&deps, false),
        vec![
            SemaphoreChoice::ImageReady { index: 2, access: ImageResourceAccess::AttachmentWrite },
            SemaphoreChoice::CommandBuffer { command_buffer_index: 1, dependency_index: 3, stage_mask: 64 },
        ]
    );
    assert_eq!(
        choose_semaphores(&deps, true),
        vec![
            SemaphoreChoice::PresentReady { index: 2, access: ImageResourceAccess::AttachmentWrite },
            SemaphoreChoice::CommandBuffer { command_buffer_index: 1, dependency_index: 3, stage_mask: 64 },
        ]
    );
    assert!(choose_semaphores(&[], true).is_empty());
}

#[test]
fn one_semaphore_per_signal_dependency() {
    let mut first = CommandBuffer::new();
    first.command_buffer_signal_dependencies.push(cb_dependency());
    first.command_buffer_signal_dependencies.push(cb_dependency());
    let second = CommandBuffer::new();
    assert_eq!(semaphore_counts(&[first, second]), vec![2, 0]);
}

#[test]
fn barrier_sources_resolve_first_use_to_last_access() {
    let buffers = vec![
        BufferTempResource { is_mapped: true, last_access: BufferResourceAccess::Unused },
        BufferTempResource { is_mapped: false, last_access: BufferResourceAccess::IndirectRead },
    ];
    let barriers = [
        BufferBarrier { index: 1, src: BufferBarrierSource::FirstUsage, dst: BufferResourceAccess::TransferWrite },
        BufferBarrier {
            index: 0,
            src: BufferBarrierSource::Precalculated(BufferResourceAccess::StorageWrite),
            dst: BufferResourceAccess::VertexRead,
        },
    ];
    assert_eq!(
        resolve_buffer_barriers(&barriers, &buffers),
        vec![
            (1, BufferResourceAccess::IndirectRead, BufferResourceAccess::TransferWrite),
            (0, BufferResourceAccess::StorageWrite, BufferResourceAccess::VertexRead),
        ]
    );
    let last = [ImageResourceAccess::AttachmentWrite, ImageResourceAccess::Unused];
    let image_barriers = [
        ImageBarrier { index: 0, src: ImageBarrierSource::FirstUsage, dst: ImageResourceAccess::SampledRead },
        ImageBarrier {
            index: 1,
            src: ImageBarrierSource::Precalculated(ImageResourceAccess::TransferWrite),
            dst: ImageResourceAccess::StorageRead,
        },
    ];
    assert_eq!(
        resolve_image_barriers(&image_barriers, &last),
        vec![
            (0, ImageResourceAccess::AttachmentWrite, ImageResourceAccess::SampledRead),
            (1, ImageResourceAccess::TransferWrite, ImageResourceAccess::StorageRead),
        ]
    );
}

#[test]
fn frame_state_uses_contexts_in_turn() {
    let mut state = FrameState::new(3);
    assert_eq!(state.frame_index(), 0);
    assert_eq!(state.begin_frame(), 1);
    assert_eq!(state.begin_frame(), 2);
    assert_eq!(state.begin_frame(), 0);
    assert_eq!(state.frame_index(), 0);
    assert_eq!(state.frame_count(), 3);
    let mut single = FrameState::new(1);
    assert_eq!(single.begin_frame(), 0);
}

#[test]
fn swapchain_acquisition_rebuilds_until_acquired() {
    let a = SurfaceHandle(SurfaceKey(11));
    let b = SurfaceHandle(SurfaceKey(12));
    let mut acquisition = SwapchainAcquisition::new(vec![a, b]);
    assert_eq!(acquisition.next_action(), AcquireAction::Acquire { surface: a });
    assert_eq!(acquisition.on_outcome(AcquireOutcome::OutOfDate), AcquireAction::Rebuild { surface: a });
    assert_eq!(acquisition.next_action(), AcquireAction::Acquire { surface: a });
    assert_eq!(
        acquisition.on_outcome(AcquireOutcome::Acquired { image_index: 2, suboptimal: false }),
        AcquireAction::Acquire { surface: b }
    );
    assert_eq!(
        acquisition.on_outcome(AcquireOutcome::Acquired { image_index: 0, suboptimal: true }),
        AcquireAction::Done
    );
    assert_eq!(acquisition.into_acquired(), vec![2, 0]);
    assert_eq!(SwapchainAcquisition::new(vec![]).next_action(), AcquireAction::Done);
}

#[test]
fn staged_copy_targets_become_transfer_written() {
    let mut buffers = vec![
        BufferTempResource { is_mapped: true, last_access: BufferResourceAccess::StorageRead },
        BufferTempResource { is_mapped: false, last_access: BufferResourceAccess::VertexRead },
        BufferTempResource { is_mapped: false, last_access: BufferResourceAccess::IndexRead },
    ];
    let plan = vec![
        BufferWritePlan::Mapped { buffer: 0, start: 0, end: 4 },
        BufferWritePlan::Staged { target: BufferOffset { buffer: 2, offset: 8 }, size: 4, staging_offset: 0 },
    ];
    mark_staged_targets(&mut buffers, &plan);
    assert_eq!(buffers[0].last_access, BufferResourceAccess::StorageRead);
    assert_eq!(buffers[1].last_access, BufferResourceAccess::VertexRead);
    assert_eq!(buffers[2], BufferTempResource { is_mapped: false, last_access: BufferResourceAccess::TransferWrite });
}
