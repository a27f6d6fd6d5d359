use neptune_vulkan::buffer::{BufferUsage, MemoryLocation};
use neptune_vulkan::descriptor_set_manager::{
    layout_bindings, BufferDescriptor, DescriptorCount, DescriptorInfo, DescriptorSetManager, DescriptorWrite,
    ImageDescriptor, LayoutBinding, WHOLE_SIZE,
};
use neptune_vulkan::image::{
    vk_format_get_aspect_flags, AshImage, TransientImageDesc, TransientImageSize, VK_FORMAT_D24_UNORM_S8_UINT,
    VK_FORMAT_D32_SFLOAT, VK_FORMAT_S8_UINT,
};
use neptune_vulkan::render_graph::{QueueType, RenderPassCommand};
use neptune_vulkan::render_graph_builder::{BufferOffset, ImageCopyBuffer, ImageCopyImage, Transfer};
use neptune_vulkan::resource_managers::{BufferResourceAccess, ImageResourceAccess};
use neptune_vulkan::resource_set::ResourceSetManager;
use neptune_vulkan::sampler::{AddressMode, BorderColor, FilterMode, SamplerDescription, LOD_CLAMP_NONE_BITS};
use neptune_vulkan::texture::{get_vk_texture_2d_usage, is_color_format, texture_view_aspect, TextureUsage};
use neptune_vulkan::transfer_queue::TransferQueue;
use neptune_vulkan::upload_queue::{UploadQueue, UPLOAD_LABEL_COLOR};
use neptune_vulkan::{
    buffer_handle_to_key, image_handle_to_key, BufferHandle, BufferKey, BufferSetKey, ImageHandle, ImageKey,
};

#[test]
fn buffer_set_creation_hands_out_the_null_key() {
    let mut manager = ResourceSetManager::default();
    let key = manager.create_buffer_set("lights", 16).unwrap();
    assert_eq!(key, BufferSetKey(0x1_ffff_ffff));
    assert_eq!(key, BufferSetKey::default());
    manager.update_buffer_set(key, 0, Some(BufferKey(3)));
    manager.destroy_buffer_set(key);
}

#[test]
fn handles_to_keys() {
    assert_eq!(buffer_handle_to_key(BufferHandle::Persistent(BufferKey(12))), BufferKey(12));
    assert_eq!(image_handle_to_key(ImageHandle::Persistent(ImageKey(4))), ImageKey(4));
    assert_eq!(BufferHandle::Persistent(BufferKey(1)).as_key(), BufferKey(1));
    assert_eq!(ImageHandle::Persistent(ImageKey(2)).as_key(), ImageKey(2));
}

#[test]
fn upload_queue_collects_one_pass() {
    let mut queue = UploadQueue::default();
    assert!(queue.get_pass().is_none());
    queue.add_buffer_upload(
        BufferOffset { buffer: BufferHandle::Persistent(BufferKey(1)), offset: 0 },
        BufferOffset { buffer: BufferHandle::Persistent(BufferKey(2)), offset: 64 },
        32,
    );
    queue.add_image_upload(
        ImageCopyBuffer { buffer: BufferHandle::Persistent(BufferKey(1)), offset: 32, row_length: None, row_height: None },
        ImageCopyImage { image: ImageHandle::Persistent(ImageKey(9)), offset: [0, 0] },
        [4, 4],
    );
    let upload = queue.get_pass().unwrap();
    assert_eq!(upload.buffer_resources.len(), 3);
    assert_eq!(upload.buffer_resources[1].last_access, BufferResourceAccess::TransferWrite);
    assert_eq!(upload.image_resources.len(), 1);
    assert_eq!(upload.image_resources[0].last_access, Some(ImageResourceAccess::TransferWrite));
    assert_eq!(upload.pass.label_name, "Device Upload Pass");
    assert_eq!(upload.pass.label_color, UPLOAD_LABEL_COLOR);
    assert_eq!(upload.pass.queue, QueueType::Graphics);
    assert_eq!(
        upload.pass.buffer_access,
        vec![
            (0, BufferResourceAccess::TransferRead),
            (1, BufferResourceAccess::TransferWrite),
            (2, BufferResourceAccess::TransferRead)
        ]
    );
    assert_eq!(upload.pass.image_access, vec![(0, ImageResourceAccess::TransferWrite)]);
    match &upload.pass.command {
        Some(RenderPassCommand::Transfer { transfers }) => {
            assert_eq!(transfers.len(), 2);
            assert_eq!(
                transfers[0],
                neptune_vulkan::render_graph::Transfer::BufferToBuffer {
                    src: neptune_vulkan::render_graph::BufferOffset { buffer: 0, offset: 0 },
                    dst: neptune_vulkan::render_graph::BufferOffset { buffer: 1, offset: 64 },
                    copy_size: 32,
                }
            );
        }
        _ => panic!("expected a transfer pass"),
    }
    assert!(queue.get_pass().is_none());
}

#[test]
fn transfer_queue_rotates_frames_per_batch() {
    let mut queue = TransferQueue::new(2);
    assert!(queue.submit_transfers().is_none());
    let copy = Transfer::CopyBufferToBuffer {
        src: BufferOffset { buffer: BufferHandle::Persistent(BufferKey(1)), offset: 0 },
        dst: BufferOffset { buffer: BufferHandle::Persistent(BufferKey(2)), offset: 0 },
        copy_size: 8,
    };
    queue.add_transfer(copy);
    queue.add_transfer(copy);
    let (frame, transfers) = queue.submit_transfers().unwrap();
    assert_eq!(frame, 1);
    assert_eq!(transfers, vec![copy, copy]);
    assert!(queue.submit_transfers().is_none());
    queue.add_transfer(copy);
    let (frame, transfers) = queue.submit_transfers().unwrap();
    assert_eq!(frame, 0);
    assert_eq!(transfers.len(), 1);
}

#[test]
fn aspect_flags_of_formats() {
    assert_eq!(vk_format_get_aspect_flags(VK_FORMAT_D32_SFLOAT), 2);
    assert_eq!(vk_format_get_aspect_flags(VK_FORMAT_S8_UINT), 4);
    assert_eq!(vk_format_get_aspect_flags(VK_FORMAT_D24_UNORM_S8_UINT), 6);
    assert_eq!(vk_format_get_aspect_flags(37), 1);
    let image = AshImage {
        handle: 1,
        view: 2,
        size: [4, 4],
        format: VK_FORMAT_D32_SFLOAT,
        usage: 0,
        location: MemoryLocation::GpuOnly,
        storage_binding: None,
        sampled_binding: None,
    };
    assert!(!image.is_color());
    assert_eq!(image.get_aspect_flags(), 2);
}

#[test]
fn transient_image_description() {
    let desc = TransientImageDesc {
        size: TransientImageSize::Exact([10, 20]),
        format: 44,
        usage: 0x4,
        mip_levels: 3,
        memory_location: MemoryLocation::GpuOnly,
    };
    let resolved = desc.to_image_description([30, 40]);
    assert_eq!(resolved.size, [30, 40]);
    assert_eq!(resolved.format, 44);
    assert_eq!(resolved.mip_levels, 3);
}

#[test]
fn texture_usage_flags() {
    assert!(is_color_format(37));
    assert!(!is_color_format(VK_FORMAT_D32_SFLOAT));
    assert_eq!(get_vk_texture_2d_usage(TextureUsage(TextureUsage::SAMPLED), 37), 0x1 | 0x2 | 0x4);
    assert_eq!(
        get_vk_texture_2d_usage(TextureUsage(TextureUsage::ATTACHMENT | TextureUsage::STORAGE), 37),
        0x1 | 0x2 | 0x10 | 0x8
    );
    assert_eq!(get_vk_texture_2d_usage(TextureUsage(TextureUsage::ATTACHMENT), VK_FORMAT_D32_SFLOAT), 0x1 | 0x2 | 0x20);
    assert_eq!(texture_view_aspect(37), 1);
    assert_eq!(texture_view_aspect(VK_FORMAT_D32_SFLOAT), 2);
}

#[test]
fn buffer_usage_to_vulkan() {
    let usage = BufferUsage(BufferUsage::VERTEX | BufferUsage::TRANSFER);
    assert!(usage.contains(BufferUsage::VERTEX));
    assert!(!usage.contains(BufferUsage::INDEX));
    assert_eq!(usage.to_vk(), 0x80 | 0x1 | 0x2);
    assert_eq!(BufferUsage(0).to_vk(), 0);
    assert_eq!(BufferUsage(BufferUsage::STORAGE | BufferUsage::INDIRECT).to_vk(), 0x20 | 0x100);
}

#[test]
fn sampler_create_info() {
    let default = SamplerDescription::default().to_vk();
    assert_eq!(default.address_mode_u, 0);
    assert_eq!(default.min_lod, 0);
    assert_eq!(default.max_lod, LOD_CLAMP_NONE_BITS);
    assert_eq!(LOD_CLAMP_NONE_BITS, 1000.0f32.to_bits());
    assert!(!default.anisotropy_enable);
    assert_eq!(default.max_anisotropy, 0);
    let desc = SamplerDescription {
        address_mode_u: AddressMode::ClampToBorder,
        address_mode_v: AddressMode::MirroredRepeat,
        address_mode_w: AddressMode::ClampToEdge,
        mag_filter: FilterMode::Linear,
        min_filter: FilterMode::Nearest,
        mip_filter: FilterMode::Linear,
        lod_clamp_range: Some((0.5f32.to_bits(), 4.0f32.to_bits())),
        anisotropy_clamp: Some(16.0f32.to_bits()),
        border_color: BorderColor::OpaqueWhite,
        unnormalized_coordinates: true,
    };
    let info = desc.to_vk();
    assert_eq!((info.address_mode_u, info.address_mode_v, info.address_mode_w), (3, 1, 2));
    assert_eq!((info.mag_filter, info.min_filter, info.mipmap_mode), (1, 0, 1));
    assert_eq!(info.min_lod, 0.5f32.to_bits());
    assert_eq!(info.max_lod, 4.0f32.to_bits());
    assert!(info.anisotropy_enable);
    assert_eq!(info.max_anisotropy, 16.0f32.to_bits());
    assert_eq!(info.border_color, 4);
    assert!(info.unnormalized_coordinates);
}

#[test]
fn descriptor_set_manager_commits_in_binding_order() {
    let counts = DescriptorCount { storage_buffer: 8, storage_image: 8, sampled_image: 8, sampler: 0, acceleration_structure: 0 };
    let mut manager = DescriptorSetManager::new(&counts);
    let image = manager.bind_sampled_image(0xaa, 5);
    let buffer = manager.bind_storage_buffer(0xbb, 256);
    let storage = manager.bind_storage_image(0xcc, 1);
    assert_eq!((image, buffer, storage), (0, 0, 0));
    manager.unbind_storage_buffer(buffer);
    let writes = manager.commit_changes();
    assert_eq!(
        writes,
        vec![
            DescriptorWrite {
                binding: 0,
                array_element: 0,
                descriptor_type: 7,
                info: DescriptorInfo::Buffer(BufferDescriptor { buffer: 0xbb, offset: 0, range: 256 }),
            },
            DescriptorWrite {
                binding: 0,
                array_element: 0,
                descriptor_type: 7,
                info: DescriptorInfo::Buffer(BufferDescriptor { buffer: 0, offset: 0, range: WHOLE_SIZE }),
            },
            DescriptorWrite {
                binding: 1,
                array_element: 0,
                descriptor_type: 3,
                info: DescriptorInfo::Image(ImageDescriptor { image_view: 0xcc, image_layout: 1 }),
            },
            DescriptorWrite {
                binding: 2,
                array_element: 0,
                descriptor_type: 2,
                info: DescriptorInfo::Image(ImageDescriptor { image_view: 0xaa, image_layout: 5 }),
            },
        ]
    );
    assert!(manager.commit_changes().is_empty());
    assert_eq!(manager.bind_storage_buffer(0xdd, 16), 0);
    assert_eq!(manager.bind_storage_buffer(0xee, 16), 1);
}

#[test]
fn layout_bindings_skip_empty_arrays() {
    let counts = DescriptorCount { storage_buffer: 4, storage_image: 0, sampled_image: 2, sampler: 1, acceleration_structure: 0 };
    assert_eq!(
        layout_bindings(&counts),
        vec![
            LayoutBinding { binding: 0, descriptor_type: 7, count: 4 },
            LayoutBinding { binding: 2, descriptor_type: 2, count: 2 },
            LayoutBinding { binding: 3, descriptor_type: 0, count: 1 },
        ]
    );
}
