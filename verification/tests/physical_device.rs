use neptune_vulkan::device::pick_graphics_present_family;
use neptune_vulkan::physical_device::{
    c_str_to_string, find_queue_index, get_driver_version, sum_memory_heaps, supports_extension, MemoryHeap,
    PhysicalDeviceDriverInfo, PhysicalDeviceExtensionInfo, PhysicalDeviceInfo, PhysicalDeviceMemoryInfo,
    PhysicalDeviceQueueInfo, PhysicalDeviceType, PhysicalDeviceVendor, QUEUE_COMPUTE, QUEUE_GRAPHICS, QUEUE_TRANSFER,
};

fn c_array(text: &str, len: usize) -> Vec<u8> {
    let mut bytes = text.as_bytes().to_vec();
    bytes.resize(len, 0);
    bytes
}

#[test]
fn vendors_from_pci_ids() {
    assert_eq!(PhysicalDeviceVendor::from_vulkan(0x1002), PhysicalDeviceVendor::Amd);
    assert_eq!(PhysicalDeviceVendor::from_vulkan(0x10DE), PhysicalDeviceVendor::Nvidia);
    assert_eq!(PhysicalDeviceVendor::from_vulkan(0x8086), PhysicalDeviceVendor::Intel);
    assert_eq!(PhysicalDeviceVendor::from_vulkan(0x1010), PhysicalDeviceVendor::ImgTec);
    assert_eq!(PhysicalDeviceVendor::from_vulkan(0x13B5), PhysicalDeviceVendor::Arm);
    assert_eq!(PhysicalDeviceVendor::from_vulkan(0x5132), PhysicalDeviceVendor::Qualcomm);
    assert_eq!(PhysicalDeviceVendor::from_vulkan(0x14e4), PhysicalDeviceVendor::Broadcom);
    assert_eq!(PhysicalDeviceVendor::from_vulkan(0x1234), PhysicalDeviceVendor::Unknown { vendor_id: 0x1234 });
}

#[test]
fn device_types() {
    assert_eq!(PhysicalDeviceType::from_vulkan(2), PhysicalDeviceType::Discrete);
    assert_eq!(PhysicalDeviceType::from_vulkan(1), PhysicalDeviceType::Integrated);
    assert_eq!(PhysicalDeviceType::from_vulkan(3), PhysicalDeviceType::Unknown);
    assert_eq!(PhysicalDeviceType::from_vulkan(0), PhysicalDeviceType::Unknown);
}

#[test]
fn nvidia_driver_version() {
    // 535.113.1.0 packed as (535 << 22) | (113 << 14) | (1 << 6) | 0
    let packed = (535u32 << 22) | (113 << 14) | (1 << 6);
    assert_eq!(get_driver_version(packed, PhysicalDeviceVendor::Nvidia, false), "535.113.1.0");
}

#[test]
fn intel_driver_version_on_windows() {
    let packed = (101u32 << 14) | 4255;
    assert_eq!(get_driver_version(packed, PhysicalDeviceVendor::Intel, true), "101.4255");
    assert_eq!(get_driver_version(packed, PhysicalDeviceVendor::Intel, false), "0.405.159");
    assert_eq!(get_driver_version(10_203, PhysicalDeviceVendor::Broadcom, true), "1.2");
}

#[test]
fn broadcom_driver_version() {
    assert_eq!(get_driver_version(10_203, PhysicalDeviceVendor::Broadcom, false), "1.2");
    assert_eq!(get_driver_version(5, PhysicalDeviceVendor::Broadcom, false), "0.0");
}

#[test]
fn imgtec_driver_version() {
    assert_eq!(get_driver_version(1_234_567, PhysicalDeviceVendor::ImgTec, false), "1234567");
    assert_eq!(get_driver_version(500_000_001, PhysicalDeviceVendor::ImgTec, false), "0.0.500000001");
    assert_eq!(get_driver_version(500_000_000, PhysicalDeviceVendor::ImgTec, false), "0.0.500000000");
}

#[test]
fn vulkan_convention_driver_version() {
    let packed = (23u32 << 22) | (1 << 12) | 7;
    assert_eq!(get_driver_version(packed, PhysicalDeviceVendor::Amd, false), "23.1.7");
    assert_eq!(get_driver_version(0, PhysicalDeviceVendor::Unknown { vendor_id: 1 }, false), "0.0.0");
    assert_eq!(get_driver_version(u32::MAX, PhysicalDeviceVendor::Intel, false), "1023.1023.4095");
}

#[test]
fn first_matching_queue_family() {
    let families = [
        QUEUE_GRAPHICS | QUEUE_COMPUTE | QUEUE_TRANSFER,
        QUEUE_COMPUTE | QUEUE_TRANSFER,
        QUEUE_TRANSFER,
        QUEUE_COMPUTE | QUEUE_TRANSFER,
    ];
    assert_eq!(find_queue_index(&families, QUEUE_GRAPHICS | QUEUE_COMPUTE | QUEUE_TRANSFER, 0), Some(0));
    assert_eq!(find_queue_index(&families, QUEUE_COMPUTE | QUEUE_TRANSFER, QUEUE_GRAPHICS), Some(1));
    assert_eq!(find_queue_index(&families, QUEUE_TRANSFER, QUEUE_GRAPHICS | QUEUE_COMPUTE), Some(2));
    assert_eq!(find_queue_index(&families[1..], QUEUE_GRAPHICS, 0), None);
    assert_eq!(find_queue_index(&[], QUEUE_TRANSFER, 0), None);
}

#[test]
fn queue_info_from_families() {
    let queue = PhysicalDeviceQueueInfo::from_queue_families(&[QUEUE_GRAPHICS | QUEUE_COMPUTE | QUEUE_TRANSFER, QUEUE_TRANSFER]);
    assert_eq!(queue.graphics_queue_family_index, Some(0));
    assert_eq!(queue.compute_queue_family_index, None);
    assert_eq!(queue.transfer_queue_family_index, Some(1));
    assert!(queue.supports_graphics());
    assert!(!queue.supports_async_compute());
    assert!(queue.supports_async_transfer());
}

#[test]
fn memory_heap_sums() {
    let heaps = [
        MemoryHeap { size: 8 << 30, flags: 1 },
        MemoryHeap { size: 16 << 30, flags: 0 },
        MemoryHeap { size: 256 << 20, flags: 1 | 2 },
    ];
    assert_eq!(sum_memory_heaps(&heaps, 1, 0), (8usize << 30) + (256 << 20));
    assert_eq!(sum_memory_heaps(&heaps, 0, 1), 16usize << 30);
    assert_eq!(sum_memory_heaps(&heaps, 2, 0), 256usize << 20);
    assert_eq!(sum_memory_heaps(&[], 0, 0), 0);
    let memory = PhysicalDeviceMemoryInfo::from_heaps(&heaps);
    assert_eq!(memory.device_local_bytes, (8usize << 30) + (256 << 20));
    assert_eq!(memory.host_visible_bytes, 16usize << 30);
}

#[test]
fn extension_support() {
    let list = vec![b"VK_KHR_swapchain".to_vec(), b"VK_EXT_mesh_shader".to_vec()];
    assert!(supports_extension(&list, b"VK_KHR_swapchain"));
    assert!(!supports_extension(&list, b"VK_KHR_swap"));
    assert!(!supports_extension(&[], b"VK_KHR_swapchain"));
    let info = PhysicalDeviceExtensionInfo::from_extensions(&list);
    assert!(info.mesh_shader_support);
    assert!(!info.raytracing_support);
    let rt = vec![
        b"VK_KHR_ray_tracing_pipeline".to_vec(),
        b"VK_KHR_acceleration_structure".to_vec(),
    ];
    let info = PhysicalDeviceExtensionInfo::from_extensions(&rt);
    assert!(info.raytracing_support);
    assert!(!info.mesh_shader_support);
    let half = vec![b"VK_KHR_acceleration_structure".to_vec()];
    assert!(!PhysicalDeviceExtensionInfo::from_extensions(&half).raytracing_support);
}

#[test]
fn c_strings() {
    assert_eq!(c_str_to_string(&c_array("NVIDIA GeForce", 32)), "NVIDIA GeForce");
    assert_eq!(c_str_to_string(&[0, b'x', 0]), "");
    assert_eq!(c_str_to_string(&[0xff, b'a', 0, b'b']), "\u{fffd}a");
}

#[test]
fn device_info_from_properties() {
    let api = (0u32 << 29) | (1 << 22) | (3 << 12) | 250;
    let info = PhysicalDeviceInfo::from_properties(&c_array("Test GPU", 256), 0x2204, api, 0x10de, 2);
    assert_eq!(info.name, "Test GPU");
    assert_eq!(info.device_id, 0x2204);
    assert_eq!(info.api_version, [0, 1, 3, 250]);
    assert_eq!(info.vendor, PhysicalDeviceVendor::Nvidia);
    assert_eq!(info.device_type, PhysicalDeviceType::Discrete);
    let driver = PhysicalDeviceDriverInfo::from_properties(
        "NVIDIA_PROPRIETARY".to_string(),
        &c_array("NVIDIA", 256),
        &c_array("535.113.01", 256),
        (535u32 << 22) | (113 << 14) | (1 << 6),
        info.vendor,
        false,
    );
    assert_eq!(driver.id, "NVIDIA_PROPRIETARY");
    assert_eq!(driver.name, "NVIDIA");
    assert_eq!(driver.info, "535.113.01");
    assert_eq!(driver.version, "535.113.1.0");
}

#[test]
fn picks_first_graphics_and_present_family() {
    let families = vec![
        vec![(true, false), (false, true)],
        vec![(false, false), (true, true), (true, true)],
        vec![(true, true)],
    ];
    assert_eq!(pick_graphics_present_family(&families), Some((1, 1)));
    assert_eq!(pick_graphics_present_family(&[vec![(true, false)], vec![]]), None);
    assert_eq!(pick_graphics_present_family(&[]), None);
}
