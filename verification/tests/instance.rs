use neptune_vulkan::instance::{
    app_version, instance_extension_names, instance_layer_names, select_physical_device_index, AppInfo,
};

#[test]
fn app_info_and_packed_version() {
    let info = AppInfo::new("Saturn Editor", [0, 1, 2, 3]);
    assert_eq!(info.name, "Saturn Editor");
    assert_eq!((info.variant_version, info.major_version, info.minor_version, info.patch_version), (0, 1, 2, 3));
    assert_eq!(app_version(&info), (1 << 22) | (2 << 12) | 3);
    assert_eq!(app_version(&AppInfo::new("x", [1, 0, 0, 0])), 1 << 29);
}

#[test]
fn layers_only_when_debugging() {
    assert!(instance_layer_names(false).is_empty());
    assert_eq!(instance_layer_names(true), vec![b"VK_LAYER_KHRONOS_validation".to_vec()]);
}

#[test]
fn extensions_in_order() {
    let window = vec![b"VK_KHR_xlib_surface".to_vec()];
    assert_eq!(
        instance_extension_names(false, window.clone()),
        vec![b"VK_KHR_surface".to_vec(), b"VK_KHR_xlib_surface".to_vec()]
    );
    assert_eq!(
        instance_extension_names(true, window),
        vec![
            b"VK_KHR_surface".to_vec(),
            b"VK_KHR_xlib_surface".to_vec(),
            b"VK_EXT_debug_utils".to_vec(),
            b"VK_KHR_get_physical_device_properties2".to_vec(),
        ]
    );
}

#[test]
fn best_scoring_device_wins_last_on_tie() {
    assert_eq!(select_physical_device_index(&[]), None);
    assert_eq!(select_physical_device_index(&[None, None]), None);
    assert_eq!(select_physical_device_index(&[Some(3), None, Some(7), Some(1)]), Some(2));
    assert_eq!(select_physical_device_index(&[Some(5), Some(5), None]), Some(1));
    assert_eq!(select_physical_device_index(&[None, Some(0)]), Some(1));
}
