//! What a Vulkan instance is created with, and how a physical device is chosen.
use vstd::prelude::*;
use crate::physical_device::ascii_bytes;

verus! {

/// Name and version (variant, major, minor, patch) of an application or engine.
#[derive(PartialEq, Eq, Debug)]
pub struct AppInfo<'a> {
    pub name: &'a str,
    pub variant_version: u32,
    pub major_version: u32,
    pub minor_version: u32,
    pub patch_version: u32,
}

impl<'a> AppInfo<'a> {
    pub fn new(name: &'a str, version: [u32; 4]) -> (info: Self)
        ensures
            info.name == name,
            info.variant_version == version[0],
            info.major_version == version[1],
            info.minor_version == version[2],
            info.patch_version == version[3],
    {
        AppInfo {
            name,
            variant_version: version[0],
            major_version: version[1],
            minor_version: version[2],
            patch_version: version[3],
        }
    }
}

/// A version packed as `VK_MAKE_API_VERSION` packs it (bits beyond 32 are dropped).
pub open spec fn packed_version(variant: u32, major: u32, minor: u32, patch: u32) -> u32 {
    (variant << 29u32) | (major << 22u32) | (minor << 12u32) | patch
}

/// Packs a version with `ash::vk::make_api_version`, which the crate's source defines as
/// `(variant << 29) | (major << 22) | (minor << 12) | patch` on `u32`.
#[verifier::external_body]
fn make_api_version(variant: u32, major: u32, minor: u32, patch: u32) -> (version: u32)
    ensures
        version == packed_version(variant, major, minor, patch),
{
    ash::vk::make_api_version(variant, major, minor, patch)
}

/// The packed version of an application or engine, as the instance is told it.
pub fn app_version(info: &AppInfo) -> (version: u32)
    ensures
        version == packed_version(info.variant_version, info.major_version, info.minor_version, info.patch_version),
{
    make_api_version(info.variant_version, info.major_version, info.minor_version, info.patch_version)
}

/// The name of `VK_KHR_surface`, from `ash::extensions::khr::Surface::name`, without its
/// NUL; the crate's source builds it from the literal `b"VK_KHR_surface\0"`.
#[verifier::external_body]
fn surface_extension_name() -> (name: Vec<u8>)
    ensures
        name@ == ascii_bytes("VK_KHR_surface"@),
{
    ash::extensions::khr::Surface::name().to_bytes().to_vec()
}

/// The name of `VK_EXT_debug_utils`, from `ash::extensions::ext::DebugUtils::name`,
/// without its NUL; the crate's source builds it from the literal
/// `b"VK_EXT_debug_utils\0"`.
#[verifier::external_body]
fn debug_utils_extension_name() -> (name: Vec<u8>)
    ensures
        name@ == ascii_bytes("VK_EXT_debug_utils"@),
{
    ash::extensions::ext::DebugUtils::name().to_bytes().to_vec()
}

/// The name of `VK_KHR_get_physical_device_properties2`, from
/// `ash::extensions::khr::GetPhysicalDeviceProperties2::name`, without its NUL; the
/// crate's source builds it from the literal `b"VK_KHR_get_physical_device_properties2\0"`.
#[verifier::external_body]
fn get_physical_device_properties2_extension_name() -> (name: Vec<u8>)
    ensures
        name@ == ascii_bytes("VK_KHR_get_physical_device_properties2"@),
{
    ash::extensions::khr::GetPhysicalDeviceProperties2::name().to_bytes().to_vec()
}

/// The bytes of `VK_LAYER_KHRONOS_validation`.
fn validation_layer_name() -> (name: Vec<u8>)
    ensures
        name@ == ascii_bytes("VK_LAYER_KHRONOS_validation"@),
{
    let text = "VK_LAYER_KHRONOS_validation";
    proof {
        reveal_strlit("VK_LAYER_KHRONOS_validation");
    }
    let bytes = text.as_bytes_vec();
    proof {
        vstd::string::is_ascii_spec_bytes(text);
    }
    assert(bytes@ =~= ascii_bytes("VK_LAYER_KHRONOS_validation"@));
    bytes
}

/// The instance layers: the validation layer when debugging.
pub fn instance_layer_names(enable_debug: bool) -> (layers: Vec<Vec<u8>>)
    ensures
        layers@.len() == (if enable_debug { 1nat } else { 0nat }),
        enable_debug ==> layers@[0]@ == ascii_bytes("VK_LAYER_KHRONOS_validation"@),
{
    let mut layers: Vec<Vec<u8>> = Vec::new();
    if enable_debug {
        layers.push(validation_layer_name());
    }
    layers
}

/// The instance extensions: surfaces, those the window system requires, and debug
/// utilities with the second properties query when debugging.
pub fn instance_extension_names(enable_debug: bool, window_extensions: Vec<Vec<u8>>) -> (extensions: Vec<Vec<u8>>)
    ensures
        extensions@.len() == 1 + window_extensions@.len() + (if enable_debug { 2int } else { 0int }),
        extensions@[0]@ == ascii_bytes("VK_KHR_surface"@),
        forall|i: int| 0 <= i < window_extensions@.len() ==> extensions@[1 + i] == window_extensions@[i],
        enable_debug ==> extensions@[1 + window_extensions@.len() as int]@ == ascii_bytes("VK_EXT_debug_utils"@),
        enable_debug ==> extensions@[2 + window_extensions@.len() as int]@ == ascii_bytes(
            "VK_KHR_get_physical_device_properties2"@,
        ),
{
    let mut extensions: Vec<Vec<u8>> = Vec::new();
    extensions.push(surface_extension_name());
    let mut window_extensions = window_extensions;
    let ghost window = window_extensions@;
    extensions.append(&mut window_extensions);
    if enable_debug {
        extensions.push(debug_utils_extension_name());
        extensions.push(get_physical_device_properties2_extension_name());
    }
    assert forall|i: int| 0 <= i < window.len() implies extensions@[1 + i] == window[i] by {}
    extensions
}

/// The index of the best-scoring device: the highest score among the devices that have
/// one, the last of them on a tie; none when no device has a score.
pub fn select_physical_device_index(scores: &[Option<usize>]) -> (index: Option<usize>)
    ensures
        index is None <==> forall|j: int| 0 <= j < scores@.len() ==> scores@[j] is None,
        index matches Some(i) ==> {
            &&& i < scores@.len()
            &&& scores@[i as int] is Some
            &&& forall|j: int| 0 <= j < scores@.len() && (#[trigger] scores@[j]) is Some ==> scores@[j]->0 <= scores@[i as int]->0
            &&& forall|j: int| i < j < scores@.len() && (#[trigger] scores@[j]) is Some ==> scores@[j]->0 < scores@[i as int]->0
        },
{
    let mut best: Option<usize> = None;
    let mut i: usize = 0;
    while i < scores.len()
        invariant
            i <= scores@.len(),
            best is None <==> forall|j: int| 0 <= j < i ==> scores@[j] is None,
            best matches Some(b) ==> {
                &&& b < i
                &&& scores@[b as int] is Some
                &&& forall|j: int| 0 <= j < i && (#[trigger] scores@[j]) is Some ==> scores@[j]->0 <= scores@[b as int]->0
                &&& forall|j: int| b < j < i && (#[trigger] scores@[j]) is Some ==> scores@[j]->0 < scores@[b as int]->0
            },
        decreases scores@.len() - i,
    {
        match scores[i] {
            Some(score) => {
                match best {
                    Some(b) => {
                        let best_score = scores[b].unwrap();
                        if score >= best_score {
                            best = Some(i);
                        }
                    },
                    None => {
                        best = Some(i);
                    },
                }
            },
            None => {},
        }
        i = i + 1;
    }
    best
}

} // verus!
