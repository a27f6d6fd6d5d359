//! The usage and view aspect of 2D textures.
use vstd::prelude::*;
use crate::image::{
    VK_FORMAT_D16_UNORM, VK_FORMAT_D16_UNORM_S8_UINT, VK_FORMAT_D24_UNORM_S8_UINT, VK_FORMAT_D32_SFLOAT,
    VK_FORMAT_D32_SFLOAT_S8_UINT, VK_FORMAT_X8_D24_UNORM_PACK32, VK_IMAGE_ASPECT_COLOR, VK_IMAGE_ASPECT_DEPTH,
};

verus! {

/// What a texture is used for, as a set of bits.
#[derive(PartialEq, Eq, Structural, Clone, Copy, Debug, Hash)]
pub struct TextureUsage(pub u32);

impl TextureUsage {
    pub const ATTACHMENT: u32 = 1;
    pub const SAMPLED: u32 = 2;
    pub const STORAGE: u32 = 4;

    pub open spec fn spec_contains(&self, flags: u32) -> bool {
        self.0 & flags == flags
    }

    #[verifier::when_used_as_spec(spec_contains)]
    pub fn contains(&self, flags: u32) -> (b: bool)
        ensures
            b == self.spec_contains(flags),
    {
        self.0 & flags == flags
    }
}

/// Raw Vulkan `VkImageUsageFlagBits` values.
pub const VK_IMAGE_USAGE_TRANSFER_SRC: u32 = 0x1;
pub const VK_IMAGE_USAGE_TRANSFER_DST: u32 = 0x2;
pub const VK_IMAGE_USAGE_SAMPLED: u32 = 0x4;
pub const VK_IMAGE_USAGE_STORAGE: u32 = 0x8;
pub const VK_IMAGE_USAGE_COLOR_ATTACHMENT: u32 = 0x10;
pub const VK_IMAGE_USAGE_DEPTH_STENCIL_ATTACHMENT: u32 = 0x20;

/// A format is a color format unless it is one of the depth or depth-stencil formats.
pub open spec fn spec_is_color_format(format: i32) -> bool {
    !(format == VK_FORMAT_D16_UNORM || format == VK_FORMAT_D16_UNORM_S8_UINT || format
        == VK_FORMAT_D24_UNORM_S8_UINT || format == VK_FORMAT_X8_D24_UNORM_PACK32 || format
        == VK_FORMAT_D32_SFLOAT || format == VK_FORMAT_D32_SFLOAT_S8_UINT)
}

pub fn is_color_format(format: i32) -> (b: bool)
    ensures
        b == spec_is_color_format(format),
{
    !(format == VK_FORMAT_D16_UNORM || format == VK_FORMAT_D16_UNORM_S8_UINT || format
        == VK_FORMAT_D24_UNORM_S8_UINT || format == VK_FORMAT_X8_D24_UNORM_PACK32 || format
        == VK_FORMAT_D32_SFLOAT || format == VK_FORMAT_D32_SFLOAT_S8_UINT)
}

/// The Vulkan image usage of a 2D texture: always a transfer source and destination; an
/// attachment as color or depth-stencil after its format; sampled and storage as asked.
pub open spec fn spec_texture_image_usage(usage: TextureUsage, format: i32) -> u32 {
    (VK_IMAGE_USAGE_TRANSFER_SRC | VK_IMAGE_USAGE_TRANSFER_DST) | (if usage.spec_contains(
        TextureUsage::ATTACHMENT,
    ) {
        if spec_is_color_format(format) {
            VK_IMAGE_USAGE_COLOR_ATTACHMENT
        } else {
            VK_IMAGE_USAGE_DEPTH_STENCIL_ATTACHMENT
        }
    } else {
        0
    }) | (if usage.spec_contains(TextureUsage::SAMPLED) { VK_IMAGE_USAGE_SAMPLED } else { 0 }) | (
    if usage.spec_contains(TextureUsage::STORAGE) {
        VK_IMAGE_USAGE_STORAGE
    } else {
        0
    })
}

/// The usage flags with which a 2D texture is created.
pub fn get_vk_texture_2d_usage(usage: TextureUsage, format: i32) -> (flags: u32)
    ensures
        flags == spec_texture_image_usage(usage, format),
{
    let transfer: u32 = VK_IMAGE_USAGE_TRANSFER_SRC | VK_IMAGE_USAGE_TRANSFER_DST;
    let color = is_color_format(format);
    let attachment: u32 = if usage.contains(TextureUsage::ATTACHMENT) {
        if color {
            VK_IMAGE_USAGE_COLOR_ATTACHMENT
        } else {
            VK_IMAGE_USAGE_DEPTH_STENCIL_ATTACHMENT
        }
    } else {
        0
    };
    let sampled: u32 = if usage.contains(TextureUsage::SAMPLED) { VK_IMAGE_USAGE_SAMPLED } else { 0 };
    let storage: u32 = if usage.contains(TextureUsage::STORAGE) { VK_IMAGE_USAGE_STORAGE } else { 0 };
    transfer | attachment | sampled | storage
}

/// A texture is always created as a transfer source and destination; it is a color
/// attachment exactly when it is used as an attachment and has a color format, a
/// depth-stencil attachment exactly when it is used as an attachment and has a depth
/// format; it is sampled exactly when used sampled and storage exactly when used as
/// storage; and no other usage flag is set.
pub proof fn lemma_texture_usage_flags_match_usages(usage: TextureUsage, format: i32)
    ensures
        spec_texture_image_usage(usage, format) & VK_IMAGE_USAGE_TRANSFER_SRC != 0,
        spec_texture_image_usage(usage, format) & VK_IMAGE_USAGE_TRANSFER_DST != 0,
        (spec_texture_image_usage(usage, format) & VK_IMAGE_USAGE_COLOR_ATTACHMENT != 0) == (usage.spec_contains(
            TextureUsage::ATTACHMENT,
        ) && spec_is_color_format(format)),
        (spec_texture_image_usage(usage, format) & VK_IMAGE_USAGE_DEPTH_STENCIL_ATTACHMENT != 0) == (usage.spec_contains(
            TextureUsage::ATTACHMENT,
        ) && !spec_is_color_format(format)),
        (spec_texture_image_usage(usage, format) & VK_IMAGE_USAGE_SAMPLED != 0) == usage.spec_contains(TextureUsage::SAMPLED),
        (spec_texture_image_usage(usage, format) & VK_IMAGE_USAGE_STORAGE != 0) == usage.spec_contains(TextureUsage::STORAGE),
        spec_texture_image_usage(usage, format) & !(VK_IMAGE_USAGE_TRANSFER_SRC | VK_IMAGE_USAGE_TRANSFER_DST
            | VK_IMAGE_USAGE_SAMPLED | VK_IMAGE_USAGE_STORAGE | VK_IMAGE_USAGE_COLOR_ATTACHMENT
            | VK_IMAGE_USAGE_DEPTH_STENCIL_ATTACHMENT) == 0,
{
    let v = spec_texture_image_usage(usage, format);
    let attachment: bool = usage.0 & 1 == 1;
    let sampled: bool = usage.0 & 2 == 2;
    let storage: bool = usage.0 & 4 == 4;
    let color: bool = spec_is_color_format(format);
    assert(v == (0x1u32 | 0x2u32) | (if attachment {
        if color {
            0x10u32
        } else {
            0x20u32
        }
    } else {
        0u32
    }) | (if sampled { 0x4u32 } else { 0u32 }) | (if storage { 0x8u32 } else { 0u32 }));
    assert(!(0x1u32 | 0x2u32 | 0x4u32 | 0x8u32 | 0x10u32 | 0x20u32) == !0x3fu32) by (bit_vector);
    assert(
        v & 0x1 != 0 && v & 0x2 != 0 && (v & 0x10 != 0) == (attachment && color) && (v & 0x20 != 0) == (attachment
            && !color) && (v & 0x4 != 0) == sampled && (v & 0x8 != 0) == storage && v & !0x3fu32 == 0
    ) by (bit_vector)
        requires
            v == (0x1u32 | 0x2u32) | (if attachment {
                if color {
                    0x10u32
                } else {
                    0x20u32
                }
            } else {
                0u32
            }) | (if sampled { 0x4u32 } else { 0u32 }) | (if storage { 0x8u32 } else { 0u32 }),
    ;
}

/// The aspect of a texture's view: color for color formats, depth otherwise.
pub fn texture_view_aspect(format: i32) -> (flags: u32)
    ensures
        flags == if spec_is_color_format(format) { VK_IMAGE_ASPECT_COLOR } else { VK_IMAGE_ASPECT_DEPTH },
{
    if is_color_format(format) {
        VK_IMAGE_ASPECT_COLOR
    } else {
        VK_IMAGE_ASPECT_DEPTH
    }
}

} // verus!
