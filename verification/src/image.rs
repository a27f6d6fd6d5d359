//! Image formats and aspects, and the descriptions of images created inside a render
//! graph.
use vstd::prelude::*;
use crate::buffer::MemoryLocation;
use crate::ImageHandle;

verus! {

/// Raw Vulkan `VkFormat` values of the depth and stencil formats.
pub const VK_FORMAT_D16_UNORM: i32 = 124;
pub const VK_FORMAT_X8_D24_UNORM_PACK32: i32 = 125;
pub const VK_FORMAT_D32_SFLOAT: i32 = 126;
pub const VK_FORMAT_S8_UINT: i32 = 127;
pub const VK_FORMAT_D16_UNORM_S8_UINT: i32 = 128;
pub const VK_FORMAT_D24_UNORM_S8_UINT: i32 = 129;
pub const VK_FORMAT_D32_SFLOAT_S8_UINT: i32 = 130;

/// Raw Vulkan `VkImageAspectFlagBits` values.
pub const VK_IMAGE_ASPECT_COLOR: u32 = 1;
pub const VK_IMAGE_ASPECT_DEPTH: u32 = 2;
pub const VK_IMAGE_ASPECT_STENCIL: u32 = 4;

/// The aspects of an image of the given format: depth for the depth-only formats,
/// stencil for `S8_UINT`, both for the combined depth-stencil formats it knows
/// (`D32_SFLOAT_S8_UINT`, `D24_UNORM_S8_UINT`), and color for every other format.
pub open spec fn spec_format_aspect_flags(format: i32) -> u32 {
    if format == VK_FORMAT_D16_UNORM || format == VK_FORMAT_D32_SFLOAT || format
        == VK_FORMAT_X8_D24_UNORM_PACK32 {
        VK_IMAGE_ASPECT_DEPTH
    } else if format == VK_FORMAT_S8_UINT {
        VK_IMAGE_ASPECT_STENCIL
    } else if format == VK_FORMAT_D32_SFLOAT_S8_UINT || format == VK_FORMAT_D24_UNORM_S8_UINT {
        VK_IMAGE_ASPECT_DEPTH | VK_IMAGE_ASPECT_STENCIL
    } else {
        VK_IMAGE_ASPECT_COLOR
    }
}

pub fn vk_format_get_aspect_flags(format: i32) -> (flags: u32)
    ensures
        flags == spec_format_aspect_flags(format),
{
    if format == VK_FORMAT_D16_UNORM || format == VK_FORMAT_D32_SFLOAT || format
        == VK_FORMAT_X8_D24_UNORM_PACK32 {
        VK_IMAGE_ASPECT_DEPTH
    } else if format == VK_FORMAT_S8_UINT {
        VK_IMAGE_ASPECT_STENCIL
    } else if format == VK_FORMAT_D32_SFLOAT_S8_UINT || format == VK_FORMAT_D24_UNORM_S8_UINT {
        VK_IMAGE_ASPECT_DEPTH | VK_IMAGE_ASPECT_STENCIL
    } else {
        VK_IMAGE_ASPECT_COLOR
    }
}

/// The format has a depth component (among the formats the aspects are known for).
pub open spec fn format_has_depth(format: i32) -> bool {
    format == VK_FORMAT_D16_UNORM || format == VK_FORMAT_D32_SFLOAT || format == VK_FORMAT_X8_D24_UNORM_PACK32
        || format == VK_FORMAT_D32_SFLOAT_S8_UINT || format == VK_FORMAT_D24_UNORM_S8_UINT
}

/// The format has a stencil component (among the formats the aspects are known for).
pub open spec fn format_has_stencil(format: i32) -> bool {
    format == VK_FORMAT_S8_UINT || format == VK_FORMAT_D32_SFLOAT_S8_UINT || format == VK_FORMAT_D24_UNORM_S8_UINT
}

/// An image's aspects are its components: the depth aspect exactly when its format has
/// depth, the stencil aspect exactly when it has stencil, the color aspect exactly when it
/// has neither; and no other aspect.
pub proof fn lemma_aspect_flags_match_components(format: i32)
    ensures
        (spec_format_aspect_flags(format) & VK_IMAGE_ASPECT_DEPTH != 0) == format_has_depth(format),
        (spec_format_aspect_flags(format) & VK_IMAGE_ASPECT_STENCIL != 0) == format_has_stencil(format),
        (spec_format_aspect_flags(format) & VK_IMAGE_ASPECT_COLOR != 0) == (!format_has_depth(format)
            && !format_has_stencil(format)),
        spec_format_aspect_flags(format) & !(VK_IMAGE_ASPECT_COLOR | VK_IMAGE_ASPECT_DEPTH | VK_IMAGE_ASPECT_STENCIL) == 0,
{
    let v = spec_format_aspect_flags(format);
    let depth = format_has_depth(format);
    let stencil = format_has_stencil(format);
    assert(v == (if depth && stencil {
        2u32 | 4u32
    } else if depth {
        2u32
    } else if stencil {
        4u32
    } else {
        1u32
    }));
    assert(!(1u32 | 2u32 | 4u32) == !7u32) by (bit_vector);
    assert((v & 2 != 0) == depth && (v & 4 != 0) == stencil && (v & 1 != 0) == (!depth && !stencil) && v & !7u32 == 0)
        by (bit_vector)
        requires
            v == (if depth && stencil {
                2u32 | 4u32
            } else if depth {
                2u32
            } else if stencil {
                4u32
            } else {
                1u32
            }),
    ;
}

/// The size of a transient image: exact, or a scale of another image's size (the two
/// scale factors are kept as the bit patterns of their `f32` values).
#[derive(PartialEq, Eq, Clone, Copy, Debug)]
pub enum TransientImageSize {
    Exact([u32; 2]),
    Relative([u32; 2], ImageHandle),
}

/// Description of an image created inside a render graph (raw Vulkan format and usage).
#[derive(PartialEq, Eq, Clone, Copy, Debug)]
pub struct TransientImageDesc {
    pub size: TransientImageSize,
    pub format: i32,
    pub usage: u32,
    pub mip_levels: u32,
    pub memory_location: MemoryLocation,
}

#[derive(PartialEq, Eq, Clone, Copy, Debug)]
pub struct ImageDescription2D {
    pub size: [u32; 2],
    pub format: i32,
    pub usage: u32,
    pub mip_levels: u32,
    pub location: MemoryLocation,
}

impl TransientImageDesc {
    /// The description of the image once its size has been resolved.
    pub fn to_image_description(&self, resolved_size: [u32; 2]) -> (desc: ImageDescription2D)
        ensures
            desc == (ImageDescription2D {
                size: resolved_size,
                format: self.format,
                usage: self.usage,
                mip_levels: self.mip_levels,
                location: self.memory_location,
            }),
    {
        ImageDescription2D {
            size: resolved_size,
            format: self.format,
            usage: self.usage,
            mip_levels: self.mip_levels,
            location: self.memory_location,
        }
    }
}

/// The plain description of a created image: raw handles, size, raw format and usage,
/// and the bindless slots it occupies.
#[derive(PartialEq, Eq, Clone, Copy, Debug)]
pub struct AshImage {
    pub handle: u64,
    pub view: u64,
    pub size: [u32; 2],
    pub format: i32,
    pub usage: u32,
    pub location: MemoryLocation,
    pub storage_binding: Option<u32>,
    pub sampled_binding: Option<u32>,
}

impl AshImage {
    /// Whether the image's only aspect is color.
    pub fn is_color(&self) -> (b: bool)
        ensures
            b == (spec_format_aspect_flags(self.format) == VK_IMAGE_ASPECT_COLOR),
    {
        vk_format_get_aspect_flags(self.format) == VK_IMAGE_ASPECT_COLOR
    }

    pub fn get_aspect_flags(&self) -> (flags: u32)
        ensures
            flags == spec_format_aspect_flags(self.format),
    {
        vk_format_get_aspect_flags(self.format)
    }
}

} // verus!
