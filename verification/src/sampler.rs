//! Sampler addressing, filtering and border colors, and the create info they make.
use vstd::prelude::*;

verus! {

#[derive(PartialEq, Eq, Structural, Clone, Copy, Debug, Default)]
pub enum AddressMode {
    #[default]
    Repeat,
    MirroredRepeat,
    ClampToEdge,
    ClampToBorder,
}

impl AddressMode {
    /// The raw Vulkan `VkSamplerAddressMode`.
    pub fn to_vk(&self) -> (mode: i32)
        ensures
            mode == match self {
                AddressMode::Repeat => 0i32,
                AddressMode::MirroredRepeat => 1i32,
                AddressMode::ClampToEdge => 2i32,
                AddressMode::ClampToBorder => 3i32,
            },
    {
        match self {
            AddressMode::Repeat => 0,
            AddressMode::MirroredRepeat => 1,
            AddressMode::ClampToEdge => 2,
            AddressMode::ClampToBorder => 3,
        }
    }
}

#[derive(PartialEq, Eq, Structural, Clone, Copy, Debug, Default)]
pub enum FilterMode {
    #[default]
    Nearest,
    Linear,
}

impl FilterMode {
    /// The raw Vulkan `VkFilter`.
    pub fn to_vk(&self) -> (filter: i32)
        ensures
            filter == match self {
                FilterMode::Nearest => 0i32,
                FilterMode::Linear => 1i32,
            },
    {
        match self {
            FilterMode::Nearest => 0,
            FilterMode::Linear => 1,
        }
    }

    /// The raw Vulkan `VkSamplerMipmapMode`.
    pub fn to_mip_vk(&self) -> (mode: i32)
        ensures
            mode == match self {
                FilterMode::Nearest => 0i32,
                FilterMode::Linear => 1i32,
            },
    {
        match self {
            FilterMode::Nearest => 0,
            FilterMode::Linear => 1,
        }
    }
}

#[derive(PartialEq, Eq, Structural, Clone, Copy, Debug, Default)]
pub enum BorderColor {
    #[default]
    TransparentBlack,
    OpaqueBlack,
    OpaqueWhite,
}

impl BorderColor {
    /// The raw Vulkan `VkBorderColor` (the float variants).
    pub fn to_vk(&self) -> (color: i32)
        ensures
            color == match self {
                BorderColor::TransparentBlack => 0i32,
                BorderColor::OpaqueBlack => 2i32,
                BorderColor::OpaqueWhite => 4i32,
            },
    {
        match self {
            BorderColor::TransparentBlack => 0,
            BorderColor::OpaqueBlack => 2,
            BorderColor::OpaqueWhite => 4,
        }
    }
}

/// Bit pattern of `VK_LOD_CLAMP_NONE` (`1000.0f32`).
pub const LOD_CLAMP_NONE_BITS: u32 = 0x447a_0000;

/// How a sampler filters and addresses; the level-of-detail range and the anisotropy
/// clamp are kept as the bit patterns of their `f32` values.
#[derive(PartialEq, Eq, Clone, Copy, Debug, Default)]
pub struct SamplerDescription {
    pub address_mode_u: AddressMode,
    pub address_mode_v: AddressMode,
    pub address_mode_w: AddressMode,
    pub mag_filter: FilterMode,
    pub min_filter: FilterMode,
    pub mip_filter: FilterMode,
    pub lod_clamp_range: Option<(u32, u32)>,
    pub anisotropy_clamp: Option<u32>,
    pub border_color: BorderColor,
    pub unnormalized_coordinates: bool,
}

/// The fields of `VkSamplerCreateInfo`, with raw enum values and `f32` bit patterns.
#[derive(PartialEq, Eq, Structural, Clone, Copy, Debug)]
pub struct SamplerCreateInfo {
    pub address_mode_u: i32,
    pub address_mode_v: i32,
    pub address_mode_w: i32,
    pub mag_filter: i32,
    pub min_filter: i32,
    pub mipmap_mode: i32,
    pub min_lod: u32,
    pub max_lod: u32,
    pub anisotropy_enable: bool,
    pub max_anisotropy: u32,
    pub border_color: i32,
    pub unnormalized_coordinates: bool,
}

impl SamplerDescription {
    /// Without a level-of-detail range every level is used (`0.0..VK_LOD_CLAMP_NONE`);
    /// anisotropic filtering is on exactly when it is clamped.
    pub fn to_vk(&self) -> (info: SamplerCreateInfo)
        ensures
            info.address_mode_u == match self.address_mode_u {
                AddressMode::Repeat => 0i32,
                AddressMode::MirroredRepeat => 1i32,
                AddressMode::ClampToEdge => 2i32,
                AddressMode::ClampToBorder => 3i32,
            },
            info.address_mode_v == match self.address_mode_v {
                AddressMode::Repeat => 0i32,
                AddressMode::MirroredRepeat => 1i32,
                AddressMode::ClampToEdge => 2i32,
                AddressMode::ClampToBorder => 3i32,
            },
            info.address_mode_w == match self.address_mode_w {
                AddressMode::Repeat => 0i32,
                AddressMode::MirroredRepeat => 1i32,
                AddressMode::ClampToEdge => 2i32,
                AddressMode::ClampToBorder => 3i32,
            },
            info.mag_filter == (if self.mag_filter is Nearest { 0i32 } else { 1i32 }),
            info.min_filter == (if self.min_filter is Nearest { 0i32 } else { 1i32 }),
            info.mipmap_mode == (if self.mip_filter is Nearest { 0i32 } else { 1i32 }),
            info.min_lod == match self.lod_clamp_range { Some(r) => r.0, None => 0u32 },
            info.max_lod == match self.lod_clamp_range { Some(r) => r.1, None => LOD_CLAMP_NONE_BITS },
            info.anisotropy_enable == self.anisotropy_clamp is Some,
            info.max_anisotropy == match self.anisotropy_clamp { Some(a) => a, None => 0u32 },
            info.border_color == match self.border_color {
                BorderColor::TransparentBlack => 0i32,
                BorderColor::OpaqueBlack => 2i32,
                BorderColor::OpaqueWhite => 4i32,
            },
            info.unnormalized_coordinates == self.unnormalized_coordinates,
    {
        let (min_lod, max_lod) = match self.lod_clamp_range {
            Some(r) => r,
            None => (0, LOD_CLAMP_NONE_BITS),
        };
        SamplerCreateInfo {
            address_mode_u: self.address_mode_u.to_vk(),
            address_mode_v: self.address_mode_v.to_vk(),
            address_mode_w: self.address_mode_w.to_vk(),
            mag_filter: self.mag_filter.to_vk(),
            min_filter: self.min_filter.to_vk(),
            mipmap_mode: self.mip_filter.to_mip_vk(),
            min_lod,
            max_lod,
            anisotropy_enable: self.anisotropy_clamp.is_some(),
            max_anisotropy: match self.anisotropy_clamp {
                Some(a) => a,
                None => 0,
            },
            border_color: self.border_color.to_vk(),
            unnormalized_coordinates: self.unnormalized_coordinates,
        }
    }
}

} // verus!
