//! How a swapchain is sized from what the surface allows.
use vstd::prelude::*;

verus! {

/// What the user asks of a surface's swapchain, with raw Vulkan values (`VkFormat`,
/// `VkColorSpaceKHR`, `VkImageUsageFlags`, `VkPresentModeKHR`).
#[derive(PartialEq, Eq, Clone, Copy, Debug, Default)]
pub struct SurfaceSettings {
    /// Preferred number of swapchain images, actual number will vary
    pub image_count: u32,
    pub format: i32,
    pub color_space: i32,
    pub size: [u32; 2],
    pub usage: u32,
    pub present_mode: i32,
}

/// The parts of `VkSurfaceCapabilitiesKHR` a swapchain is sized from.
#[derive(PartialEq, Eq, Clone, Copy, Debug)]
pub struct SurfaceCapabilities {
    pub min_image_count: u32,
    pub max_image_count: u32,
    pub min_image_extent: [u32; 2],
    pub max_image_extent: [u32; 2],
    /// `VkSurfaceTransformFlagBitsKHR`
    pub current_transform: u32,
}

/// `x` limited to `min..=max`.
pub open spec fn clamp(x: u32, min: u32, max: u32) -> u32 {
    if x < min { min } else if x > max { max } else { x }
}

fn clamp_u32(x: u32, min: u32, max: u32) -> (c: u32)
    requires
        min <= max,
    ensures
        c == clamp(x, min, max),
{
    if x < min { min } else if x > max { max } else { x }
}

/// The swapchain's extent and image count: the requested ones limited to what the
/// surface allows; and the surface's current transform.
pub fn swapchain_extent_transform_count(settings: &SurfaceSettings, capabilities: &SurfaceCapabilities) -> (r: ([u32; 2], u32, u32))
    requires
        capabilities.min_image_extent[0] <= capabilities.max_image_extent[0],
        capabilities.min_image_extent[1] <= capabilities.max_image_extent[1],
        capabilities.min_image_count <= capabilities.max_image_count,
    ensures
        r.0 == [
            clamp(settings.size[0], capabilities.min_image_extent[0], capabilities.max_image_extent[0]),
            clamp(settings.size[1], capabilities.min_image_extent[1], capabilities.max_image_extent[1]),
        ],
        r.1 == capabilities.current_transform,
        r.2 == clamp(settings.image_count, capabilities.min_image_count, capabilities.max_image_count),
{
    let width = clamp_u32(settings.size[0], capabilities.min_image_extent[0], capabilities.max_image_extent[0]);
    let height = clamp_u32(settings.size[1], capabilities.min_image_extent[1], capabilities.max_image_extent[1]);
    let count = clamp_u32(settings.image_count, capabilities.min_image_count, capabilities.max_image_count);
    ([width, height], capabilities.current_transform, count)
}

/// A clamp lands in the allowed range, keeps a value that is already in it, and otherwise
/// moves it to the nearest end: the result is the allowed value closest to the request.
pub proof fn lemma_clamp_is_nearest_allowed(x: u32, min: u32, max: u32)
    requires
        min <= max,
    ensures
        min <= clamp(x, min, max) <= max,
        min <= x <= max ==> clamp(x, min, max) == x,
        x < min ==> clamp(x, min, max) == min,
        x > max ==> clamp(x, min, max) == max,
        forall|y: u32| min <= y <= max ==> #[trigger] (y - x) * (y - x) >= (clamp(x, min, max) - x) * (clamp(x, min, max)
            - x),
{
    let c = clamp(x, min, max);
    assert forall|y: u32| min <= y <= max implies #[trigger] (y - x) * (y - x) >= (c - x) * (c - x) by {
        if x < min {
            assert(0 <= c - x <= y - x);
            assert((c - x) * (c - x) <= (y - x) * (y - x)) by (nonlinear_arith)
                requires
                    0 <= c - x <= y - x,
            ;
        } else if x > max {
            assert(0 <= x - c <= x - y);
            assert((x - c) * (x - c) <= (x - y) * (x - y)) by (nonlinear_arith)
                requires
                    0 <= x - c <= x - y,
            ;
            assert((c - x) * (c - x) == (x - c) * (x - c)) by (nonlinear_arith);
            assert((y - x) * (y - x) == (x - y) * (x - y)) by (nonlinear_arith);
        } else {
            assert((y - x) * (y - x) >= 0) by (nonlinear_arith);
        }
    }
}

/// The swapchain gets the requested extent and image count whenever the surface allows
/// them, and otherwise the allowed values nearest to them; its transform is the surface's.
pub proof fn lemma_swapchain_sizing_is_nearest_allowed(settings: SurfaceSettings, capabilities: SurfaceCapabilities)
    requires
        capabilities.min_image_extent[0] <= capabilities.max_image_extent[0],
        capabilities.min_image_extent[1] <= capabilities.max_image_extent[1],
        capabilities.min_image_count <= capabilities.max_image_count,
    ensures
        ({
            let w = clamp(settings.size[0], capabilities.min_image_extent[0], capabilities.max_image_extent[0]);
            let h = clamp(settings.size[1], capabilities.min_image_extent[1], capabilities.max_image_extent[1]);
            let n = clamp(settings.image_count, capabilities.min_image_count, capabilities.max_image_count);
            &&& capabilities.min_image_extent[0] <= w <= capabilities.max_image_extent[0]
            &&& capabilities.min_image_extent[1] <= h <= capabilities.max_image_extent[1]
            &&& capabilities.min_image_count <= n <= capabilities.max_image_count
            &&& capabilities.min_image_extent[0] <= settings.size[0] <= capabilities.max_image_extent[0] ==> w == settings.size[0]
            &&& capabilities.min_image_extent[1] <= settings.size[1] <= capabilities.max_image_extent[1] ==> h == settings.size[1]
            &&& capabilities.min_image_count <= settings.image_count <= capabilities.max_image_count ==> n == settings.image_count
            &&& settings.size[0] < capabilities.min_image_extent[0] ==> w == capabilities.min_image_extent[0]
            &&& settings.size[0] > capabilities.max_image_extent[0] ==> w == capabilities.max_image_extent[0]
            &&& settings.size[1] < capabilities.min_image_extent[1] ==> h == capabilities.min_image_extent[1]
            &&& settings.size[1] > capabilities.max_image_extent[1] ==> h == capabilities.max_image_extent[1]
            &&& settings.image_count < capabilities.min_image_count ==> n == capabilities.min_image_count
            &&& settings.image_count > capabilities.max_image_count ==> n == capabilities.max_image_count
        }),
{
}

} // verus!
