//! Buffer usages and descriptions, and the Vulkan usage flags they need.
use vstd::prelude::*;

verus! {

/// Intended usages of a buffer, as a set of bits.
#[derive(PartialEq, Eq, Structural, Clone, Copy, Debug, Hash)]
pub struct BufferUsage(pub u32);

/// `(bits & flag) == flag`: every bit of `flag` is set in `bits`.
pub open spec fn has_flags(bits: u32, flag: u32) -> bool {
    bits & flag == flag
}

/// Raw Vulkan `VkBufferUsageFlagBits` values.
pub const VK_BUFFER_USAGE_TRANSFER_SRC: u32 = 0x1;
pub const VK_BUFFER_USAGE_TRANSFER_DST: u32 = 0x2;
pub const VK_BUFFER_USAGE_UNIFORM_BUFFER: u32 = 0x10;
pub const VK_BUFFER_USAGE_STORAGE_BUFFER: u32 = 0x20;
pub const VK_BUFFER_USAGE_INDEX_BUFFER: u32 = 0x40;
pub const VK_BUFFER_USAGE_VERTEX_BUFFER: u32 = 0x80;
pub const VK_BUFFER_USAGE_INDIRECT_BUFFER: u32 = 0x100;

impl BufferUsage {
    pub const VERTEX: u32 = 1;
    pub const INDEX: u32 = 2;
    pub const UNIFORM: u32 = 4;
    pub const STORAGE: u32 = 8;
    pub const INDIRECT: u32 = 16;
    pub const TRANSFER: u32 = 32;

    pub open spec fn spec_contains(&self, flags: u32) -> bool {
        has_flags(self.0, flags)
    }

    /// Every bit of `flags` is set in these usages.
    #[verifier::when_used_as_spec(spec_contains)]
    pub fn contains(&self, flags: u32) -> (b: bool)
        ensures
            b == self.spec_contains(flags),
    {
        self.0 & flags == flags
    }

    /// The Vulkan buffer usage flags that these usages require.
    pub open spec fn spec_to_vk(&self) -> u32 {
        (if self.spec_contains(BufferUsage::VERTEX) { VK_BUFFER_USAGE_VERTEX_BUFFER } else { 0 })
            | (if self.spec_contains(BufferUsage::INDEX) { VK_BUFFER_USAGE_INDEX_BUFFER } else { 0 })
            | (if self.spec_contains(BufferUsage::UNIFORM) { VK_BUFFER_USAGE_UNIFORM_BUFFER } else { 0 })
            | (if self.spec_contains(BufferUsage::STORAGE) { VK_BUFFER_USAGE_STORAGE_BUFFER } else { 0 })
            | (if self.spec_contains(BufferUsage::INDIRECT) { VK_BUFFER_USAGE_INDIRECT_BUFFER } else { 0 })
            | (if self.spec_contains(BufferUsage::TRANSFER) {
                VK_BUFFER_USAGE_TRANSFER_SRC | VK_BUFFER_USAGE_TRANSFER_DST
            } else {
                0
            })
    }

    pub fn to_vk(&self) -> (flags: u32)
        ensures
            flags == self.spec_to_vk(),
    {
        let vertex: u32 = if self.contains(BufferUsage::VERTEX) { VK_BUFFER_USAGE_VERTEX_BUFFER } else { 0 };
        let index: u32 = if self.contains(BufferUsage::INDEX) { VK_BUFFER_USAGE_INDEX_BUFFER } else { 0 };
        let uniform: u32 = if self.contains(BufferUsage::UNIFORM) { VK_BUFFER_USAGE_UNIFORM_BUFFER } else { 0 };
        let storage: u32 = if self.contains(BufferUsage::STORAGE) { VK_BUFFER_USAGE_STORAGE_BUFFER } else { 0 };
        let indirect: u32 = if self.contains(BufferUsage::INDIRECT) { VK_BUFFER_USAGE_INDIRECT_BUFFER } else { 0 };
        let transfer: u32 = if self.contains(BufferUsage::TRANSFER) {
            VK_BUFFER_USAGE_TRANSFER_SRC | VK_BUFFER_USAGE_TRANSFER_DST
        } else {
            0
        };
        vertex | index | uniform | storage | indirect | transfer
    }
}

/// Each buffer usage asks for its own Vulkan usage flag and for no other: a vertex usage
/// for the vertex-buffer bit, an index usage for the index-buffer bit, uniform, storage and
/// indirect usages for theirs, a transfer usage for both transfer bits; and no flag is set
/// that no usage asked for.
pub proof fn lemma_usage_flags_match_usages(usage: BufferUsage)
    ensures
        (usage.spec_to_vk() & VK_BUFFER_USAGE_VERTEX_BUFFER != 0) == usage.spec_contains(BufferUsage::VERTEX),
        (usage.spec_to_vk() & VK_BUFFER_USAGE_INDEX_BUFFER != 0) == usage.spec_contains(BufferUsage::INDEX),
        (usage.spec_to_vk() & VK_BUFFER_USAGE_UNIFORM_BUFFER != 0) == usage.spec_contains(BufferUsage::UNIFORM),
        (usage.spec_to_vk() & VK_BUFFER_USAGE_STORAGE_BUFFER != 0) == usage.spec_contains(BufferUsage::STORAGE),
        (usage.spec_to_vk() & VK_BUFFER_USAGE_INDIRECT_BUFFER != 0) == usage.spec_contains(BufferUsage::INDIRECT),
        (usage.spec_to_vk() & VK_BUFFER_USAGE_TRANSFER_SRC != 0) == usage.spec_contains(BufferUsage::TRANSFER),
        (usage.spec_to_vk() & VK_BUFFER_USAGE_TRANSFER_DST != 0) == usage.spec_contains(BufferUsage::TRANSFER),
        usage.spec_to_vk() & !(VK_BUFFER_USAGE_VERTEX_BUFFER | VK_BUFFER_USAGE_INDEX_BUFFER | VK_BUFFER_USAGE_UNIFORM_BUFFER
            | VK_BUFFER_USAGE_STORAGE_BUFFER | VK_BUFFER_USAGE_INDIRECT_BUFFER | VK_BUFFER_USAGE_TRANSFER_SRC
            | VK_BUFFER_USAGE_TRANSFER_DST) == 0,
{
    let x = usage.0;
    let v = usage.spec_to_vk();
    let vertex: bool = x & 1 == 1;
    let index: bool = x & 2 == 2;
    let uniform: bool = x & 4 == 4;
    let storage: bool = x & 8 == 8;
    let indirect: bool = x & 16 == 16;
    let transfer: bool = x & 32 == 32;
    assert(v == (if vertex { 0x80u32 } else { 0u32 }) | (if index { 0x40u32 } else { 0u32 }) | (if uniform {
        0x10u32
    } else {
        0u32
    }) | (if storage { 0x20u32 } else { 0u32 }) | (if indirect { 0x100u32 } else { 0u32 }) | (if transfer {
        0x1u32 | 0x2u32
    } else {
        0u32
    }));
    assert(0x1u32 | 0x2u32 == 0x3u32) by (bit_vector);
    assert(!(0x80u32 | 0x40u32 | 0x10u32 | 0x20u32 | 0x100u32 | 0x1u32 | 0x2u32) == !0x1f3u32) by (bit_vector);
    assert(
        (v & 0x80 != 0) == vertex && (v & 0x40 != 0) == index && (v & 0x10 != 0) == uniform && (v & 0x20 != 0) == storage
            && (v & 0x100 != 0) == indirect && (v & 0x1 != 0) == transfer && (v & 0x2 != 0) == transfer
            && v & !0x1f3u32 == 0
    ) by (bit_vector)
        requires
            v == (if vertex { 0x80u32 } else { 0u32 }) | (if index { 0x40u32 } else { 0u32 }) | (if uniform {
                0x10u32
            } else {
                0u32
            }) | (if storage { 0x20u32 } else { 0u32 }) | (if indirect { 0x100u32 } else { 0u32 }) | (if transfer {
                0x3u32
            } else {
                0u32
            }),
    ;
}

/// Where the memory of a buffer or image lives.
#[derive(PartialEq, Eq, Structural, Clone, Copy, Debug, Hash)]
pub enum MemoryLocation {
    Unknown,
    GpuOnly,
    CpuToGpu,
    GpuToCpu,
}

/// What to create a buffer with: size in bytes, raw Vulkan usage flags and memory location.
#[derive(PartialEq, Eq, Structural, Clone, Copy, Debug, Hash)]
pub struct BufferDescription {
    pub size: u64,
    pub usage: u32,
    pub location: MemoryLocation,
}

#[derive(PartialEq, Eq, Structural, Clone, Copy, Debug, Hash)]
pub struct BufferDescription2 {
    /// Size in bytes of the allocated buffer
    pub size: usize,
    /// Specifies the intended usage of the buffer
    pub usage: BufferUsage,
    /// Allocates a buffer per frame in flight, allowing better parallelism.
    /// Allows cpu writes for the buffer using either mapped memory if platform supports it or a staging buffer
    pub per_frame_memory_mapped: bool,
}

} // verus!
