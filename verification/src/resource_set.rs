//! Sets of buffers that shaders index as one binding.
use vstd::prelude::*;
use crate::upload_queue::UploadQueue;
use crate::{BufferKey, BufferSetKey, VulkanError, NULL_KEY};

verus! {

/// Owner of the buffer sets. Buffer sets are not backed by GPU memory yet: creating one
/// hands out the null key, and the other operations change nothing.
#[derive(Debug, Default)]
pub struct ResourceSetManager {}

impl ResourceSetManager {
    pub fn create_buffer_set(&mut self, name: &str, count: usize) -> (key: Result<BufferSetKey, VulkanError>)
        ensures
            key == Ok::<BufferSetKey, VulkanError>(BufferSetKey(NULL_KEY)),
    {
        Ok(BufferSetKey::default())
    }

    pub fn destroy_buffer_set(&mut self, key: BufferSetKey)
        ensures
            *final(self) == *old(self),
    {
    }

    pub fn update_buffer_set(&mut self, key: BufferSetKey, index: usize, value: Option<BufferKey>)
        ensures
            *final(self) == *old(self),
    {
    }

    pub fn write_transfers(&mut self, transfers: &mut UploadQueue)
        ensures
            *final(self) == *old(self),
            *final(transfers) == *old(transfers),
    {
    }
}

/// A set of buffers: the key in each slot, and the GPU buffers (raw `VkBuffer` handles)
/// that hold the set, one per frame in flight.
pub struct BufferSet {
    pub name: String,
    pub handles: Vec<Option<BufferKey>>,
    pub gpu_buffer_index: usize,
    pub gpu_buffers: Vec<u64>,
}

} // verus!
