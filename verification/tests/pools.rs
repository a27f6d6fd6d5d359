use neptune_vulkan::descriptor_set::{DescriptorCount, DescriptorIndices, IndexPool};
use neptune_vulkan::id_pool::IdPool;
use neptune_vulkan::resource_managers::{DeferredRemovals, ResourceManager};
use neptune_vulkan::BufferKey;

#[test]
fn id_pool_mints_in_order_from_first_id() {
    let mut pool = IdPool::new(5);
    assert_eq!(pool.get(), 5);
    assert_eq!(pool.get(), 6);
    assert_eq!(pool.get(), 7);
}

#[test]
fn id_pool_reuses_last_freed_first() {
    let mut pool = IdPool::new(0);
    let a = pool.get();
    let b = pool.get();
    let c = pool.get();
    assert_eq!((a, b, c), (0, 1, 2));
    pool.free(a);
    pool.free(c);
    assert_eq!(pool.get(), 2);
    assert_eq!(pool.get(), 0);
    assert_eq!(pool.get(), 3);
}

#[test]
fn id_pool_free_then_get_gives_the_id_back() {
    let mut pool = IdPool::new(10);
    let _ = pool.get();
    pool.free(42);
    assert_eq!(pool.get(), 42);
    assert_eq!(pool.get(), 11);
}

#[test]
fn id_pool_two_gets_are_distinct() {
    let mut pool = IdPool::new(0);
    let a = pool.get();
    pool.free(a);
    let b = pool.get();
    let c = pool.get();
    assert_ne!(b, c);
}

#[test]
fn index_pool_runs_out_at_range_end() {
    let mut pool = IndexPool::new(3..5);
    assert_eq!(pool.get(), Some(3));
    assert_eq!(pool.get(), Some(4));
    assert_eq!(pool.get(), None);
    assert_eq!(pool.get(), None);
}

#[test]
fn index_pool_empty_range_hands_out_nothing() {
    let mut pool = IndexPool::new(7..7);
    assert_eq!(pool.get(), None);
}

#[test]
fn index_pool_reuses_freed_indices_lifo() {
    let mut pool = IndexPool::new(0..2);
    let a = pool.get().unwrap();
    let b = pool.get().unwrap();
    assert_eq!(pool.get(), None);
    pool.free(a);
    pool.free(b);
    assert_eq!(pool.get(), Some(b));
    assert_eq!(pool.get(), Some(a));
    assert_eq!(pool.get(), None);
}

#[test]
fn descriptor_indices_bind_and_unbind() {
    let count = DescriptorCount {
        storage_buffers: 2,
        storage_images: 1,
        sampled_images: 3,
        acceleration_structures: 0,
    };
    let mut indices = DescriptorIndices::new(&count);
    assert_eq!(indices.bind_storage_buffer(), 0);
    assert_eq!(indices.bind_storage_buffer(), 1);
    assert_eq!(indices.bind_storage_image(), 0);
    assert_eq!(indices.bind_sampled_image(), 0);
    indices.unbind_storage_buffer(0);
    assert_eq!(indices.bind_storage_buffer(), 0);
}

#[test]
fn deferred_removal_destroys_at_second_flush() {
    let mut removals: DeferredRemovals<u64> = DeferredRemovals::new();
    removals.remove(9);
    removals.remove(4);
    let first = removals.flush_frame();
    assert!(first.is_empty());
    removals.remove(1);
    let second = removals.flush_frame();
    assert_eq!(second, vec![9, 4]);
    let third = removals.flush_frame();
    assert_eq!(third, vec![1]);
    let fourth = removals.flush_frame();
    assert!(fourth.is_empty());
}

#[test]
fn id_pool_live_and_freed_ids_cover_minted_range() {
    let mut pool = IdPool::new(10);
    let a = pool.get();
    let b = pool.get();
    let c = pool.get();
    pool.free(b);
    let d = pool.get();
    let e = pool.get();
    pool.free(a);
    // live: c, d, e; freed: a. Together they are 10..14, each once.
    let mut seen = vec![c, d, e, a];
    seen.sort();
    assert_eq!(seen, vec![10, 11, 12, 13]);
    assert_eq!(d, b);
    assert_eq!(pool.get(), a);
    assert_eq!(pool.get(), 14);
}

#[test]
fn removed_buffer_survives_one_flush_and_goes_at_the_second() {
    let mut manager = ResourceManager::new();
    let kept = manager.add_buffer();
    let removed = manager.add_buffer();
    assert_ne!(kept, removed);
    assert!(manager.contains_buffer(removed));
    manager.remove_buffer(removed);
    let (buffers, images) = manager.flush_frame();
    assert!(buffers.is_empty() && images.is_empty());
    assert!(manager.contains_buffer(removed));
    let (buffers, _) = manager.flush_frame();
    assert_eq!(buffers, vec![removed]);
    assert!(!manager.contains_buffer(removed));
    assert!(manager.contains_buffer(kept));
    let (buffers, _) = manager.flush_frame();
    assert!(buffers.is_empty());
}

#[test]
fn removed_image_goes_at_the_second_flush_and_samplers_at_once() {
    let mut manager = ResourceManager::new();
    let image = manager.add_image();
    manager.remove_image(image);
    manager.flush_frame();
    assert!(manager.contains_image(image));
    let (_, images) = manager.flush_frame();
    assert_eq!(images, vec![image]);
    assert!(!manager.contains_image(image));

    let sampler = manager.add_sampler();
    assert!(manager.contains_sampler(sampler));
    assert!(manager.remove_sampler(sampler));
    assert!(!manager.contains_sampler(sampler));
    assert!(!manager.remove_sampler(sampler));
    assert!(!manager.contains_buffer(BufferKey(12345)));
}
