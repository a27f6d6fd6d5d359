//! A render graph builder that records every pass on one graphics command buffer, with a
//! global memory barrier and image layout barriers before each pass.
use vstd::prelude::*;
use std::collections::HashMap;
use crate::buffer::{BufferUsage, MemoryLocation};
use crate::render_graph::{
    BufferBarrier, BufferGraphResource, BufferRead, BufferResourceDescription, BufferWrite, BufferWrites,
    CommandBuffer, CommandBufferDependency, CompiledRenderGraph, ImageBarrier, ImageBarrierSource,
    ImageGraphResource, ImageIndex, ImageResourceDescription, MemoryBarrier, QueueType, RenderPass,
    RenderPassCommand, RenderPassSet,
};
use crate::render_graph_builder as rgb;
use crate::image::TransientImageDesc;
use crate::resource_managers::{BufferResourceAccess, ImageResourceAccess};
use crate::{BufferHandle, BufferKey, ImageHandle, ImageKey, SurfaceHandle};

verus! {

broadcast use vstd::std_specs::hash::group_hash_axioms;

// ---------------------------------------------------------------------------------------
// Buffers of the graph

/// Buffer `i` of `bufs` is the persistent buffer `key`.
pub open spec fn buffer_is_key(bufs: Seq<BufferGraphResource>, i: int, key: BufferKey) -> bool {
    0 <= i < bufs.len() && bufs[i].description == BufferResourceDescription::Persistent(key)
}

/// No persistent buffer appears twice.
pub open spec fn buffers_unique(bufs: Seq<BufferGraphResource>) -> bool {
    forall|i: int, j: int, k: BufferKey|
        #![trigger buffer_is_key(bufs, i, k), buffer_is_key(bufs, j, k)]
        buffer_is_key(bufs, i, k) && buffer_is_key(bufs, j, k) ==> i == j
}

/// The handle names a buffer of `bufs`.
pub open spec fn buffer_known(bufs: Seq<BufferGraphResource>, h: BufferHandle) -> bool {
    match h {
        BufferHandle::Persistent(k) => exists|i: int| buffer_is_key(bufs, i, k),
        BufferHandle::Transient(i) => i < bufs.len() && bufs[i as int].description is Transient,
    }
}

/// A persistent handle, or a transient handle of a buffer created in this graph.
pub open spec fn buffer_handle_valid(bufs: Seq<BufferGraphResource>, h: BufferHandle) -> bool {
    h is Persistent || buffer_known(bufs, h)
}

/// The index of the buffer that the handle names.
pub open spec fn buffer_index_of(bufs: Seq<BufferGraphResource>, h: BufferHandle) -> int {
    match h {
        BufferHandle::Persistent(k) => choose|i: int| buffer_is_key(bufs, i, k),
        BufferHandle::Transient(i) => i as int,
    }
}

/// The buffers after the handle has been resolved: a persistent buffer seen for the first
/// time is appended, not yet accessed.
pub open spec fn resolve_buffer(bufs: Seq<BufferGraphResource>, h: BufferHandle) -> Seq<BufferGraphResource> {
    match h {
        BufferHandle::Persistent(k) => if buffer_known(bufs, h) {
            bufs
        } else {
            bufs.push(BufferGraphResource {
                description: BufferResourceDescription::Persistent(k),
                last_access: BufferResourceAccess::Unused,
            })
        },
        BufferHandle::Transient(_) => bufs,
    }
}

/// The buffers after resolving the handles in order.
pub open spec fn resolve_buffers(bufs: Seq<BufferGraphResource>, hs: Seq<BufferHandle>) -> Seq<BufferGraphResource>
    decreases hs.len(),
{
    if hs.len() == 0 {
        bufs
    } else {
        resolve_buffer(resolve_buffers(bufs, hs.drop_last()), hs.last())
    }
}

pub proof fn lemma_resolve_buffer(bufs: Seq<BufferGraphResource>, h: BufferHandle)
    requires
        buffers_unique(bufs),
        buffer_handle_valid(bufs, h),
    ensures
        buffers_unique(resolve_buffer(bufs, h)),
        bufs.is_prefix_of(resolve_buffer(bufs, h)),
        buffer_known(resolve_buffer(bufs, h), h),
        0 <= buffer_index_of(resolve_buffer(bufs, h), h) < resolve_buffer(bufs, h).len(),
        forall|g: BufferHandle| buffer_known(bufs, g) ==> buffer_known(resolve_buffer(bufs, h), g)
            && buffer_index_of(resolve_buffer(bufs, h), g) == buffer_index_of(bufs, g),
{
    let after = resolve_buffer(bufs, h);
    if let BufferHandle::Persistent(k) = h {
        if !buffer_known(bufs, h) {
            assert(buffer_is_key(after, bufs.len() as int, k));
            assert forall|i: int, j: int, k2: BufferKey|
                buffer_is_key(after, i, k2) && buffer_is_key(after, j, k2) implies i == j by {
                if i < bufs.len() && j < bufs.len() {
                    assert(buffer_is_key(bufs, i, k2) && buffer_is_key(bufs, j, k2));
                } else if i < bufs.len() {
                    assert(buffer_is_key(bufs, i, k));
                } else if j < bufs.len() {
                    assert(buffer_is_key(bufs, j, k));
                }
            }
        }
    }
    assert forall|g: BufferHandle| buffer_known(bufs, g) implies buffer_known(after, g)
        && buffer_index_of(after, g) == buffer_index_of(bufs, g) by {
        if let BufferHandle::Persistent(k) = g {
            let i = choose|i: int| buffer_is_key(bufs, i, k);
            assert(buffer_is_key(after, i, k));
            let j = buffer_index_of(after, g);
            assert(buffer_is_key(after, j, k));
        }
    }
    if let BufferHandle::Persistent(k) = h {
        let j = buffer_index_of(after, h);
        assert(buffer_is_key(after, j, k));
    }
}

pub proof fn lemma_resolve_buffers(bufs: Seq<BufferGraphResource>, hs: Seq<BufferHandle>)
    requires
        buffers_unique(bufs),
        forall|i: int| 0 <= i < hs.len() ==> buffer_handle_valid(bufs, #[trigger] hs[i]),
    ensures
        buffers_unique(resolve_buffers(bufs, hs)),
        bufs.is_prefix_of(resolve_buffers(bufs, hs)),
        forall|i: int| 0 <= i < hs.len() ==> buffer_known(resolve_buffers(bufs, hs), #[trigger] hs[i]),
        forall|g: BufferHandle| buffer_known(bufs, g) ==> buffer_known(resolve_buffers(bufs, hs), g)
            && buffer_index_of(resolve_buffers(bufs, hs), g) == buffer_index_of(bufs, g),
    decreases hs.len(),
{
    if hs.len() > 0 {
        let prev = hs.drop_last();
        assert forall|i: int| 0 <= i < prev.len() implies buffer_handle_valid(bufs, #[trigger] prev[i]) by {
            assert(prev[i] == hs[i]);
        }
        lemma_resolve_buffers(bufs, prev);
        let mid = resolve_buffers(bufs, prev);
        assert(buffer_handle_valid(bufs, hs[hs.len() - 1]));
        lemma_resolve_buffer(mid, hs.last());
        assert forall|i: int| 0 <= i < hs.len() implies buffer_known(resolve_buffers(bufs, hs), #[trigger] hs[i]) by {
            if i < hs.len() - 1 {
                assert(prev[i] == hs[i]);
            }
        }
    }
}

/// The buffers of a graph under construction, and the index of each persistent buffer.
struct BufferTable {
    resources: Vec<BufferGraphResource>,
    index_map: HashMap<u64, usize>,
}

impl BufferTable {
    spec fn wf(&self) -> bool {
        &&& buffers_unique(self.resources@)
        &&& forall|k: u64| #[trigger] self.index_map@.contains_key(k) ==> buffer_is_key(
            self.resources@,
            self.index_map@[k] as int,
            BufferKey(k),
        )
        &&& forall|i: int, k: BufferKey| #[trigger] buffer_is_key(self.resources@, i, k)
            ==> self.index_map@.contains_key(k.0)
    }

    fn new() -> (t: Self)
        ensures
            t.wf(),
            t.resources@ == Seq::<BufferGraphResource>::empty(),
    {
        BufferTable { resources: Vec::new(), index_map: HashMap::new() }
    }

    /// The index of the buffer that `handle` names, adding a persistent buffer that the
    /// graph has not used yet.
    fn get_buffer_index(&mut self, handle: BufferHandle) -> (index: usize)
        requires
            old(self).wf(),
            buffer_handle_valid(old(self).resources@, handle),
        ensures
            final(self).wf(),
            final(self).resources@ == resolve_buffer(old(self).resources@, handle),
            index == buffer_index_of(final(self).resources@, handle),
    {
        proof {
            lemma_resolve_buffer(self.resources@, handle);
        }
        match handle {
            BufferHandle::Persistent(key) => {
                match self.index_map.get(&key.0) {
                    Some(index) => {
                        let index = *index;
                        assert(buffer_is_key(self.resources@, index as int, key));
                        assert(buffer_known(self.resources@, handle));
                        let ghost j = buffer_index_of(self.resources@, handle);
                        assert(buffer_is_key(self.resources@, j, key));
                        index
                    },
                    None => {
                        proof {
                            if buffer_known(self.resources@, handle) {
                                let i = choose|i: int| buffer_is_key(self.resources@, i, key);
                                assert(self.index_map@.contains_key(key.0));
                            }
                        }
                        let index = self.resources.len();
                        self.resources.push(
                            BufferGraphResource {
                                description: BufferResourceDescription::Persistent(key),
                                last_access: BufferResourceAccess::Unused,
                            },
                        );
                        self.index_map.insert(key.0, index);
                        proof {
                            assert(buffer_is_key(self.resources@, index as int, key));
                            let j = buffer_index_of(self.resources@, handle);
                            assert(buffer_is_key(self.resources@, j, key));
                            assert forall|k: u64| #[trigger] self.index_map@.contains_key(k)
                                implies buffer_is_key(self.resources@, self.index_map@[k] as int, BufferKey(k)) by {
                                if k != key.0 {
                                    assert(old(self).index_map@.contains_key(k));
                                    assert(buffer_is_key(old(self).resources@, old(self).index_map@[k] as int, BufferKey(k)));
                                }
                            }
                            assert forall|i: int, k: BufferKey| #[trigger] buffer_is_key(self.resources@, i, k)
                                implies self.index_map@.contains_key(k.0) by {
                                if i < old(self).resources@.len() {
                                    assert(buffer_is_key(old(self).resources@, i, k));
                                }
                            }
                        }
                        index
                    },
                }
            },
            BufferHandle::Transient(index) => index,
        }
    }

    /// Adds a buffer created inside the graph.
    fn create_transient_buffer(&mut self, size: usize, usage: BufferUsage, location: MemoryLocation) -> (handle: BufferHandle)
        requires
            old(self).wf(),
        ensures
            final(self).wf(),
            final(self).resources@ == old(self).resources@.push(BufferGraphResource {
                description: BufferResourceDescription::Transient { size, usage, location },
                last_access: BufferResourceAccess::Unused,
            }),
            handle == BufferHandle::Transient(old(self).resources@.len() as usize),
    {
        let index = self.resources.len();
        self.resources.push(
            BufferGraphResource {
                description: BufferResourceDescription::Transient { size, usage, location },
                last_access: BufferResourceAccess::Unused,
            },
        );
        proof {
            assert forall|i: int, k: BufferKey| #[trigger] buffer_is_key(self.resources@, i, k)
                implies self.index_map@.contains_key(k.0) by {
                assert(buffer_is_key(old(self).resources@, i, k));
            }
            assert forall|k: u64| #[trigger] self.index_map@.contains_key(k)
                implies buffer_is_key(self.resources@, self.index_map@[k] as int, BufferKey(k)) by {
                assert(buffer_is_key(old(self).resources@, self.index_map@[k] as int, BufferKey(k)));
            }
            assert forall|i: int, j: int, k: BufferKey|
                buffer_is_key(self.resources@, i, k) && buffer_is_key(self.resources@, j, k) implies i == j by {
                assert(buffer_is_key(old(self).resources@, i, k) && buffer_is_key(old(self).resources@, j, k));
            }
        }
        BufferHandle::Transient(index)
    }
}


// ---------------------------------------------------------------------------------------
// Images of the graph

/// Image `i` of `imgs` is the persistent image `key`.
pub open spec fn image_is_key(imgs: Seq<ImageGraphResource>, i: int, key: ImageKey) -> bool {
    0 <= i < imgs.len() && imgs[i].description == ImageResourceDescription::Persistent(key)
}

/// No persistent image appears twice.
pub open spec fn images_unique(imgs: Seq<ImageGraphResource>) -> bool {
    forall|i: int, j: int, k: ImageKey|
        #![trigger image_is_key(imgs, i, k), image_is_key(imgs, j, k)]
        image_is_key(imgs, i, k) && image_is_key(imgs, j, k) ==> i == j
}

/// The handle names an image of `imgs` (a transient handle names an image created in the
/// graph or a swapchain image acquired by it).
pub open spec fn image_known(imgs: Seq<ImageGraphResource>, h: ImageHandle) -> bool {
    match h {
        ImageHandle::Persistent(k) => exists|i: int| image_is_key(imgs, i, k),
        ImageHandle::Transient(i) => i < imgs.len() && !(imgs[i as int].description is Persistent),
    }
}

pub open spec fn image_handle_valid(imgs: Seq<ImageGraphResource>, h: ImageHandle) -> bool {
    h is Persistent || image_known(imgs, h)
}

/// The index of the image that the handle names.
pub open spec fn image_index_of(imgs: Seq<ImageGraphResource>, h: ImageHandle) -> int {
    match h {
        ImageHandle::Persistent(k) => choose|i: int| image_is_key(imgs, i, k),
        ImageHandle::Transient(i) => i as int,
    }
}

/// The images after the handle has been resolved: a persistent image seen for the first
/// time is appended, not yet accessed.
pub open spec fn resolve_image(imgs: Seq<ImageGraphResource>, h: ImageHandle) -> Seq<ImageGraphResource> {
    match h {
        ImageHandle::Persistent(k) => if image_known(imgs, h) {
            imgs
        } else {
            imgs.push(ImageGraphResource {
                description: ImageResourceDescription::Persistent(k),
                first_access: None,
                last_access: None,
            })
        },
        ImageHandle::Transient(_) => imgs,
    }
}

/// The images after resolving the handles in order.
pub open spec fn resolve_images(imgs: Seq<ImageGraphResource>, hs: Seq<ImageHandle>) -> Seq<ImageGraphResource>
    decreases hs.len(),
{
    if hs.len() == 0 {
        imgs
    } else {
        resolve_image(resolve_images(imgs, hs.drop_last()), hs.last())
    }
}

pub proof fn lemma_resolve_image(imgs: Seq<ImageGraphResource>, h: ImageHandle)
    requires
        images_unique(imgs),
        image_handle_valid(imgs, h),
    ensures
        images_unique(resolve_image(imgs, h)),
        imgs.is_prefix_of(resolve_image(imgs, h)),
        image_known(resolve_image(imgs, h), h),
        0 <= image_index_of(resolve_image(imgs, h), h) < resolve_image(imgs, h).len(),
        h is Persistent && !image_known(imgs, h) ==> image_index_of(resolve_image(imgs, h), h) == imgs.len(),
        forall|g: ImageHandle| image_known(imgs, g) ==> image_known(resolve_image(imgs, h), g)
            && image_index_of(resolve_image(imgs, h), g) == image_index_of(imgs, g),
{
    let after = resolve_image(imgs, h);
    if let ImageHandle::Persistent(k) = h {
        if !image_known(imgs, h) {
            assert(image_is_key(after, imgs.len() as int, k));
            assert forall|i: int, j: int, k2: ImageKey|
                image_is_key(after, i, k2) && image_is_key(after, j, k2) implies i == j by {
                if i < imgs.len() && j < imgs.len() {
                    assert(image_is_key(imgs, i, k2) && image_is_key(imgs, j, k2));
                } else if i < imgs.len() {
                    assert(image_is_key(imgs, i, k));
                } else if j < imgs.len() {
                    assert(image_is_key(imgs, j, k));
                }
            }
        }
    }
    assert forall|g: ImageHandle| image_known(imgs, g) implies image_known(after, g)
        && image_index_of(after, g) == image_index_of(imgs, g) by {
        if let ImageHandle::Persistent(k) = g {
            let i = choose|i: int| image_is_key(imgs, i, k);
            assert(image_is_key(after, i, k));
            let j = image_index_of(after, g);
            assert(image_is_key(after, j, k));
        }
    }
    if let ImageHandle::Persistent(k) = h {
        let j = image_index_of(after, h);
        assert(image_is_key(after, j, k));
        if !image_known(imgs, h) {
            assert(image_is_key(after, imgs.len() as int, k));
        }
    }
}

pub proof fn lemma_resolve_images(imgs: Seq<ImageGraphResource>, hs: Seq<ImageHandle>)
    requires
        images_unique(imgs),
        forall|i: int| 0 <= i < hs.len() ==> image_handle_valid(imgs, #[trigger] hs[i]),
    ensures
        images_unique(resolve_images(imgs, hs)),
        imgs.is_prefix_of(resolve_images(imgs, hs)),
        forall|i: int| 0 <= i < hs.len() ==> image_known(resolve_images(imgs, hs), #[trigger] hs[i]),
        forall|g: ImageHandle| image_known(imgs, g) ==> image_known(resolve_images(imgs, hs), g)
            && image_index_of(resolve_images(imgs, hs), g) == image_index_of(imgs, g),
    decreases hs.len(),
{
    if hs.len() > 0 {
        let prev = hs.drop_last();
        assert forall|i: int| 0 <= i < prev.len() implies image_handle_valid(imgs, #[trigger] prev[i]) by {
            assert(prev[i] == hs[i]);
        }
        lemma_resolve_images(imgs, prev);
        let mid = resolve_images(imgs, prev);
        assert(image_handle_valid(imgs, hs[hs.len() - 1]));
        lemma_resolve_image(mid, hs.last());
        assert forall|i: int| 0 <= i < hs.len() implies image_known(resolve_images(imgs, hs), #[trigger] hs[i]) by {
            if i < hs.len() - 1 {
                assert(prev[i] == hs[i]);
            }
        }
    }
}

/// The barrier that precedes an access: from the image's last access in the graph so far
/// (or from whatever the previous frame left, for the first access) to this one.
pub open spec fn image_barrier_for(imgs: Seq<ImageGraphResource>, usage: (usize, ImageResourceAccess)) -> ImageBarrier {
    ImageBarrier {
        index: usage.0,
        src: match imgs[usage.0 as int].last_access {
            None => ImageBarrierSource::FirstUsage,
            Some(a) => ImageBarrierSource::Precalculated(a),
        },
        dst: usage.1,
    }
}

/// Records an access: it becomes the image's last access, and its first if it had none.
pub open spec fn apply_image_usage(imgs: Seq<ImageGraphResource>, usage: (usize, ImageResourceAccess)) -> Seq<ImageGraphResource> {
    let r = imgs[usage.0 as int];
    imgs.update(
        usage.0 as int,
        ImageGraphResource {
            description: r.description,
            first_access: if r.first_access is None { Some(usage.1) } else { r.first_access },
            last_access: Some(usage.1),
        },
    )
}

/// The images after the accesses, in order, and the barrier before each access.
pub open spec fn image_barriers(imgs: Seq<ImageGraphResource>, us: Seq<(usize, ImageResourceAccess)>) -> (Seq<ImageGraphResource>, Seq<ImageBarrier>)
    decreases us.len(),
{
    if us.len() == 0 {
        (imgs, Seq::empty())
    } else {
        let prev = image_barriers(imgs, us.drop_last());
        (apply_image_usage(prev.0, us.last()), prev.1.push(image_barrier_for(prev.0, us.last())))
    }
}

/// Every access is to an image of `imgs`.
pub open spec fn usages_in_bounds(us: Seq<(usize, ImageResourceAccess)>, len: nat) -> bool {
    forall|i: int| 0 <= i < us.len() ==> (#[trigger] us[i]).0 < len
}

pub proof fn lemma_image_barriers_keep_descriptions(imgs: Seq<ImageGraphResource>, us: Seq<(usize, ImageResourceAccess)>)
    requires
        usages_in_bounds(us, imgs.len()),
    ensures
        image_barriers(imgs, us).0.len() == imgs.len(),
        image_barriers(imgs, us).1.len() == us.len(),
        forall|i: int| 0 <= i < imgs.len() ==> (#[trigger] image_barriers(imgs, us).0[i]).description == imgs[i].description,
    decreases us.len(),
{
    if us.len() > 0 {
        let prev = us.drop_last();
        assert forall|i: int| 0 <= i < prev.len() implies (#[trigger] prev[i]).0 < imgs.len() by {
            assert(prev[i] == us[i]);
        }
        lemma_image_barriers_keep_descriptions(imgs, prev);
        assert(us[us.len() - 1].0 < imgs.len());
    }
}

/// The barrier before the `k`-th access is the one computed from the images as they were
/// after the accesses before it.
pub proof fn lemma_image_barriers_prefix(imgs: Seq<ImageGraphResource>, us: Seq<(usize, ImageResourceAccess)>, k: int)
    requires
        0 <= k < us.len(),
    ensures
        image_barriers(imgs, us).1.len() == us.len(),
        image_barriers(imgs, us).1[k] == image_barrier_for(image_barriers(imgs, us.take(k)).0, us[k]),
    decreases us.len(),
{
    let prev = us.drop_last();
    lemma_image_barriers_len(imgs, us);
    lemma_image_barriers_len(imgs, prev);
    if k < us.len() - 1 {
        lemma_image_barriers_prefix(imgs, prev, k);
        assert(prev.take(k) =~= us.take(k));
        assert(prev[k] == us[k]);
    } else {
        assert(us.take(k) =~= prev);
    }
}

proof fn lemma_image_barriers_len(imgs: Seq<ImageGraphResource>, us: Seq<(usize, ImageResourceAccess)>)
    ensures
        image_barriers(imgs, us).1.len() == us.len(),
    decreases us.len(),
{
    if us.len() > 0 {
        lemma_image_barriers_len(imgs, us.drop_last());
    }
}

/// An image that none of the accesses touches is left as it was.
pub proof fn lemma_image_barriers_untouched(imgs: Seq<ImageGraphResource>, us: Seq<(usize, ImageResourceAccess)>, i: int)
    requires
        usages_in_bounds(us, imgs.len()),
        0 <= i < imgs.len(),
        forall|m: int| 0 <= m < us.len() ==> (#[trigger] us[m]).0 != i,
    ensures
        image_barriers(imgs, us).0[i] == imgs[i],
    decreases us.len(),
{
    if us.len() > 0 {
        let prev = us.drop_last();
        assert forall|m: int| 0 <= m < prev.len() implies (#[trigger] prev[m]).0 < imgs.len() && prev[m].0 != i by {
            assert(prev[m] == us[m]);
        }
        lemma_image_barriers_untouched(imgs, prev, i);
        lemma_image_barriers_keep_descriptions(imgs, prev);
        assert(us[us.len() - 1].0 != i);
    }
}

/// The last access to an image becomes its last access.
pub proof fn lemma_image_barriers_last_access(imgs: Seq<ImageGraphResource>, us: Seq<(usize, ImageResourceAccess)>, j: int)
    requires
        usages_in_bounds(us, imgs.len()),
        0 <= j < us.len(),
        forall|m: int| j < m < us.len() ==> (#[trigger] us[m]).0 != us[j].0,
    ensures
        image_barriers(imgs, us).0[us[j].0 as int].last_access == Some(us[j].1),
    decreases us.len(),
{
    let prev = us.drop_last();
    let n = us.len() - 1;
    assert forall|m: int| 0 <= m < prev.len() implies (#[trigger] prev[m]).0 < imgs.len() by {
        assert(prev[m] == us[m]);
    }
    lemma_image_barriers_keep_descriptions(imgs, prev);
    assert(us[n].0 < imgs.len());
    if j < n {
        assert(prev[j] == us[j]);
        assert forall|m: int| j < m < prev.len() implies (#[trigger] prev[m]).0 != prev[j].0 by {
            assert(prev[m] == us[m]);
        }
        lemma_image_barriers_last_access(imgs, prev, j);
    }
}

/// An image with no first access gets the first of the accesses to it as its first; one
/// that had a first access keeps it.
pub proof fn lemma_image_barriers_first_access(imgs: Seq<ImageGraphResource>, us: Seq<(usize, ImageResourceAccess)>, i: int)
    requires
        usages_in_bounds(us, imgs.len()),
        0 <= i < imgs.len(),
    ensures
        imgs[i].first_access is Some ==> image_barriers(imgs, us).0[i].first_access == imgs[i].first_access,
        forall|j: int| 0 <= j < us.len() && us[j].0 == i && (forall|m: int| 0 <= m < j ==> (#[trigger] us[m]).0 != i)
            && imgs[i].first_access is None ==> image_barriers(imgs, us).0[i].first_access == Some(#[trigger] us[j].1),
    decreases us.len(),
{
    if us.len() > 0 {
        let prev = us.drop_last();
        let n = us.len() - 1;
        assert forall|m: int| 0 <= m < prev.len() implies (#[trigger] prev[m]).0 < imgs.len() by {
            assert(prev[m] == us[m]);
        }
        lemma_image_barriers_keep_descriptions(imgs, prev);
        lemma_image_barriers_first_access(imgs, prev, i);
        assert(us[n].0 < imgs.len());
        assert forall|j: int| 0 <= j < us.len() && us[j].0 == i && (forall|m: int| 0 <= m < j ==> (#[trigger] us[m]).0 != i)
            && imgs[i].first_access is None implies image_barriers(imgs, us).0[i].first_access == Some(#[trigger] us[j].1) by {
            if j < n {
                assert(prev[j] == us[j]);
                assert forall|m: int| 0 <= m < j implies (#[trigger] prev[m]).0 != i by {
                    assert(prev[m] == us[m]);
                }
                assert(image_barriers(imgs, prev).0[i].first_access == Some(prev[j].1));
            } else {
                assert forall|m: int| 0 <= m < prev.len() implies (#[trigger] prev[m]).0 != i by {
                    assert(prev[m] == us[m]);
                }
                lemma_image_barriers_untouched(imgs, prev, i);
            }
        }
    }
}

/// Recording accesses changes no image's identity: every handle the graph knew still names
/// the same index.
pub proof fn lemma_image_barriers_keep_indices(
    imgs: Seq<ImageGraphResource>,
    us: Seq<(usize, ImageResourceAccess)>,
    h: ImageHandle,
)
    requires
        images_unique(imgs),
        usages_in_bounds(us, imgs.len()),
        image_known(imgs, h),
    ensures
        images_unique(image_barriers(imgs, us).0),
        image_known(image_barriers(imgs, us).0, h),
        image_index_of(image_barriers(imgs, us).0, h) == image_index_of(imgs, h),
{
    lemma_image_barriers_keep_descriptions(imgs, us);
    let after = image_barriers(imgs, us).0;
    assert forall|i: int, k: ImageKey| image_is_key(after, i, k) == image_is_key(imgs, i, k) by {
        if 0 <= i < imgs.len() {
            assert(after[i].description == imgs[i].description);
        }
    }
    if let ImageHandle::Persistent(k) = h {
        let i = choose|i: int| image_is_key(imgs, i, k);
        assert(image_is_key(after, i, k));
        let j = image_index_of(after, h);
        assert(image_is_key(after, j, k));
        assert(image_is_key(imgs, j, k));
    } else {
        assert(after[image_index_of(imgs, h)].description == imgs[image_index_of(imgs, h)].description);
    }
}

/// Each access is preceded by a barrier from the previous access to the same image: from
/// the last earlier access in the same sequence if there is one, else from the access the
/// image had before (or from the previous frame's use, marked `FirstUsage`, if it had none).
pub proof fn lemma_barrier_source_is_previous_access(
    imgs: Seq<ImageGraphResource>,
    us: Seq<(usize, ImageResourceAccess)>,
)
    requires
        usages_in_bounds(us, imgs.len()),
    ensures
        image_barriers(imgs, us).1.len() == us.len(),
        forall|k: int| 0 <= k < us.len() ==> (#[trigger] image_barriers(imgs, us).1[k]).index == us[k].0
            && image_barriers(imgs, us).1[k].dst == us[k].1,
        forall|j: int, k: int|
            0 <= j < k < us.len() && us[j].0 == us[k].0 && (forall|m: int| j < m < k ==> (#[trigger] us[m]).0 != us[k].0)
            ==> (#[trigger] image_barriers(imgs, us).1[k]).src == ImageBarrierSource::Precalculated(#[trigger] us[j].1),
        forall|k: int|
            0 <= k < us.len() && (forall|m: int| 0 <= m < k ==> (#[trigger] us[m]).0 != us[k].0)
            ==> (#[trigger] image_barriers(imgs, us).1[k]).src == match imgs[us[k].0 as int].last_access {
                None => ImageBarrierSource::FirstUsage,
                Some(a) => ImageBarrierSource::Precalculated(a),
            },
{
    lemma_image_barriers_len(imgs, us);
    assert forall|k: int| 0 <= k < us.len() implies (#[trigger] image_barriers(imgs, us).1[k]).index == us[k].0
        && image_barriers(imgs, us).1[k].dst == us[k].1 by {
        lemma_image_barriers_prefix(imgs, us, k);
    }
    assert forall|j: int, k: int|
        0 <= j < k < us.len() && us[j].0 == us[k].0 && (forall|m: int| j < m < k ==> (#[trigger] us[m]).0 != us[k].0)
        implies (#[trigger] image_barriers(imgs, us).1[k]).src == ImageBarrierSource::Precalculated(#[trigger] us[j].1) by {
        lemma_image_barriers_prefix(imgs, us, k);
        let pre = us.take(k);
        assert forall|i: int| 0 <= i < pre.len() implies (#[trigger] pre[i]).0 < imgs.len() by {
            assert(pre[i] == us[i]);
        }
        assert(pre[j] == us[j]);
        assert forall|m: int| j < m < pre.len() implies (#[trigger] pre[m]).0 != pre[j].0 by {
            assert(pre[m] == us[m]);
        }
        lemma_image_barriers_last_access(imgs, pre, j);
    }
    assert forall|k: int|
        0 <= k < us.len() && (forall|m: int| 0 <= m < k ==> (#[trigger] us[m]).0 != us[k].0)
        implies (#[trigger] image_barriers(imgs, us).1[k]).src == match imgs[us[k].0 as int].last_access {
            None => ImageBarrierSource::FirstUsage,
            Some(a) => ImageBarrierSource::Precalculated(a),
        } by {
        lemma_image_barriers_prefix(imgs, us, k);
        let pre = us.take(k);
        assert forall|i: int| 0 <= i < pre.len() implies (#[trigger] pre[i]).0 < imgs.len() by {
            assert(pre[i] == us[i]);
        }
        assert(us[k].0 < imgs.len());
        assert forall|m: int| 0 <= m < pre.len() implies (#[trigger] pre[m]).0 != us[k].0 by {
            assert(pre[m] == us[m]);
        }
        lemma_image_barriers_untouched(imgs, pre, us[k].0 as int);
    }
}

/// The images of a graph under construction, and the index of each persistent image.
struct ImageTable {
    resources: Vec<ImageGraphResource>,
    index_map: HashMap<u64, usize>,
}

impl ImageTable {
    spec fn wf(&self) -> bool {
        &&& images_unique(self.resources@)
        &&& forall|k: u64| #[trigger] self.index_map@.contains_key(k) ==> image_is_key(
            self.resources@,
            self.index_map@[k] as int,
            ImageKey(k),
        )
        &&& forall|i: int, k: ImageKey| #[trigger] image_is_key(self.resources@, i, k)
            ==> self.index_map@.contains_key(k.0)
    }

    /// The table stays well formed when the images keep their descriptions.
    proof fn lemma_same_descriptions(&self, other: Seq<ImageGraphResource>)
        requires
            self.wf(),
            other.len() == self.resources@.len(),
            forall|i: int| 0 <= i < other.len() ==> (#[trigger] other[i]).description == self.resources@[i].description,
        ensures
            (ImageTable { resources: self.resources, index_map: self.index_map }).wf(),
            images_unique(other),
            forall|i: int, k: ImageKey| image_is_key(other, i, k) == image_is_key(self.resources@, i, k),
    {
        assert forall|i: int, k: ImageKey| image_is_key(other, i, k) == image_is_key(self.resources@, i, k) by {
            if 0 <= i < other.len() {
                assert(other[i].description == self.resources@[i].description);
            }
        }
    }

    fn new() -> (t: Self)
        ensures
            t.wf(),
            t.resources@ == Seq::<ImageGraphResource>::empty(),
    {
        ImageTable { resources: Vec::new(), index_map: HashMap::new() }
    }

    /// The index of the image that `handle` names, adding a persistent image that the
    /// graph has not used yet.
    fn get_image_index(&mut self, handle: ImageHandle) -> (index: usize)
        requires
            old(self).wf(),
            image_handle_valid(old(self).resources@, handle),
        ensures
            final(self).wf(),
            final(self).resources@ == resolve_image(old(self).resources@, handle),
            index == image_index_of(final(self).resources@, handle),
            handle is Persistent && !image_known(old(self).resources@, handle) ==> index == old(self).resources@.len(),
    {
        proof {
            lemma_resolve_image(self.resources@, handle);
        }
        match handle {
            ImageHandle::Persistent(key) => {
                match self.index_map.get(&key.0) {
                    Some(index) => {
                        let index = *index;
                        assert(image_is_key(self.resources@, index as int, key));
                        assert(image_known(self.resources@, handle));
                        let ghost j = image_index_of(self.resources@, handle);
                        assert(image_is_key(self.resources@, j, key));
                        index
                    },
                    None => {
                        proof {
                            if image_known(self.resources@, handle) {
                                let i = choose|i: int| image_is_key(self.resources@, i, key);
                                assert(self.index_map@.contains_key(key.0));
                            }
                        }
                        let index = self.resources.len();
                        self.resources.push(
                            ImageGraphResource {
                                description: ImageResourceDescription::Persistent(key),
                                first_access: None,
                                last_access: None,
                            },
                        );
                        self.index_map.insert(key.0, index);
                        proof {
                            assert(image_is_key(self.resources@, index as int, key));
                            let j = image_index_of(self.resources@, handle);
                            assert(image_is_key(self.resources@, j, key));
                            assert forall|k: u64| #[trigger] self.index_map@.contains_key(k)
                                implies image_is_key(self.resources@, self.index_map@[k] as int, ImageKey(k)) by {
                                if k != key.0 {
                                    assert(old(self).index_map@.contains_key(k));
                                    assert(image_is_key(old(self).resources@, old(self).index_map@[k] as int, ImageKey(k)));
                                }
                            }
                            assert forall|i: int, k: ImageKey| #[trigger] image_is_key(self.resources@, i, k)
                                implies self.index_map@.contains_key(k.0) by {
                                if i < old(self).resources@.len() {
                                    assert(image_is_key(old(self).resources@, i, k));
                                }
                            }
                        }
                        index
                    },
                }
            },
            ImageHandle::Transient(index) => index,
        }
    }

    /// Adds an image that is not persistent (created in the graph, or a swapchain image).
    fn push_graph_image(&mut self, description: ImageResourceDescription) -> (handle: ImageHandle)
        requires
            old(self).wf(),
            !(description is Persistent),
        ensures
            final(self).wf(),
            final(self).resources@ == old(self).resources@.push(ImageGraphResource {
                description,
                first_access: None,
                last_access: None,
            }),
            handle == ImageHandle::Transient(old(self).resources@.len() as usize),
    {
        let index = self.resources.len();
        self.resources.push(ImageGraphResource { description, first_access: None, last_access: None });
        proof {
            assert forall|i: int, k: ImageKey| #[trigger] image_is_key(self.resources@, i, k)
                implies self.index_map@.contains_key(k.0) by {
                assert(image_is_key(old(self).resources@, i, k));
            }
            assert forall|k: u64| #[trigger] self.index_map@.contains_key(k)
                implies image_is_key(self.resources@, self.index_map@[k] as int, ImageKey(k)) by {
                assert(image_is_key(old(self).resources@, self.index_map@[k] as int, ImageKey(k)));
            }
            assert forall|i: int, j: int, k: ImageKey|
                image_is_key(self.resources@, i, k) && image_is_key(self.resources@, j, k) implies i == j by {
                assert(image_is_key(old(self).resources@, i, k) && image_is_key(old(self).resources@, j, k));
            }
        }
        ImageHandle::Transient(index)
    }

    /// Records the accesses in order and returns the barrier before each of them.
    fn create_image_barriers(&mut self, image_usages: &[(usize, ImageResourceAccess)]) -> (barriers: Vec<ImageBarrier>)
        requires
            old(self).wf(),
            usages_in_bounds(image_usages@, old(self).resources@.len()),
        ensures
            final(self).wf(),
            (final(self).resources@, barriers@) == image_barriers(old(self).resources@, image_usages@),
    {
        let mut barriers: Vec<ImageBarrier> = Vec::new();
        let mut i: usize = 0;
        while i < image_usages.len()
            invariant
                i <= image_usages@.len(),
                old(self).wf(),
                usages_in_bounds(image_usages@, old(self).resources@.len()),
                (self.resources@, barriers@) == image_barriers(old(self).resources@, image_usages@.take(i as int)),
                self.index_map@ == old(self).index_map@,
            decreases image_usages@.len() - i,
        {
            let ghost prefix = image_usages@.take(i as int);
            assert(image_usages@.take(i + 1).drop_last() =~= prefix);
            assert forall|j: int| 0 <= j < prefix.len() implies (#[trigger] prefix[j]).0 < old(self).resources@.len() by {
                assert(prefix[j] == image_usages@[j]);
            }
            proof {
                lemma_image_barriers_keep_descriptions(old(self).resources@, prefix);
            }
            let (image_index, dst_access) = image_usages[i];
            assert(image_usages@[i as int].0 < old(self).resources@.len());
            let r = self.resources[image_index];
            let first_access = if r.first_access.is_none() { Some(dst_access) } else { r.first_access };
            let src = match r.last_access {
                None => ImageBarrierSource::FirstUsage,
                Some(access) => ImageBarrierSource::Precalculated(access),
            };
            self.resources.set(
                image_index,
                ImageGraphResource { description: r.description, first_access, last_access: Some(dst_access) },
            );
            barriers.push(ImageBarrier { index: image_index, src, dst: dst_access });
            i = i + 1;
        }
        proof {
            assert(image_usages@.take(i as int) =~= image_usages@);
            lemma_image_barriers_keep_descriptions(old(self).resources@, image_usages@);
            old(self).lemma_same_descriptions(self.resources@);
        }
        barriers
    }
}

// ---------------------------------------------------------------------------------------
// Resolving the handles that a pass names

impl BufferTable {
    /// Resolves the handles in order.
    fn resolve_all(&mut self, handles: &Vec<BufferHandle>)
        requires
            old(self).wf(),
            forall|i: int| 0 <= i < handles@.len() ==> buffer_handle_valid(old(self).resources@, #[trigger] handles@[i]),
        ensures
            final(self).wf(),
            final(self).resources@ == resolve_buffers(old(self).resources@, handles@),
    {
        let mut i: usize = 0;
        while i < handles.len()
            invariant
                i <= handles@.len(),
                self.wf(),
                buffers_unique(old(self).resources@),
                forall|j: int| 0 <= j < handles@.len() ==> buffer_handle_valid(old(self).resources@, #[trigger] handles@[j]),
                self.resources@ == resolve_buffers(old(self).resources@, handles@.take(i as int)),
            decreases handles@.len() - i,
        {
            let ghost prefix = handles@.take(i as int);
            assert(handles@.take(i + 1).drop_last() =~= prefix);
            assert forall|j: int| 0 <= j < prefix.len() implies buffer_handle_valid(old(self).resources@, #[trigger] prefix[j]) by {
                assert(prefix[j] == handles@[j]);
            }
            proof {
                lemma_resolve_buffers(old(self).resources@, prefix);
                assert(buffer_handle_valid(old(self).resources@, handles@[i as int]));
                if let BufferHandle::Transient(_) = handles@[i as int] {
                    assert(buffer_known(self.resources@, handles@[i as int]));
                }
            }
            self.get_buffer_index(handles[i]);
            i = i + 1;
        }
        assert(handles@.take(i as int) =~= handles@);
    }
}

impl ImageTable {
    /// Resolves the images of the accesses in order.
    fn resolve_all(&mut self, usages: &Vec<(ImageHandle, ImageResourceAccess)>)
        requires
            old(self).wf(),
            forall|i: int| 0 <= i < usages@.len() ==> image_handle_valid(old(self).resources@, (#[trigger] usages@[i]).0),
        ensures
            final(self).wf(),
            final(self).resources@ == resolve_images(old(self).resources@, crate::render_graph_builder::usage_handles(usages@)),
    {
        let ghost hs = crate::render_graph_builder::usage_handles(usages@);
        let mut i: usize = 0;
        while i < usages.len()
            invariant
                i <= usages@.len(),
                hs == crate::render_graph_builder::usage_handles(usages@),
                self.wf(),
                images_unique(old(self).resources@),
                forall|j: int| 0 <= j < usages@.len() ==> image_handle_valid(old(self).resources@, (#[trigger] usages@[j]).0),
                self.resources@ == resolve_images(old(self).resources@, hs.take(i as int)),
            decreases usages@.len() - i,
        {
            let ghost prefix = hs.take(i as int);
            assert(hs.take(i + 1).drop_last() =~= prefix);
            assert forall|j: int| 0 <= j < prefix.len() implies image_handle_valid(old(self).resources@, #[trigger] prefix[j]) by {
                assert(prefix[j] == usages@[j].0);
            }
            proof {
                lemma_resolve_images(old(self).resources@, prefix);
                assert(image_handle_valid(old(self).resources@, usages@[i as int].0));
                assert(hs[i as int] == usages@[i as int].0);
                if let ImageHandle::Transient(_) = usages@[i as int].0 {
                    assert(image_known(self.resources@, usages@[i as int].0));
                }
            }
            let (handle, _) = usages[i];
            self.get_image_index(handle);
            i = i + 1;
        }
        assert(hs.take(i as int) =~= hs);
    }

    /// The accesses with their images replaced by indices; every image must be known.
    fn index_usages(&mut self, usages: &Vec<(ImageHandle, ImageResourceAccess)>) -> (indexed: Vec<(usize, ImageResourceAccess)>)
        requires
            old(self).wf(),
            forall|i: int| 0 <= i < usages@.len() ==> image_known(old(self).resources@, (#[trigger] usages@[i]).0),
        ensures
            final(self).wf(),
            final(self).resources@ == old(self).resources@,
            indexed@ == compile_usages(usages@, old(self).resources@),
            usages_in_bounds(indexed@, old(self).resources@.len()),
    {
        let mut indexed: Vec<(usize, ImageResourceAccess)> = Vec::new();
        let mut i: usize = 0;
        while i < usages.len()
            invariant
                i <= usages@.len(),
                self.wf(),
                self.resources@ == old(self).resources@,
                forall|j: int| 0 <= j < usages@.len() ==> image_known(old(self).resources@, (#[trigger] usages@[j]).0),
                indexed@ == compile_usages(usages@.take(i as int), old(self).resources@),
                usages_in_bounds(indexed@, old(self).resources@.len()),
            decreases usages@.len() - i,
        {
            let (handle, access) = usages[i];
            proof {
                assert(image_known(self.resources@, usages@[i as int].0));
                lemma_known_image_index(self.resources@, handle);
            }
            let index = self.get_image_index(handle);
            indexed.push((index, access));
            i = i + 1;
            assert(compile_usages(usages@.take(i as int), old(self).resources@) =~= indexed@);
        }
        assert(usages@.take(i as int) =~= usages@);
        indexed
    }
}

/// Accesses with their images replaced by their indices in `imgs`.
pub open spec fn compile_usages(us: Seq<(ImageHandle, ImageResourceAccess)>, imgs: Seq<ImageGraphResource>) -> Seq<(usize, ImageResourceAccess)> {
    us.map_values(|u: (ImageHandle, ImageResourceAccess)| (image_index_of(imgs, u.0) as usize, u.1))
}

/// A known image resolves to itself, at an index within bounds.
pub proof fn lemma_known_image_index(imgs: Seq<ImageGraphResource>, h: ImageHandle)
    requires
        image_known(imgs, h),
    ensures
        resolve_image(imgs, h) == imgs,
        0 <= image_index_of(imgs, h) < imgs.len(),
{
    if let ImageHandle::Persistent(k) = h {
        let j = image_index_of(imgs, h);
        assert(image_is_key(imgs, j, k));
    }
}

/// A known buffer resolves to itself, at an index within bounds.
pub proof fn lemma_known_buffer_index(bufs: Seq<BufferGraphResource>, h: BufferHandle)
    requires
        buffer_known(bufs, h),
    ensures
        resolve_buffer(bufs, h) == bufs,
        0 <= buffer_index_of(bufs, h) < bufs.len(),
{
    if let BufferHandle::Persistent(k) = h {
        let j = buffer_index_of(bufs, h);
        assert(buffer_is_key(bufs, j, k));
    }
}

// ---------------------------------------------------------------------------------------
// From handles to indices

pub open spec fn all_buffers_known(bufs: Seq<BufferGraphResource>, hs: Seq<BufferHandle>) -> bool {
    forall|i: int| 0 <= i < hs.len() ==> buffer_known(bufs, #[trigger] hs[i])
}

pub open spec fn all_images_known(imgs: Seq<ImageGraphResource>, us: Seq<(ImageHandle, ImageResourceAccess)>) -> bool {
    forall|i: int| 0 <= i < us.len() ==> image_known(imgs, (#[trigger] us[i]).0)
}

pub open spec fn all_buffers_valid(bufs: Seq<BufferGraphResource>, hs: Seq<BufferHandle>) -> bool {
    forall|i: int| 0 <= i < hs.len() ==> buffer_handle_valid(bufs, #[trigger] hs[i])
}

pub open spec fn all_images_valid(imgs: Seq<ImageGraphResource>, us: Seq<(ImageHandle, ImageResourceAccess)>) -> bool {
    forall|i: int| 0 <= i < us.len() ==> image_handle_valid(imgs, (#[trigger] us[i]).0)
}

pub open spec fn compile_buffer_offset(b: rgb::BufferOffset, bufs: Seq<BufferGraphResource>) -> crate::render_graph::BufferOffset {
    crate::render_graph::BufferOffset { buffer: buffer_index_of(bufs, b.buffer) as usize, offset: b.offset as u64 }
}

pub open spec fn compile_image_copy_buffer(b: rgb::ImageCopyBuffer, bufs: Seq<BufferGraphResource>) -> crate::render_graph::ImageCopyBuffer {
    crate::render_graph::ImageCopyBuffer {
        buffer: buffer_index_of(bufs, b.buffer) as usize,
        offset: b.offset,
        row_length: b.row_length,
        row_height: b.row_height,
    }
}

pub open spec fn compile_image_copy_image(i: rgb::ImageCopyImage, imgs: Seq<ImageGraphResource>) -> crate::render_graph::ImageCopyImage {
    crate::render_graph::ImageCopyImage { image: image_index_of(imgs, i.image) as usize, offset: i.offset }
}

/// The transfer with its handles replaced by indices.
pub open spec fn compile_transfer(
    t: rgb::Transfer,
    bufs: Seq<BufferGraphResource>,
    imgs: Seq<ImageGraphResource>,
) -> crate::render_graph::Transfer {
    match t {
        rgb::Transfer::CopyBufferToBuffer { src, dst, copy_size } => crate::render_graph::Transfer::BufferToBuffer {
            src: compile_buffer_offset(src, bufs),
            dst: compile_buffer_offset(dst, bufs),
            copy_size,
        },
        rgb::Transfer::CopyBufferToImage { src, dst, copy_size } => crate::render_graph::Transfer::BufferToImage {
            src: compile_image_copy_buffer(src, bufs),
            dst: compile_image_copy_image(dst, imgs),
            copy_size,
        },
        rgb::Transfer::CopyImageToBuffer { src, dst, copy_size } => crate::render_graph::Transfer::ImageToBuffer {
            src: compile_image_copy_image(src, imgs),
            dst: compile_image_copy_buffer(dst, bufs),
            copy_size,
        },
        rgb::Transfer::CopyImageToImage { src, dst, copy_size } => crate::render_graph::Transfer::ImageToImage {
            src: compile_image_copy_image(src, imgs),
            dst: compile_image_copy_image(dst, imgs),
            copy_size,
        },
    }
}

/// The shader resource with its handles replaced by indices.
pub open spec fn compile_resource(
    r: rgb::ShaderResourceUsage,
    bufs: Seq<BufferGraphResource>,
    imgs: Seq<ImageGraphResource>,
) -> crate::render_graph::ShaderResourceUsage {
    match r {
        rgb::ShaderResourceUsage::StorageBuffer { buffer, write } => crate::render_graph::ShaderResourceUsage::StorageBuffer {
            buffer: buffer_index_of(bufs, buffer) as usize,
            write,
        },
        rgb::ShaderResourceUsage::StorageImage { image, write } => crate::render_graph::ShaderResourceUsage::StorageImage {
            image: image_index_of(imgs, image) as usize,
            write,
        },
        rgb::ShaderResourceUsage::SampledImage(image) => crate::render_graph::ShaderResourceUsage::SampledImage(
            image_index_of(imgs, image) as usize,
        ),
        rgb::ShaderResourceUsage::Sampler(sampler) => crate::render_graph::ShaderResourceUsage::Sampler(sampler),
    }
}

/// The global barrier recorded before every pass: all commands, all memory reads and
/// writes (`VK_PIPELINE_STAGE_2_ALL_COMMANDS_BIT`, `VK_ACCESS_2_MEMORY_READ_BIT |
/// VK_ACCESS_2_MEMORY_WRITE_BIT`).
pub open spec fn full_memory_barrier() -> MemoryBarrier {
    MemoryBarrier {
        src_stage_mask: 0x10000,
        src_access_mask: 0x18000,
        dst_stage_mask: 0x10000,
        dst_access_mask: 0x18000,
    }
}

/// The pass set recorded for one pass: the global barrier, no buffer barriers, the image
/// barriers of its accesses, and the pass itself.
pub open spec fn is_pass_set(
    set: RenderPassSet,
    name: Seq<char>,
    color: [u32; 4],
    image_barriers: Seq<ImageBarrier>,
) -> bool {
    &&& set.memory_barriers@ == seq![full_memory_barrier()]
    &&& set.buffer_barriers@.len() == 0
    &&& set.image_barriers@ == image_barriers
    &&& set.render_passes@.len() == 1
    &&& set.render_passes@[0].label_name@ == name
    &&& set.render_passes@[0].label_color == color
    &&& set.render_passes@[0].command is Some
}

/// The `j`-th acquired swapchain image is the graph's image that stands for swapchain
/// entry `j`.
pub open spec fn swapchains_coherent(swapchains: Seq<(SurfaceHandle, ImageIndex)>, imgs: Seq<ImageGraphResource>) -> bool {
    forall|j: int|
        0 <= j < swapchains.len() ==> (#[trigger] swapchains[j]).1 < imgs.len() && imgs[swapchains[j].1 as int].description
            == ImageResourceDescription::Swapchain(j as usize)
}

/// A render graph under construction: one command buffer on the graphics queue, a global
/// memory barrier before each pass, and image barriers from each image's previous access.
pub struct BasicRenderGraphBuilder {
    buffers: BufferTable,
    images: ImageTable,
    buffer_writes: Vec<BufferWrite>,
    buffer_reads: Vec<BufferRead>,
    swapchain_images: Vec<(SurfaceHandle, ImageIndex)>,
    command_buffer: CommandBuffer,
}

impl BasicRenderGraphBuilder {
    /// The buffers the graph uses, by index.
    pub closed spec fn buffer_resources(&self) -> Seq<BufferGraphResource> {
        self.buffers.resources@
    }

    /// The images the graph uses, by index.
    pub closed spec fn image_resources(&self) -> Seq<ImageGraphResource> {
        self.images.resources@
    }

    /// The passes recorded so far, each in a pass set of its own.
    pub closed spec fn pass_sets(&self) -> Seq<RenderPassSet> {
        self.command_buffer.render_pass_sets@
    }

    pub closed spec fn buffer_writes(&self) -> Seq<BufferWrite> {
        self.buffer_writes@
    }

    pub closed spec fn buffer_reads(&self) -> Seq<BufferRead> {
        self.buffer_reads@
    }

    /// The surfaces whose swapchain images the graph acquired, with the image's index.
    pub closed spec fn swapchain_images(&self) -> Seq<(SurfaceHandle, ImageIndex)> {
        self.swapchain_images@
    }

    pub closed spec fn wf(&self) -> bool {
        &&& self.buffers.wf()
        &&& self.images.wf()
        &&& swapchains_coherent(self.swapchain_images@, self.images.resources@)
        &&& self.command_buffer.queue == crate::render_graph::Queue::Graphics
        &&& self.command_buffer.command_buffer_wait_dependencies@.len() == 0
        &&& self.command_buffer.command_buffer_signal_dependencies@.len() == 0
    }

    /// An empty graph.
    pub fn new() -> (b: Self)
        ensures
            b.wf(),
            b.buffer_resources() == Seq::<BufferGraphResource>::empty(),
            b.image_resources() == Seq::<ImageGraphResource>::empty(),
            b.pass_sets() == Seq::<RenderPassSet>::empty(),
            b.buffer_writes() == Seq::<BufferWrite>::empty(),
            b.buffer_reads() == Seq::<BufferRead>::empty(),
            b.swapchain_images() == Seq::<(SurfaceHandle, ImageIndex)>::empty(),
    {
        BasicRenderGraphBuilder {
            buffers: BufferTable::new(),
            images: ImageTable::new(),
            buffer_writes: Vec::new(),
            buffer_reads: Vec::new(),
            swapchain_images: Vec::new(),
            command_buffer: CommandBuffer::new(),
        }
    }

    fn get_buffer_offset(&mut self, buffer_offset: rgb::BufferOffset) -> (b: crate::render_graph::BufferOffset)
        requires
            old(self).wf(),
            buffer_handle_valid(old(self).buffer_resources(), buffer_offset.buffer),
        ensures
            final(self).wf(),
            final(self).buffer_resources() == resolve_buffer(old(self).buffer_resources(), buffer_offset.buffer),
            b == compile_buffer_offset(buffer_offset, final(self).buffer_resources()),
            final(self).image_resources() == old(self).image_resources(),
            final(self).pass_sets() == old(self).pass_sets(),
            final(self).buffer_writes() == old(self).buffer_writes(),
            final(self).buffer_reads() == old(self).buffer_reads(),
            final(self).swapchain_images() == old(self).swapchain_images(),
    {
        let buffer = self.buffers.get_buffer_index(buffer_offset.buffer);
        crate::render_graph::BufferOffset { buffer, offset: buffer_offset.offset as u64 }
    }

    fn get_image_copy_buffer(&mut self, buffer: rgb::ImageCopyBuffer) -> (b: crate::render_graph::ImageCopyBuffer)
        requires
            old(self).wf(),
            buffer_handle_valid(old(self).buffer_resources(), buffer.buffer),
        ensures
            final(self).wf(),
            final(self).buffer_resources() == resolve_buffer(old(self).buffer_resources(), buffer.buffer),
            b == compile_image_copy_buffer(buffer, final(self).buffer_resources()),
            final(self).image_resources() == old(self).image_resources(),
            final(self).pass_sets() == old(self).pass_sets(),
            final(self).buffer_writes() == old(self).buffer_writes(),
            final(self).buffer_reads() == old(self).buffer_reads(),
            final(self).swapchain_images() == old(self).swapchain_images(),
    {
        let index = self.buffers.get_buffer_index(buffer.buffer);
        crate::render_graph::ImageCopyBuffer {
            buffer: index,
            offset: buffer.offset,
            row_length: buffer.row_length,
            row_height: buffer.row_height,
        }
    }

    /// The index of the image that `image_handle` names, adding a persistent image that
    /// the graph has not used yet.
    pub fn get_image_index(&mut self, image_handle: ImageHandle) -> (index: ImageIndex)
        requires
            old(self).wf(),
            image_handle_valid(old(self).image_resources(), image_handle),
        ensures
            final(self).wf(),
            final(self).image_resources() == resolve_image(old(self).image_resources(), image_handle),
            index == image_index_of(final(self).image_resources(), image_handle),
            image_known(old(self).image_resources(), image_handle) ==> index == image_index_of(
                old(self).image_resources(),
                image_handle,
            ),
            image_handle is Persistent && !image_known(old(self).image_resources(), image_handle)
                ==> index == old(self).image_resources().len(),
            forall|i: int| #![trigger image_is_key(old(self).image_resources(), i, image_handle->Persistent_0)]
                image_handle is Persistent && image_is_key(old(self).image_resources(), i, image_handle->Persistent_0)
                    ==> index == i,
            final(self).buffer_resources() == old(self).buffer_resources(),
            final(self).pass_sets() == old(self).pass_sets(),
            final(self).buffer_writes() == old(self).buffer_writes(),
            final(self).buffer_reads() == old(self).buffer_reads(),
            final(self).swapchain_images() == old(self).swapchain_images(),
    {
        proof {
            lemma_resolve_image(self.images.resources@, image_handle);
        }
        let index = self.images.get_image_index(image_handle);
        proof {
            if let ImageHandle::Persistent(k) = image_handle {
                assert forall|i: int| image_is_key(old(self).image_resources(), i, k) implies index == i by {
                    assert(image_is_key(self.image_resources(), i, k));
                    assert(image_is_key(self.image_resources(), index as int, k));
                }
            }
        }
        index
    }

    fn get_image_copy_image(&mut self, image: rgb::ImageCopyImage) -> (i: crate::render_graph::ImageCopyImage)
        requires
            old(self).wf(),
            image_handle_valid(old(self).image_resources(), image.image),
        ensures
            final(self).wf(),
            final(self).image_resources() == resolve_image(old(self).image_resources(), image.image),
            i == compile_image_copy_image(image, final(self).image_resources()),
            final(self).buffer_resources() == old(self).buffer_resources(),
            final(self).pass_sets() == old(self).pass_sets(),
            final(self).buffer_writes() == old(self).buffer_writes(),
            final(self).buffer_reads() == old(self).buffer_reads(),
            final(self).swapchain_images() == old(self).swapchain_images(),
    {
        let index = self.get_image_index(image.image);
        crate::render_graph::ImageCopyImage { image: index, offset: image.offset }
    }
}



/// The buffers and image accesses of the transfers, in the order the builder resolves them.
fn transfer_visits(transfers: &[rgb::Transfer]) -> (visits: (Vec<BufferHandle>, Vec<(ImageHandle, ImageResourceAccess)>))
    ensures
        visits.0@ == rgb::transfers_buffer_handles(transfers@),
        visits.1@ == rgb::transfers_image_usages(transfers@),
{
    let mut buffers: Vec<BufferHandle> = Vec::new();
    let mut images: Vec<(ImageHandle, ImageResourceAccess)> = Vec::new();
    let mut i: usize = 0;
    while i < transfers.len()
        invariant
            i <= transfers@.len(),
            buffers@ == rgb::transfers_buffer_handles(transfers@.take(i as int)),
            images@ == rgb::transfers_image_usages(transfers@.take(i as int)),
        decreases transfers@.len() - i,
    {
        proof {
            rgb::lemma_concat_map_take(transfers@, |t: rgb::Transfer| t.buffer_handles(), i as int);
            rgb::lemma_concat_map_take(transfers@, |t: rgb::Transfer| t.image_usages(), i as int);
        }
        match transfers[i] {
            rgb::Transfer::CopyBufferToBuffer { src, dst, .. } => {
                buffers.push(src.buffer);
                buffers.push(dst.buffer);
            },
            rgb::Transfer::CopyBufferToImage { src, dst, .. } => {
                buffers.push(src.buffer);
                images.push((dst.image, ImageResourceAccess::TransferWrite));
            },
            rgb::Transfer::CopyImageToBuffer { src, dst, .. } => {
                images.push((src.image, ImageResourceAccess::TransferRead));
                buffers.push(dst.buffer);
            },
            rgb::Transfer::CopyImageToImage { src, dst, .. } => {
                images.push((src.image, ImageResourceAccess::TransferRead));
                images.push((dst.image, ImageResourceAccess::TransferWrite));
            },
        }
        i = i + 1;
        assert(buffers@ =~= rgb::transfers_buffer_handles(transfers@.take(i as int)));
        assert(images@ =~= rgb::transfers_image_usages(transfers@.take(i as int)));
    }
    assert(transfers@.take(i as int) =~= transfers@);
    (buffers, images)
}

/// Buffer barriers are not tracked: every pass is preceded by a global memory barrier.
fn create_buffer_barriers(buffer_usages: &[(usize, BufferResourceAccess)]) -> (barriers: Vec<BufferBarrier>)
    ensures
        barriers@.len() == 0,
{
    Vec::new()
}

impl BasicRenderGraphBuilder {
    /// Records a pass in a pass set of its own, after the barriers its image accesses need.
    fn add_render_pass(
        &mut self,
        label_name: String,
        label_color: [u32; 4],
        image_usages: &Vec<(usize, ImageResourceAccess)>,
        command: Option<RenderPassCommand>,
    )
        requires
            old(self).wf(),
            usages_in_bounds(image_usages@, old(self).image_resources().len()),
            command is Some,
        ensures
            final(self).wf(),
            final(self).image_resources() == image_barriers(old(self).image_resources(), image_usages@).0,
            final(self).pass_sets().len() == old(self).pass_sets().len() + 1,
            final(self).pass_sets().drop_last() == old(self).pass_sets(),
            is_pass_set(
                final(self).pass_sets().last(),
                label_name@,
                label_color,
                image_barriers(old(self).image_resources(), image_usages@).1,
            ),
            final(self).pass_sets().last().render_passes@[0].command == command,
            final(self).buffer_resources() == old(self).buffer_resources(),
            final(self).buffer_writes() == old(self).buffer_writes(),
            final(self).buffer_reads() == old(self).buffer_reads(),
            final(self).swapchain_images() == old(self).swapchain_images(),
    {
        let buffer_barriers = create_buffer_barriers(&[]);
        proof {
            lemma_image_barriers_keep_descriptions(self.images.resources@, image_usages@);
        }
        let image_barriers = self.images.create_image_barriers(image_usages.as_slice());
        let memory_barrier = MemoryBarrier {
            src_stage_mask: 0x10000,
            src_access_mask: 0x18000,
            dst_stage_mask: 0x10000,
            dst_access_mask: 0x18000,
        };
        let ghost name = label_name@;
        let mut memory_barriers: Vec<MemoryBarrier> = Vec::new();
        memory_barriers.push(memory_barrier);
        let mut render_passes: Vec<RenderPass> = Vec::new();
        render_passes.push(RenderPass { label_name, label_color, command });
        self.command_buffer.render_pass_sets.push(
            RenderPassSet { memory_barriers, buffer_barriers, image_barriers, render_passes },
        );
        assert(self.pass_sets().drop_last() =~= old(self).pass_sets());
        assert(self.pass_sets().last().memory_barriers@ =~= seq![full_memory_barrier()]);
    }

    /// Records a pass of copies between buffers and images.
    pub fn add_transfer_pass(&mut self, name: String, color: [u32; 4], queue: QueueType, transfers: &[rgb::Transfer])
        requires
            old(self).wf(),
            all_buffers_valid(old(self).buffer_resources(), rgb::transfers_buffer_handles(transfers@)),
            all_images_valid(old(self).image_resources(), rgb::transfers_image_usages(transfers@)),
        ensures
            ({
                let bufs = resolve_buffers(old(self).buffer_resources(), rgb::transfers_buffer_handles(transfers@));
                let usages = rgb::transfers_image_usages(transfers@);
                let imgs = resolve_images(old(self).image_resources(), rgb::usage_handles(usages));
                let barriers = image_barriers(imgs, compile_usages(usages, imgs));
                &&& final(self).wf()
                &&& final(self).buffer_resources() == bufs
                &&& final(self).image_resources() == barriers.0
                &&& final(self).pass_sets().drop_last() == old(self).pass_sets()
                &&& final(self).pass_sets().len() == old(self).pass_sets().len() + 1
                &&& is_pass_set(final(self).pass_sets().last(), name@, color, barriers.1)
                &&& final(self).pass_sets().last().render_passes@[0].command matches Some(
                    RenderPassCommand::Transfer { transfers: out },
                ) && out@ == transfers@.map_values(|t: rgb::Transfer| compile_transfer(t, bufs, imgs))
            }),
            final(self).buffer_writes() == old(self).buffer_writes(),
            final(self).buffer_reads() == old(self).buffer_reads(),
            final(self).swapchain_images() == old(self).swapchain_images(),
    {
        let ghost ts = transfers@;
        let (buffer_visits, image_visits) = transfer_visits(transfers);
        proof {
            lemma_resolve_buffers(self.buffers.resources@, buffer_visits@);
            lemma_resolve_images(self.images.resources@, rgb::usage_handles(image_visits@));
        }
        self.buffers.resolve_all(&buffer_visits);
        self.images.resolve_all(&image_visits);
        let ghost bufs = self.buffers.resources@;
        let ghost imgs = self.images.resources@;
        proof {
            assert forall|i: int| 0 <= i < image_visits@.len() implies image_known(imgs, (#[trigger] image_visits@[i]).0) by {
                assert(rgb::usage_handles(image_visits@)[i] == image_visits@[i].0);
            }
        }
        let mut compiled: Vec<crate::render_graph::Transfer> = Vec::new();
        let mut i: usize = 0;
        while i < transfers.len()
            invariant
                i <= ts.len(),
                ts == transfers@,
                self.wf(),
                self.buffers.resources@ == bufs,
                self.images.resources@ == imgs,
                buffer_visits@ == rgb::transfers_buffer_handles(ts),
                image_visits@ == rgb::transfers_image_usages(ts),
                all_buffers_known(bufs, buffer_visits@),
                forall|j: int| 0 <= j < image_visits@.len() ==> image_known(imgs, (#[trigger] image_visits@[j]).0),
                compiled@ == ts.take(i as int).map_values(|t: rgb::Transfer| compile_transfer(t, bufs, imgs)),
                self.pass_sets() == old(self).pass_sets(),
                self.buffer_writes() == old(self).buffer_writes(),
                self.buffer_reads() == old(self).buffer_reads(),
                self.swapchain_images() == old(self).swapchain_images(),
            decreases ts.len() - i,
        {
            let t = transfers[i];
            proof {
                let fb = |t: rgb::Transfer| t.buffer_handles();
                let fi = |t: rgb::Transfer| t.image_usages();
                assert forall|j: int| 0 <= j < t.buffer_handles().len() implies buffer_known(bufs, #[trigger] t.buffer_handles()[j]) by {
                    rgb::lemma_concat_map_contains(ts, fb, i as int, j);
                    let k = choose|k: int| 0 <= k < buffer_visits@.len() && buffer_visits@[k] == fb(ts[i as int])[j];
                }
                assert forall|j: int| 0 <= j < t.image_usages().len() implies image_known(imgs, (#[trigger] t.image_usages()[j]).0) by {
                    rgb::lemma_concat_map_contains(ts, fi, i as int, j);
                    let k = choose|k: int| 0 <= k < image_visits@.len() && image_visits@[k] == fi(ts[i as int])[j];
                }
            }
            let c = match t {
                rgb::Transfer::CopyBufferToBuffer { src, dst, copy_size } => {
                    assert(buffer_known(bufs, t.buffer_handles()[0]));
                    assert(buffer_known(bufs, t.buffer_handles()[1]));
                    proof { lemma_known_buffer_index(bufs, src.buffer); lemma_known_buffer_index(bufs, dst.buffer); }
                    let src = self.get_buffer_offset(src);
                    let dst = self.get_buffer_offset(dst);
                    crate::render_graph::Transfer::BufferToBuffer { src, dst, copy_size }
                },
                rgb::Transfer::CopyBufferToImage { src, dst, copy_size } => {
                    assert(buffer_known(bufs, t.buffer_handles()[0]));
                    assert(image_known(imgs, t.image_usages()[0].0));
                    proof { lemma_known_buffer_index(bufs, src.buffer); lemma_known_image_index(imgs, dst.image); }
                    let src = self.get_image_copy_buffer(src);
                    let dst = self.get_image_copy_image(dst);
                    crate::render_graph::Transfer::BufferToImage { src, dst, copy_size }
                },
                rgb::Transfer::CopyImageToBuffer { src, dst, copy_size } => {
                    assert(buffer_known(bufs, t.buffer_handles()[0]));
                    assert(image_known(imgs, t.image_usages()[0].0));
                    proof { lemma_known_buffer_index(bufs, dst.buffer); lemma_known_image_index(imgs, src.image); }
                    let src = self.get_image_copy_image(src);
                    let dst = self.get_image_copy_buffer(dst);
                    crate::render_graph::Transfer::ImageToBuffer { src, dst, copy_size }
                },
                rgb::Transfer::CopyImageToImage { src, dst, copy_size } => {
                    assert(image_known(imgs, t.image_usages()[0].0));
                    assert(image_known(imgs, t.image_usages()[1].0));
                    proof { lemma_known_image_index(imgs, src.image); lemma_known_image_index(imgs, dst.image); }
                    let src = self.get_image_copy_image(src);
                    let dst = self.get_image_copy_image(dst);
                    crate::render_graph::Transfer::ImageToImage { src, dst, copy_size }
                },
            };
            compiled.push(c);
            i = i + 1;
            assert(compiled@ =~= ts.take(i as int).map_values(|t: rgb::Transfer| compile_transfer(t, bufs, imgs)));
        }
        assert(ts.take(i as int) =~= ts);
        let indexed = self.images.index_usages(&image_visits);
        self.add_render_pass(name, color, &indexed, Some(RenderPassCommand::Transfer { transfers: compiled }));
    }
}


/// Appends the buffers and image accesses of the shader resources, in order.
fn resource_visits(
    resources: &[rgb::ShaderResourceUsage],
    buffers: &mut Vec<BufferHandle>,
    images: &mut Vec<(ImageHandle, ImageResourceAccess)>,
)
    ensures
        final(buffers)@ == old(buffers)@ + rgb::resources_buffer_handles(resources@),
        final(images)@ == old(images)@ + rgb::resources_image_usages(resources@),
{
    let ghost b0 = buffers@;
    let ghost i0 = images@;
    let mut i: usize = 0;
    while i < resources.len()
        invariant
            i <= resources@.len(),
            buffers@ == b0 + rgb::resources_buffer_handles(resources@.take(i as int)),
            images@ == i0 + rgb::resources_image_usages(resources@.take(i as int)),
        decreases resources@.len() - i,
    {
        proof {
            rgb::lemma_concat_map_take(resources@, |r: rgb::ShaderResourceUsage| r.buffer_handles(), i as int);
            rgb::lemma_concat_map_take(resources@, |r: rgb::ShaderResourceUsage| r.image_usages(), i as int);
        }
        match resources[i] {
            rgb::ShaderResourceUsage::StorageBuffer { buffer, .. } => {
                buffers.push(buffer);
            },
            rgb::ShaderResourceUsage::StorageImage { image, write } => {
                images.push((image, if write { ImageResourceAccess::StorageWrite } else { ImageResourceAccess::StorageRead }));
            },
            rgb::ShaderResourceUsage::SampledImage(image) => {
                images.push((image, ImageResourceAccess::SampledRead));
            },
            rgb::ShaderResourceUsage::Sampler(_) => {},
        }
        i = i + 1;
        assert(buffers@ =~= b0 + rgb::resources_buffer_handles(resources@.take(i as int)));
        assert(images@ =~= i0 + rgb::resources_image_usages(resources@.take(i as int)));
    }
    assert(resources@.take(i as int) =~= resources@);
}

pub open spec fn compile_compute_dispatch(d: rgb::ComputeDispatch, bufs: Seq<BufferGraphResource>) -> crate::render_graph::ComputeDispatch {
    match d {
        rgb::ComputeDispatch::Size(size) => crate::render_graph::ComputeDispatch::Size(size),
        rgb::ComputeDispatch::Indirect(b) => crate::render_graph::ComputeDispatch::Indirect(compile_buffer_offset(b, bufs)),
    }
}

/// Elements of a sub-sequence that occur in `whole` keep whatever holds of all of `whole`.
pub proof fn lemma_known_buffers_sub(bufs: Seq<BufferGraphResource>, whole: Seq<BufferHandle>, part: Seq<BufferHandle>)
    requires
        all_buffers_known(bufs, whole),
        forall|j: int| 0 <= j < part.len() ==> whole.contains(#[trigger] part[j]),
    ensures
        all_buffers_known(bufs, part),
{
    assert forall|j: int| 0 <= j < part.len() implies buffer_known(bufs, #[trigger] part[j]) by {
        assert(whole.contains(part[j]));
        let k = choose|k: int| 0 <= k < whole.len() && whole[k] == part[j];
    }
}

pub proof fn lemma_known_images_sub(
    imgs: Seq<ImageGraphResource>,
    whole: Seq<(ImageHandle, ImageResourceAccess)>,
    part: Seq<(ImageHandle, ImageResourceAccess)>,
)
    requires
        all_images_known(imgs, whole),
        forall|j: int| 0 <= j < part.len() ==> whole.contains(#[trigger] part[j]),
    ensures
        all_images_known(imgs, part),
{
    assert forall|j: int| 0 <= j < part.len() implies image_known(imgs, (#[trigger] part[j]).0) by {
        assert(whole.contains(part[j]));
        let k = choose|k: int| 0 <= k < whole.len() && whole[k] == part[j];
    }
}

/// After resolving `hs`, every handle of `hs` is known.
pub proof fn lemma_resolved_buffers_known(bufs: Seq<BufferGraphResource>, hs: Seq<BufferHandle>)
    requires
        buffers_unique(bufs),
        all_buffers_valid(bufs, hs),
    ensures
        all_buffers_known(resolve_buffers(bufs, hs), hs),
        buffers_unique(resolve_buffers(bufs, hs)),
        bufs.is_prefix_of(resolve_buffers(bufs, hs)),
{
    lemma_resolve_buffers(bufs, hs);
}

/// After resolving the images of `us`, every image of `us` is known.
pub proof fn lemma_resolved_images_known(imgs: Seq<ImageGraphResource>, us: Seq<(ImageHandle, ImageResourceAccess)>)
    requires
        images_unique(imgs),
        all_images_valid(imgs, us),
    ensures
        all_images_known(resolve_images(imgs, crate::render_graph_builder::usage_handles(us)), us),
        images_unique(resolve_images(imgs, crate::render_graph_builder::usage_handles(us))),
        imgs.is_prefix_of(resolve_images(imgs, crate::render_graph_builder::usage_handles(us))),
{
    let hs = crate::render_graph_builder::usage_handles(us);
    assert forall|i: int| 0 <= i < hs.len() implies image_handle_valid(imgs, #[trigger] hs[i]) by {
        assert(hs[i] == us[i].0);
    }
    lemma_resolve_images(imgs, hs);
    assert forall|i: int| 0 <= i < us.len() implies image_known(resolve_images(imgs, hs), (#[trigger] us[i]).0) by {
        assert(hs[i] == us[i].0);
    }
}

impl BasicRenderGraphBuilder {
    /// The shader resources with their handles replaced by indices; all must be known.
    fn get_shader_resource_access(&mut self, resources: &[rgb::ShaderResourceUsage]) -> (compiled: Vec<crate::render_graph::ShaderResourceUsage>)
        requires
            old(self).wf(),
            all_buffers_known(old(self).buffer_resources(), rgb::resources_buffer_handles(resources@)),
            all_images_known(old(self).image_resources(), rgb::resources_image_usages(resources@)),
        ensures
            final(self).wf(),
            final(self).buffer_resources() == old(self).buffer_resources(),
            final(self).image_resources() == old(self).image_resources(),
            final(self).pass_sets() == old(self).pass_sets(),
            final(self).buffer_writes() == old(self).buffer_writes(),
            final(self).buffer_reads() == old(self).buffer_reads(),
            final(self).swapchain_images() == old(self).swapchain_images(),
            compiled@ == resources@.map_values(
                |r: rgb::ShaderResourceUsage| compile_resource(r, old(self).buffer_resources(), old(self).image_resources()),
            ),
    {
        let ghost bufs = self.buffer_resources();
        let ghost imgs = self.image_resources();
        let ghost rs = resources@;
        let mut compiled: Vec<crate::render_graph::ShaderResourceUsage> = Vec::new();
        let mut i: usize = 0;
        while i < resources.len()
            invariant
                i <= rs.len(),
                rs == resources@,
                bufs == self.buffer_resources(),
                imgs == self.image_resources(),
                self.pass_sets() == old(self).pass_sets(),
                self.buffer_writes() == old(self).buffer_writes(),
                self.buffer_reads() == old(self).buffer_reads(),
                self.swapchain_images() == old(self).swapchain_images(),
                self.wf(),
                all_buffers_known(bufs, rgb::resources_buffer_handles(rs)),
                all_images_known(imgs, rgb::resources_image_usages(rs)),
                compiled@ == rs.take(i as int).map_values(|r: rgb::ShaderResourceUsage| compile_resource(r, bufs, imgs)),
            decreases rs.len() - i,
        {
            let r = resources[i];
            proof {
                let fb = |r: rgb::ShaderResourceUsage| r.buffer_handles();
                let fi = |r: rgb::ShaderResourceUsage| r.image_usages();
                assert forall|j: int| 0 <= j < r.buffer_handles().len() implies rgb::resources_buffer_handles(rs).contains(#[trigger] r.buffer_handles()[j]) by {
                    rgb::lemma_concat_map_contains(rs, fb, i as int, j);
                }
                assert forall|j: int| 0 <= j < r.image_usages().len() implies rgb::resources_image_usages(rs).contains(#[trigger] r.image_usages()[j]) by {
                    rgb::lemma_concat_map_contains(rs, fi, i as int, j);
                }
                lemma_known_buffers_sub(bufs, rgb::resources_buffer_handles(rs), r.buffer_handles());
                lemma_known_images_sub(imgs, rgb::resources_image_usages(rs), r.image_usages());
            }
            let c = match r {
                rgb::ShaderResourceUsage::StorageBuffer { buffer, write } => {
                    assert(buffer_known(bufs, r.buffer_handles()[0]));
                    proof { lemma_known_buffer_index(bufs, buffer); }
                    let buffer = self.buffers.get_buffer_index(buffer);
                    crate::render_graph::ShaderResourceUsage::StorageBuffer { buffer, write }
                },
                rgb::ShaderResourceUsage::StorageImage { image, write } => {
                    assert(image_known(imgs, r.image_usages()[0].0));
                    proof { lemma_known_image_index(imgs, image); }
                    let image = self.images.get_image_index(image);
                    crate::render_graph::ShaderResourceUsage::StorageImage { image, write }
                },
                rgb::ShaderResourceUsage::SampledImage(image) => {
                    assert(image_known(imgs, r.image_usages()[0].0));
                    proof { lemma_known_image_index(imgs, image); }
                    let image = self.images.get_image_index(image);
                    crate::render_graph::ShaderResourceUsage::SampledImage(image)
                },
                rgb::ShaderResourceUsage::Sampler(sampler) => crate::render_graph::ShaderResourceUsage::Sampler(sampler),
            };
            compiled.push(c);
            i = i + 1;
            assert(compiled@ =~= rs.take(i as int).map_values(|r: rgb::ShaderResourceUsage| compile_resource(r, bufs, imgs)));
        }
        assert(rs.take(i as int) =~= rs);
        compiled
    }

    /// Records a compute dispatch with the shader resources it reads and writes.
    pub fn add_compute_pass(
        &mut self,
        name: String,
        color: [u32; 4],
        queue: QueueType,
        pipeline: crate::ComputePipelineHandle,
        dispatch: rgb::ComputeDispatch,
        resources: &[rgb::ShaderResourceUsage],
    )
        requires
            old(self).wf(),
            all_buffers_valid(
                old(self).buffer_resources(),
                rgb::resources_buffer_handles(resources@) + dispatch.buffer_handles(),
            ),
            all_images_valid(old(self).image_resources(), rgb::resources_image_usages(resources@)),
        ensures
            ({
                let bufs = resolve_buffers(
                    old(self).buffer_resources(),
                    rgb::resources_buffer_handles(resources@) + dispatch.buffer_handles(),
                );
                let usages = rgb::resources_image_usages(resources@);
                let imgs = resolve_images(old(self).image_resources(), rgb::usage_handles(usages));
                let barriers = image_barriers(imgs, compile_usages(usages, imgs));
                &&& final(self).wf()
                &&& final(self).buffer_resources() == bufs
                &&& final(self).image_resources() == barriers.0
                &&& final(self).pass_sets().drop_last() == old(self).pass_sets()
                &&& final(self).pass_sets().len() == old(self).pass_sets().len() + 1
                &&& is_pass_set(final(self).pass_sets().last(), name@, color, barriers.1)
                &&& final(self).pass_sets().last().render_passes@[0].command matches Some(
                    RenderPassCommand::Compute { pipeline: p, resources: rs, dispatch: d },
                ) && p == pipeline && d == compile_compute_dispatch(dispatch, bufs) && rs@ == resources@.map_values(
                    |r: rgb::ShaderResourceUsage| compile_resource(r, bufs, imgs),
                )
            }),
            final(self).buffer_writes() == old(self).buffer_writes(),
            final(self).buffer_reads() == old(self).buffer_reads(),
            final(self).swapchain_images() == old(self).swapchain_images(),
    {
        let mut buffer_visits: Vec<BufferHandle> = Vec::new();
        let mut image_visits: Vec<(ImageHandle, ImageResourceAccess)> = Vec::new();
        resource_visits(resources, &mut buffer_visits, &mut image_visits);
        match dispatch {
            rgb::ComputeDispatch::Size(_) => {},
            rgb::ComputeDispatch::Indirect(b) => {
                buffer_visits.push(b.buffer);
            },
        }
        assert(buffer_visits@ =~= rgb::resources_buffer_handles(resources@) + dispatch.buffer_handles());
        assert(image_visits@ =~= rgb::resources_image_usages(resources@));
        proof {
            lemma_resolved_buffers_known(self.buffers.resources@, buffer_visits@);
            lemma_resolved_images_known(self.images.resources@, image_visits@);
        }
        self.buffers.resolve_all(&buffer_visits);
        self.images.resolve_all(&image_visits);
        let ghost bufs = self.buffers.resources@;
        let ghost imgs = self.images.resources@;
        proof {
            let whole = buffer_visits@;
            let part = rgb::resources_buffer_handles(resources@);
            assert forall|j: int| 0 <= j < part.len() implies whole.contains(#[trigger] part[j]) by {
                assert(whole[j] == part[j]);
            }
            lemma_known_buffers_sub(bufs, whole, part);
        }
        let compiled_resources = self.get_shader_resource_access(resources);
        let compiled_dispatch = match dispatch {
            rgb::ComputeDispatch::Size(size) => crate::render_graph::ComputeDispatch::Size(size),
            rgb::ComputeDispatch::Indirect(b) => {
                proof {
                    let whole = buffer_visits@;
                    assert(whole[whole.len() - 1] == b.buffer);
                    lemma_known_buffer_index(bufs, b.buffer);
                }
                crate::render_graph::ComputeDispatch::Indirect(self.get_buffer_offset(b))
            },
        };
        let indexed = self.images.index_usages(&image_visits);
        self.add_render_pass(
            name,
            color,
            &indexed,
            Some(RenderPassCommand::Compute { pipeline, resources: compiled_resources, dispatch: compiled_dispatch }),
        );
    }
}


/// Appends the buffers and image accesses of the draw commands, in the order the builder
/// resolves them.
fn draw_visits(
    draws: &[rgb::RasterDrawCommand],
    buffers: &mut Vec<BufferHandle>,
    images: &mut Vec<(ImageHandle, ImageResourceAccess)>,
)
    ensures
        final(buffers)@ == old(buffers)@ + rgb::draws_buffer_handles(draws@),
        final(images)@ == old(images)@ + rgb::draws_image_usages(draws@),
{
    let ghost b0 = buffers@;
    let ghost i0 = images@;
    let mut i: usize = 0;
    while i < draws.len()
        invariant
            i <= draws@.len(),
            buffers@ == b0 + rgb::draws_buffer_handles(draws@.take(i as int)),
            images@ == i0 + rgb::draws_image_usages(draws@.take(i as int)),
        decreases draws@.len() - i,
    {
        proof {
            rgb::lemma_concat_map_take(draws@, |d: rgb::RasterDrawCommand| d.buffer_handles(), i as int);
            rgb::lemma_concat_map_take(draws@, |d: rgb::RasterDrawCommand| d.image_usages(), i as int);
        }
        let d = &draws[i];
        let ghost before = buffers@;
        let mut j: usize = 0;
        while j < d.vertex_buffers.len()
            invariant
                j <= d.vertex_buffers@.len(),
                buffers@ == before + d.vertex_buffers@.take(j as int).map_values(|b: rgb::BufferOffset| b.buffer),
            decreases d.vertex_buffers@.len() - j,
        {
            buffers.push(d.vertex_buffers[j].buffer);
            j = j + 1;
            assert(buffers@ =~= before + d.vertex_buffers@.take(j as int).map_values(|b: rgb::BufferOffset| b.buffer));
        }
        assert(d.vertex_buffers@.take(j as int) =~= d.vertex_buffers@);
        resource_visits(d.resources.as_slice(), buffers, images);
        match &d.dispatch {
            rgb::DrawCommandDispatch::Draw { .. } => {},
            rgb::DrawCommandDispatch::DrawIndexed { index_buffer, .. } => {
                buffers.push(index_buffer.buffer);
            },
            rgb::DrawCommandDispatch::DrawIndirect { indirect_buffer, .. } => {
                buffers.push(indirect_buffer.buffer);
            },
            rgb::DrawCommandDispatch::DrawIndirectIndexed { indirect_buffer, index_buffer, .. } => {
                buffers.push(index_buffer.buffer);
                buffers.push(indirect_buffer.buffer);
            },
        }
        i = i + 1;
        assert(buffers@ =~= b0 + rgb::draws_buffer_handles(draws@.take(i as int)));
        assert(images@ =~= i0 + rgb::draws_image_usages(draws@.take(i as int)));
    }
    assert(draws@.take(i as int) =~= draws@);
}

pub open spec fn compile_draw_dispatch(d: rgb::DrawCommandDispatch, bufs: Seq<BufferGraphResource>) -> crate::render_graph::DrawCommandDispatch {
    match d {
        rgb::DrawCommandDispatch::Draw { vertices, instances } => crate::render_graph::DrawCommandDispatch::Draw {
            vertices,
            instances,
        },
        rgb::DrawCommandDispatch::DrawIndexed { base_vertex, indices, instances, index_buffer, index_type } =>
            crate::render_graph::DrawCommandDispatch::DrawIndexed {
                base_vertex,
                indices,
                instances,
                index_buffer: compile_buffer_offset(index_buffer, bufs),
                index_type,
            },
        rgb::DrawCommandDispatch::DrawIndirect { indirect_buffer, draw_count, stride } =>
            crate::render_graph::DrawCommandDispatch::DrawIndirect {
                indirect_buffer: compile_buffer_offset(indirect_buffer, bufs),
                draw_count,
                stride,
            },
        rgb::DrawCommandDispatch::DrawIndirectIndexed { indirect_buffer, draw_count, stride, index_buffer, index_type } =>
            crate::render_graph::DrawCommandDispatch::DrawIndirectIndexed {
                indirect_buffer: compile_buffer_offset(indirect_buffer, bufs),
                draw_count,
                stride,
                index_buffer: compile_buffer_offset(index_buffer, bufs),
                index_type,
            },
    }
}

/// `out` is the draw command `d` with its handles replaced by indices.
pub open spec fn draw_compiled(
    out: crate::render_graph::RasterDrawCommand,
    d: rgb::RasterDrawCommand,
    bufs: Seq<BufferGraphResource>,
    imgs: Seq<ImageGraphResource>,
) -> bool {
    &&& out.pipeline == d.pipeline
    &&& out.vertex_buffers@ == d.vertex_buffers@.map_values(|b: rgb::BufferOffset| compile_buffer_offset(b, bufs))
    &&& out.resources@ == d.resources@.map_values(|r: rgb::ShaderResourceUsage| compile_resource(r, bufs, imgs))
    &&& out.dispatch == compile_draw_dispatch(d.dispatch, bufs)
}

pub open spec fn compile_color_attachment(c: rgb::ColorAttachment, imgs: Seq<ImageGraphResource>) -> crate::render_graph::ColorAttachment {
    crate::render_graph::ColorAttachment { image: image_index_of(imgs, c.image) as usize, clear: c.clear }
}

pub open spec fn compile_depth_attachment(
    d: Option<rgb::DepthStencilAttachment>,
    imgs: Seq<ImageGraphResource>,
) -> Option<crate::render_graph::DepthStencilAttachment> {
    match d {
        Some(a) => Some(crate::render_graph::DepthStencilAttachment { image: image_index_of(imgs, a.image) as usize, clear: a.clear }),
        None => None,
    }
}

impl BasicRenderGraphBuilder {
    /// The draw command with its handles replaced by indices; all must be known.
    fn compile_draw_command(&mut self, d: &rgb::RasterDrawCommand) -> (out: crate::render_graph::RasterDrawCommand)
        requires
            old(self).wf(),
            all_buffers_known(old(self).buffer_resources(), d.buffer_handles()),
            all_images_known(old(self).image_resources(), d.image_usages()),
        ensures
            final(self).wf(),
            final(self).buffer_resources() == old(self).buffer_resources(),
            final(self).image_resources() == old(self).image_resources(),
            final(self).pass_sets() == old(self).pass_sets(),
            final(self).buffer_writes() == old(self).buffer_writes(),
            final(self).buffer_reads() == old(self).buffer_reads(),
            final(self).swapchain_images() == old(self).swapchain_images(),
            draw_compiled(out, *d, old(self).buffer_resources(), old(self).image_resources()),
    {
        let ghost bufs = self.buffer_resources();
        let ghost imgs = self.image_resources();
        let ghost vb = d.vertex_buffers@.map_values(|b: rgb::BufferOffset| b.buffer);
        let ghost rb = rgb::resources_buffer_handles(d.resources@);
        let ghost db = d.dispatch.buffer_handles();
        assert(d.buffer_handles() == vb + rb + db);
        let mut vertex_buffers: Vec<crate::render_graph::BufferOffset> = Vec::new();
        let mut j: usize = 0;
        while j < d.vertex_buffers.len()
            invariant
                j <= d.vertex_buffers@.len(),
                self.wf(),
                bufs == self.buffer_resources(),
                imgs == self.image_resources(),
                self.pass_sets() == old(self).pass_sets(),
                self.buffer_writes() == old(self).buffer_writes(),
                self.buffer_reads() == old(self).buffer_reads(),
                self.swapchain_images() == old(self).swapchain_images(),
                all_buffers_known(bufs, vb + rb + db),
                vb == d.vertex_buffers@.map_values(|b: rgb::BufferOffset| b.buffer),
                vertex_buffers@ == d.vertex_buffers@.take(j as int).map_values(|b: rgb::BufferOffset| compile_buffer_offset(b, bufs)),
            decreases d.vertex_buffers@.len() - j,
        {
            let b = d.vertex_buffers[j];
            assert((vb + rb + db)[j as int] == b.buffer);
            proof { lemma_known_buffer_index(bufs, b.buffer); }
            vertex_buffers.push(self.get_buffer_offset(b));
            j = j + 1;
            assert(vertex_buffers@ =~= d.vertex_buffers@.take(j as int).map_values(|b: rgb::BufferOffset| compile_buffer_offset(b, bufs)));
        }
        assert(d.vertex_buffers@.take(j as int) =~= d.vertex_buffers@);
        assert forall|k: int| 0 <= k < rb.len() implies buffer_known(bufs, #[trigger] rb[k]) by {
            assert((vb + rb + db)[vb.len() + k] == rb[k]);
        }
        let resources = self.get_shader_resource_access(d.resources.as_slice());
        let dispatch = match &d.dispatch {
            rgb::DrawCommandDispatch::Draw { vertices, instances } => crate::render_graph::DrawCommandDispatch::Draw {
                vertices: std::ops::Range { start: vertices.start, end: vertices.end },
                instances: std::ops::Range { start: instances.start, end: instances.end },
            },
            rgb::DrawCommandDispatch::DrawIndexed { base_vertex, indices, instances, index_buffer, index_type } => {
                assert((vb + rb + db)[(vb.len() + rb.len()) as int] == index_buffer.buffer);
                proof { lemma_known_buffer_index(bufs, index_buffer.buffer); }
                let index_buffer = self.get_buffer_offset(*index_buffer);
                crate::render_graph::DrawCommandDispatch::DrawIndexed {
                    base_vertex: *base_vertex,
                    indices: std::ops::Range { start: indices.start, end: indices.end },
                    instances: std::ops::Range { start: instances.start, end: instances.end },
                    index_buffer,
                    index_type: *index_type,
                }
            },
            rgb::DrawCommandDispatch::DrawIndirect { indirect_buffer, draw_count, stride } => {
                assert((vb + rb + db)[(vb.len() + rb.len()) as int] == indirect_buffer.buffer);
                proof { lemma_known_buffer_index(bufs, indirect_buffer.buffer); }
                let indirect_buffer = self.get_buffer_offset(*indirect_buffer);
                crate::render_graph::DrawCommandDispatch::DrawIndirect {
                    indirect_buffer,
                    draw_count: *draw_count,
                    stride: *stride,
                }
            },
            rgb::DrawCommandDispatch::DrawIndirectIndexed { indirect_buffer, draw_count, stride, index_buffer, index_type } => {
                assert((vb + rb + db)[(vb.len() + rb.len()) as int] == index_buffer.buffer);
                assert((vb + rb + db)[(vb.len() + rb.len() + 1) as int] == indirect_buffer.buffer);
                proof {
                    lemma_known_buffer_index(bufs, index_buffer.buffer);
                    lemma_known_buffer_index(bufs, indirect_buffer.buffer);
                }
                let index_buffer = self.get_buffer_offset(*index_buffer);
                let indirect_buffer = self.get_buffer_offset(*indirect_buffer);
                crate::render_graph::DrawCommandDispatch::DrawIndirectIndexed {
                    indirect_buffer,
                    draw_count: *draw_count,
                    stride: *stride,
                    index_buffer,
                    index_type: *index_type,
                }
            },
        };
        crate::render_graph::RasterDrawCommand { pipeline: d.pipeline, vertex_buffers, resources, dispatch }
    }

    /// Records a raster pass: its attachments, then its draw commands.
    pub fn add_raster_pass(
        &mut self,
        name: String,
        color: [u32; 4],
        color_attachments: &[rgb::ColorAttachment],
        depth_stencil_attachment: Option<rgb::DepthStencilAttachment>,
        raster_draw_commands: &[rgb::RasterDrawCommand],
    )
        requires
            old(self).wf(),
            all_buffers_valid(old(self).buffer_resources(), rgb::draws_buffer_handles(raster_draw_commands@)),
            all_images_valid(
                old(self).image_resources(),
                rgb::attachment_usages(color_attachments@, depth_stencil_attachment) + rgb::draws_image_usages(
                    raster_draw_commands@,
                ),
            ),
        ensures
            ({
                let bufs = resolve_buffers(old(self).buffer_resources(), rgb::draws_buffer_handles(raster_draw_commands@));
                let usages = rgb::attachment_usages(color_attachments@, depth_stencil_attachment) + rgb::draws_image_usages(
                    raster_draw_commands@,
                );
                let imgs = resolve_images(old(self).image_resources(), rgb::usage_handles(usages));
                let barriers = image_barriers(imgs, compile_usages(usages, imgs));
                &&& final(self).wf()
                &&& final(self).buffer_resources() == bufs
                &&& final(self).image_resources() == barriers.0
                &&& final(self).pass_sets().drop_last() == old(self).pass_sets()
                &&& final(self).pass_sets().len() == old(self).pass_sets().len() + 1
                &&& is_pass_set(final(self).pass_sets().last(), name@, color, barriers.1)
                &&& final(self).pass_sets().last().render_passes@[0].command matches Some(
                    RenderPassCommand::Raster { framebuffer: fb, draw_commands: dc },
                ) && fb.color_attachments@ == color_attachments@.map_values(
                    |c: rgb::ColorAttachment| compile_color_attachment(c, imgs),
                ) && fb.depth_stencil_attachment == compile_depth_attachment(depth_stencil_attachment, imgs)
                    && dc@.len() == raster_draw_commands@.len() && forall|i: int|
                    0 <= i < dc@.len() ==> draw_compiled(#[trigger] dc@[i], raster_draw_commands@[i], bufs, imgs)
            }),
            final(self).buffer_writes() == old(self).buffer_writes(),
            final(self).buffer_reads() == old(self).buffer_reads(),
            final(self).swapchain_images() == old(self).swapchain_images(),
    {
        let ghost draws = raster_draw_commands@;
        let mut buffer_visits: Vec<BufferHandle> = Vec::new();
        let mut image_visits: Vec<(ImageHandle, ImageResourceAccess)> = Vec::new();
        let mut c: usize = 0;
        while c < color_attachments.len()
            invariant
                c <= color_attachments@.len(),
                image_visits@ == color_attachments@.take(c as int).map_values(
                    |a: rgb::ColorAttachment| (a.image, ImageResourceAccess::AttachmentWrite),
                ),
            decreases color_attachments@.len() - c,
        {
            image_visits.push((color_attachments[c].image, ImageResourceAccess::AttachmentWrite));
            c = c + 1;
            assert(image_visits@ =~= color_attachments@.take(c as int).map_values(
                |a: rgb::ColorAttachment| (a.image, ImageResourceAccess::AttachmentWrite),
            ));
        }
        assert(color_attachments@.take(c as int) =~= color_attachments@);
        match depth_stencil_attachment {
            Some(d) => {
                image_visits.push((d.image, ImageResourceAccess::AttachmentWrite));
            },
            None => {},
        }
        let ghost attachments = image_visits@;
        assert(attachments =~= rgb::attachment_usages(color_attachments@, depth_stencil_attachment));
        draw_visits(raster_draw_commands, &mut buffer_visits, &mut image_visits);
        assert(buffer_visits@ =~= rgb::draws_buffer_handles(draws));
        proof {
            lemma_resolved_buffers_known(self.buffers.resources@, buffer_visits@);
            lemma_resolved_images_known(self.images.resources@, image_visits@);
        }
        self.buffers.resolve_all(&buffer_visits);
        self.images.resolve_all(&image_visits);
        let ghost bufs = self.buffers.resources@;
        let ghost imgs = self.images.resources@;

        let mut color_out: Vec<crate::render_graph::ColorAttachment> = Vec::new();
        let mut c: usize = 0;
        while c < color_attachments.len()
            invariant
                c <= color_attachments@.len(),
                self.wf(),
                bufs == self.buffer_resources(),
                imgs == self.image_resources(),
                self.pass_sets() == old(self).pass_sets(),
                self.buffer_writes() == old(self).buffer_writes(),
                self.buffer_reads() == old(self).buffer_reads(),
                self.swapchain_images() == old(self).swapchain_images(),
                all_images_known(imgs, image_visits@),
                attachments == rgb::attachment_usages(color_attachments@, depth_stencil_attachment),
                attachments.is_prefix_of(image_visits@),
                color_out@ == color_attachments@.take(c as int).map_values(|a: rgb::ColorAttachment| compile_color_attachment(a, imgs)),
            decreases color_attachments@.len() - c,
        {
            let a = color_attachments[c];
            assert(image_visits@[c as int] == attachments[c as int]);
            proof { lemma_known_image_index(imgs, a.image); }
            let image = self.get_image_index(a.image);
            color_out.push(crate::render_graph::ColorAttachment { image, clear: a.clear });
            c = c + 1;
            assert(color_out@ =~= color_attachments@.take(c as int).map_values(|a: rgb::ColorAttachment| compile_color_attachment(a, imgs)));
        }
        assert(color_attachments@.take(c as int) =~= color_attachments@);
        let depth_out = match depth_stencil_attachment {
            Some(d) => {
                assert(image_visits@[color_attachments@.len() as int] == attachments[color_attachments@.len() as int]);
                proof { lemma_known_image_index(imgs, d.image); }
                let image = self.get_image_index(d.image);
                Some(crate::render_graph::DepthStencilAttachment { image, clear: d.clear })
            },
            None => None,
        };

        let mut draw_out: Vec<crate::render_graph::RasterDrawCommand> = Vec::new();
        let mut i: usize = 0;
        while i < raster_draw_commands.len()
            invariant
                i <= draws.len(),
                draws == raster_draw_commands@,
                self.wf(),
                bufs == self.buffer_resources(),
                imgs == self.image_resources(),
                self.pass_sets() == old(self).pass_sets(),
                self.buffer_writes() == old(self).buffer_writes(),
                self.buffer_reads() == old(self).buffer_reads(),
                self.swapchain_images() == old(self).swapchain_images(),
                all_buffers_known(bufs, rgb::draws_buffer_handles(draws)),
                all_images_known(imgs, image_visits@),
                image_visits@ == attachments + rgb::draws_image_usages(draws),
                draw_out@.len() == i,
                forall|k: int| 0 <= k < i ==> draw_compiled(#[trigger] draw_out@[k], draws[k], bufs, imgs),
            decreases draws.len() - i,
        {
            let d = &raster_draw_commands[i];
            proof {
                let fb = |d: rgb::RasterDrawCommand| d.buffer_handles();
                let fi = |d: rgb::RasterDrawCommand| d.image_usages();
                assert forall|j: int| 0 <= j < d.buffer_handles().len() implies rgb::draws_buffer_handles(draws).contains(#[trigger] d.buffer_handles()[j]) by {
                    rgb::lemma_concat_map_contains(draws, fb, i as int, j);
                }
                assert forall|j: int| 0 <= j < d.image_usages().len() implies image_visits@.contains(#[trigger] d.image_usages()[j]) by {
                    rgb::lemma_concat_map_contains(draws, fi, i as int, j);
                    let k = choose|k: int| 0 <= k < rgb::draws_image_usages(draws).len() && rgb::draws_image_usages(draws)[k] == d.image_usages()[j];
                    assert(image_visits@[attachments.len() + k] == d.image_usages()[j]);
                }
                lemma_known_buffers_sub(bufs, rgb::draws_buffer_handles(draws), d.buffer_handles());
                lemma_known_images_sub(imgs, image_visits@, d.image_usages());
            }
            let compiled = self.compile_draw_command(d);
            draw_out.push(compiled);
            i = i + 1;
        }
        let indexed = self.images.index_usages(&image_visits);
        let framebuffer = crate::render_graph::Framebuffer { color_attachments: color_out, depth_stencil_attachment: depth_out };
        self.add_render_pass(name, color, &indexed, Some(RenderPassCommand::Raster { framebuffer, draw_commands: draw_out }));
    }
}


/// The dependency on each acquired swapchain image, in order: its index among the graph's
/// swapchain images and the image's first access (`first`) or its last (otherwise); an
/// image that no pass used counts as unused.
pub open spec fn swapchain_dependencies(
    swapchains: Seq<(SurfaceHandle, ImageIndex)>,
    imgs: Seq<ImageGraphResource>,
    first: bool,
) -> Seq<CommandBufferDependency> {
    Seq::new(
        swapchains.len(),
        |i: int| {
            let r = imgs[swapchains[i].1 as int];
            let a = if first { r.first_access } else { r.last_access };
            CommandBufferDependency::Swapchain {
                index: i as usize,
                access: match a {
                    Some(x) => x,
                    None => ImageResourceAccess::Unused,
                },
            }
        },
    )
}

impl BasicRenderGraphBuilder {
    /// Adds a buffer that the graph creates and frees itself.
    pub fn create_transient_buffer(&mut self, size: usize, usage: BufferUsage, location: MemoryLocation) -> (handle: BufferHandle)
        requires
            old(self).wf(),
        ensures
            final(self).wf(),
            final(self).buffer_resources() == old(self).buffer_resources().push(BufferGraphResource {
                description: BufferResourceDescription::Transient { size, usage, location },
                last_access: BufferResourceAccess::Unused,
            }),
            handle == BufferHandle::Transient(old(self).buffer_resources().len() as usize),
            final(self).image_resources() == old(self).image_resources(),
            final(self).pass_sets() == old(self).pass_sets(),
            final(self).buffer_writes() == old(self).buffer_writes(),
            final(self).buffer_reads() == old(self).buffer_reads(),
            final(self).swapchain_images() == old(self).swapchain_images(),
    {
        self.buffers.create_transient_buffer(size, usage, location)
    }

    /// Adds an image that the graph creates and frees itself.
    pub fn create_transient_image(&mut self, desc: TransientImageDesc) -> (handle: ImageHandle)
        requires
            old(self).wf(),
        ensures
            final(self).wf(),
            final(self).image_resources() == old(self).image_resources().push(ImageGraphResource {
                description: ImageResourceDescription::Transient(desc),
                first_access: None,
                last_access: None,
            }),
            handle == ImageHandle::Transient(old(self).image_resources().len() as usize),
            final(self).buffer_resources() == old(self).buffer_resources(),
            final(self).pass_sets() == old(self).pass_sets(),
            final(self).buffer_writes() == old(self).buffer_writes(),
            final(self).buffer_reads() == old(self).buffer_reads(),
            final(self).swapchain_images() == old(self).swapchain_images(),
    {
        self.images.push_graph_image(ImageResourceDescription::Transient(desc))
    }

    /// Adds the image that the surface's swapchain hands out this frame.
    pub fn acquire_swapchain_image(&mut self, surface_handle: SurfaceHandle) -> (handle: ImageHandle)
        requires
            old(self).wf(),
        ensures
            final(self).wf(),
            final(self).image_resources() == old(self).image_resources().push(ImageGraphResource {
                description: ImageResourceDescription::Swapchain(old(self).swapchain_images().len() as usize),
                first_access: None,
                last_access: None,
            }),
            final(self).swapchain_images() == old(self).swapchain_images().push(
                (surface_handle, old(self).image_resources().len() as usize),
            ),
            handle == ImageHandle::Transient(old(self).image_resources().len() as usize),
            final(self).buffer_resources() == old(self).buffer_resources(),
            final(self).pass_sets() == old(self).pass_sets(),
            final(self).buffer_writes() == old(self).buffer_writes(),
            final(self).buffer_reads() == old(self).buffer_reads(),
    {
        let index = self.images.resources.len();
        let swapchain_index = self.swapchain_images.len();
        self.swapchain_images.push((surface_handle, index));
        let handle = self.images.push_graph_image(ImageResourceDescription::Swapchain(swapchain_index));
        assert forall|j: int| 0 <= j < self.swapchain_images@.len() implies (#[trigger] self.swapchain_images@[j]).1
            < self.images.resources@.len() by {
            if j < old(self).swapchain_images@.len() {
                assert(self.swapchain_images@[j] == old(self).swapchain_images@[j]);
            }
        }
        handle
    }

    /// Records a write of `write_size` bytes at the buffer offset, done before the passes.
    pub fn add_buffer_write(&mut self, buffer_offset: rgb::BufferOffset, write_size: usize)
        requires
            old(self).wf(),
            buffer_handle_valid(old(self).buffer_resources(), buffer_offset.buffer),
        ensures
            final(self).wf(),
            final(self).buffer_resources() == resolve_buffer(old(self).buffer_resources(), buffer_offset.buffer),
            final(self).buffer_writes() == old(self).buffer_writes().push(BufferWrite {
                buffer_offset: compile_buffer_offset(buffer_offset, final(self).buffer_resources()),
                write_size,
            }),
            final(self).image_resources() == old(self).image_resources(),
            final(self).pass_sets() == old(self).pass_sets(),
            final(self).buffer_reads() == old(self).buffer_reads(),
            final(self).swapchain_images() == old(self).swapchain_images(),
    {
        let buffer_offset = self.get_buffer_offset(buffer_offset);
        self.buffer_writes.push(BufferWrite { buffer_offset, write_size });
    }

    /// Records a read of `read_size` bytes at the buffer offset, done after the passes.
    pub fn add_buffer_read(&mut self, buffer_offset: rgb::BufferOffset, read_size: usize)
        requires
            old(self).wf(),
            buffer_handle_valid(old(self).buffer_resources(), buffer_offset.buffer),
        ensures
            final(self).wf(),
            final(self).buffer_resources() == resolve_buffer(old(self).buffer_resources(), buffer_offset.buffer),
            final(self).buffer_reads() == old(self).buffer_reads().push(BufferRead {
                buffer_offset: compile_buffer_offset(buffer_offset, final(self).buffer_resources()),
                read_size,
            }),
            final(self).image_resources() == old(self).image_resources(),
            final(self).pass_sets() == old(self).pass_sets(),
            final(self).buffer_writes() == old(self).buffer_writes(),
            final(self).swapchain_images() == old(self).swapchain_images(),
    {
        let buffer_offset = self.get_buffer_offset(buffer_offset);
        self.buffer_reads.push(BufferRead { buffer_offset, read_size });
    }

    /// The compiled graph: its resources, writes and reads, and one graphics command buffer
    /// that waits for each acquired swapchain image (for its first access) and signals it
    /// (after its last access).
    pub fn build(self) -> (graph: CompiledRenderGraph)
        requires
            self.wf(),
        ensures
            graph.buffer_resources@ == self.buffer_resources(),
            graph.image_resources@ == self.image_resources(),
            graph.swapchain_images@ == self.swapchain_images(),
            graph.buffer_writes@ == self.buffer_writes(),
            graph.buffer_reads@ == self.buffer_reads(),
            graph.buffer_writes2.total_write_size == 0,
            graph.buffer_writes2.buffer_writes@.len() == 0,
            graph.command_buffers@.len() == 1,
            graph.command_buffers@[0].queue == crate::render_graph::Queue::Graphics,
            graph.command_buffers@[0].render_pass_sets@ == self.pass_sets(),
            graph.command_buffers@[0].command_buffer_wait_dependencies@ == swapchain_dependencies(
                self.swapchain_images(),
                self.image_resources(),
                true,
            ),
            graph.command_buffers@[0].command_buffer_signal_dependencies@ == swapchain_dependencies(
                self.swapchain_images(),
                self.image_resources(),
                false,
            ),
    {
        let BasicRenderGraphBuilder { buffers, images, buffer_writes, buffer_reads, swapchain_images, command_buffer } = self;
        let mut command_buffer = command_buffer;
        let mut i: usize = 0;
        while i < swapchain_images.len()
            invariant
                i <= swapchain_images@.len(),
                forall|j: int| 0 <= j < swapchain_images@.len() ==> (#[trigger] swapchain_images@[j]).1
                    < images.resources@.len(),
                command_buffer.queue == crate::render_graph::Queue::Graphics,
                command_buffer.render_pass_sets@ == self.command_buffer.render_pass_sets@,
                command_buffer.command_buffer_wait_dependencies@ == swapchain_dependencies(
                    swapchain_images@.take(i as int),
                    images.resources@,
                    true,
                ),
                command_buffer.command_buffer_signal_dependencies@ == swapchain_dependencies(
                    swapchain_images@.take(i as int),
                    images.resources@,
                    false,
                ),
            decreases swapchain_images@.len() - i,
        {
            let image_index = swapchain_images[i].1;
            assert(swapchain_images@[i as int].1 < images.resources@.len());
            let resource = images.resources[image_index];
            let first = match resource.first_access {
                Some(a) => a,
                None => ImageResourceAccess::Unused,
            };
            let last = match resource.last_access {
                Some(a) => a,
                None => ImageResourceAccess::Unused,
            };
            command_buffer.command_buffer_wait_dependencies.push(
                CommandBufferDependency::Swapchain { index: i, access: first },
            );
            command_buffer.command_buffer_signal_dependencies.push(
                CommandBufferDependency::Swapchain { index: i, access: last },
            );
            i = i + 1;
            assert(command_buffer.command_buffer_wait_dependencies@ =~= swapchain_dependencies(
                swapchain_images@.take(i as int),
                images.resources@,
                true,
            ));
            assert(command_buffer.command_buffer_signal_dependencies@ =~= swapchain_dependencies(
                swapchain_images@.take(i as int),
                images.resources@,
                false,
            ));
        }
        assert(swapchain_images@.take(i as int) =~= swapchain_images@);
        let mut command_buffers: Vec<CommandBuffer> = Vec::new();
        command_buffers.push(command_buffer);
        CompiledRenderGraph {
            buffer_writes2: BufferWrites::new(),
            buffer_writes,
            buffer_reads,
            buffer_resources: buffers.resources,
            image_resources: images.resources,
            swapchain_images,
            command_buffers,
        }
    }
}

/// A graph under construction holds each persistent buffer and each persistent image at
/// most once, however many passes name it.
pub proof fn lemma_persistent_resources_unique(builder: &BasicRenderGraphBuilder)
    requires
        builder.wf(),
    ensures
        buffers_unique(builder.buffer_resources()),
        images_unique(builder.image_resources()),
{
}

/// Every swapchain image the graph acquired is an image of the graph that stands for its
/// own entry in the list of acquired swapchain images.
pub proof fn lemma_swapchain_images_coherent(builder: &BasicRenderGraphBuilder)
    requires
        builder.wf(),
    ensures
        swapchains_coherent(builder.swapchain_images(), builder.image_resources()),
{
}

impl Default for BasicRenderGraphBuilder {
    fn default() -> (b: Self)
        ensures
            b.wf(),
            b.buffer_resources() == Seq::<BufferGraphResource>::empty(),
            b.image_resources() == Seq::<ImageGraphResource>::empty(),
            b.pass_sets() == Seq::<RenderPassSet>::empty(),
            b.buffer_writes() == Seq::<BufferWrite>::empty(),
            b.buffer_reads() == Seq::<BufferRead>::empty(),
            b.swapchain_images() == Seq::<(SurfaceHandle, ImageIndex)>::empty(),
    {
        BasicRenderGraphBuilder::new()
    }
}

/// Two handles that a graph knows name the same image exactly when they are the same
/// handle.
pub proof fn lemma_image_index_injective(imgs: Seq<ImageGraphResource>, h1: ImageHandle, h2: ImageHandle)
    requires
        images_unique(imgs),
        image_known(imgs, h1),
        image_known(imgs, h2),
        image_index_of(imgs, h1) == image_index_of(imgs, h2),
    ensures
        h1 == h2,
{
    lemma_known_image_index(imgs, h1);
    lemma_known_image_index(imgs, h2);
    let i = image_index_of(imgs, h1);
    match (h1, h2) {
        (ImageHandle::Persistent(k1), ImageHandle::Persistent(k2)) => {
            let a = choose|j: int| image_is_key(imgs, j, k1);
            let b = choose|j: int| image_is_key(imgs, j, k2);
            assert(image_is_key(imgs, i, k1));
            assert(image_is_key(imgs, i, k2));
        },
        (ImageHandle::Persistent(k1), ImageHandle::Transient(_)) => {
            let a = choose|j: int| image_is_key(imgs, j, k1);
            assert(image_is_key(imgs, i, k1));
        },
        (ImageHandle::Transient(_), ImageHandle::Persistent(k2)) => {
            let b = choose|j: int| image_is_key(imgs, j, k2);
            assert(image_is_key(imgs, i, k2));
        },
        (ImageHandle::Transient(_), ImageHandle::Transient(_)) => {},
    }
}

/// What a pass does to the images it accesses (`usages`, in order, from a graph `imgs0`):
/// the pass has one barrier per access, for the image the access names and into the
/// access's kind; and an image that the pass accesses in one way only ends with that access
/// as its last access.
pub proof fn lemma_pass_barriers_follow_accesses(
    imgs0: Seq<ImageGraphResource>,
    usages: Seq<(ImageHandle, ImageResourceAccess)>,
)
    requires
        images_unique(imgs0),
        all_images_valid(imgs0, usages),
        imgs0.len() + usages.len() <= usize::MAX,
    ensures
        ({
            let imgs = resolve_images(imgs0, rgb::usage_handles(usages));
            let after = image_barriers(imgs, compile_usages(usages, imgs));
            &&& after.1.len() == usages.len()
            &&& forall|k: int| 0 <= k < usages.len() ==> (#[trigger] after.1[k]).index == image_index_of(imgs, usages[k].0)
                && after.1[k].dst == usages[k].1
            &&& forall|h: ImageHandle, a: ImageResourceAccess|
                #![trigger usages.contains((h, a))]
                usages.contains((h, a)) && (forall|m: int| 0 <= m < usages.len() && (#[trigger] usages[m]).0 == h
                    ==> usages[m].1 == a) ==> after.0[image_index_of(imgs, h)].last_access == Some(a)
        }),
{
    let hs = rgb::usage_handles(usages);
    assert forall|i: int| 0 <= i < hs.len() implies image_handle_valid(imgs0, #[trigger] hs[i]) by {
        assert(hs[i] == usages[i].0);
    }
    lemma_resolve_images(imgs0, hs);
    lemma_resolve_images_len(imgs0, hs);
    let imgs = resolve_images(imgs0, hs);
    let us = compile_usages(usages, imgs);
    assert(us.len() == usages.len() && hs.len() == usages.len());
    assert forall|i: int| 0 <= i < us.len() implies (#[trigger] us[i]).0 < imgs.len() && us[i].0 == image_index_of(
        imgs,
        usages[i].0,
    ) && us[i].1 == usages[i].1 by {
        assert(hs[i] == usages[i].0);
        assert(image_known(imgs, hs[i]));
        lemma_known_image_index(imgs, usages[i].0);
        assert(us[i] == (image_index_of(imgs, usages[i].0) as usize, usages[i].1));
    }
    lemma_barrier_source_is_previous_access(imgs, us);
    let after = image_barriers(imgs, us);
    assert forall|h: ImageHandle, a: ImageResourceAccess|
        #![trigger usages.contains((h, a))]
        usages.contains((h, a)) && (forall|m: int| 0 <= m < usages.len() && (#[trigger] usages[m]).0 == h
            ==> usages[m].1 == a) implies after.0[image_index_of(imgs, h)].last_access == Some(a) by {
        let first = choose|m: int| 0 <= m < usages.len() && usages[m] == (h, a);
        let idx = us[first].0;
        lemma_last_access_position(us, idx, first);
        let j = choose|j: int| first <= j < us.len() && us[j].0 == idx
            && (forall|m: int| j < m < us.len() ==> (#[trigger] us[m]).0 != idx);
        assert(hs[first] == usages[first].0 && hs[j] == usages[j].0);
        assert(image_known(imgs, hs[first]) && image_known(imgs, hs[j]));
        lemma_image_index_injective(imgs, usages[j].0, h);
        assert(usages[j].1 == a);
        lemma_image_barriers_last_access(imgs, us, j);
    }
}

/// Resolving handles adds at most one image per handle.
proof fn lemma_resolve_images_len(imgs: Seq<ImageGraphResource>, hs: Seq<ImageHandle>)
    ensures
        resolve_images(imgs, hs).len() <= imgs.len() + hs.len(),
    decreases hs.len(),
{
    if hs.len() > 0 {
        lemma_resolve_images_len(imgs, hs.drop_last());
    }
}

/// From an access to `idx`, the pass has a last access to `idx`.
proof fn lemma_last_access_position(us: Seq<(usize, ImageResourceAccess)>, idx: usize, first: int)
    requires
        0 <= first < us.len(),
        us[first].0 == idx,
    ensures
        exists|j: int| first <= j < us.len() && us[j].0 == idx
            && (forall|m: int| j < m < us.len() ==> (#[trigger] us[m]).0 != idx),
    decreases us.len() - first,
{
    if exists|m: int| first < m < us.len() && (#[trigger] us[m]).0 == idx {
        let m = choose|m: int| first < m < us.len() && (#[trigger] us[m]).0 == idx;
        lemma_last_access_position(us, idx, m);
    } else {
        assert(forall|m: int| first < m < us.len() ==> (#[trigger] us[m]).0 != idx);
    }
}

/// What a transfer pass (`ts`, added to a graph with images `imgs0`, as
/// `add_transfer_pass` does) does to its images: the image a copy reads from gets a barrier
/// into a transfer read and the image a copy writes into a barrier into a transfer write;
/// every barrier of the pass is into one of the two; and an image that the pass only reads
/// from ends with a transfer read as its last access, one it only writes into with a
/// transfer write.
pub proof fn lemma_transfer_pass_reads_sources_writes_destinations(imgs0: Seq<ImageGraphResource>, ts: Seq<rgb::Transfer>)
    requires
        images_unique(imgs0),
        all_images_valid(imgs0, rgb::transfers_image_usages(ts)),
        imgs0.len() + rgb::transfers_image_usages(ts).len() <= usize::MAX,
    ensures
        ({
            let usages = rgb::transfers_image_usages(ts);
            let imgs = resolve_images(imgs0, rgb::usage_handles(usages));
            let after = image_barriers(imgs, compile_usages(usages, imgs));
            &&& forall|j: int, h: ImageHandle| 0 <= j < ts.len() && #[trigger] rgb::copies_from_image(ts[j], h)
                ==> exists|k: int| 0 <= k < after.1.len() && (#[trigger] after.1[k]).index == image_index_of(imgs, h)
                    && after.1[k].dst == ImageResourceAccess::TransferRead
            &&& forall|j: int, h: ImageHandle| 0 <= j < ts.len() && #[trigger] rgb::copies_into_image(ts[j], h)
                ==> exists|k: int| 0 <= k < after.1.len() && (#[trigger] after.1[k]).index == image_index_of(imgs, h)
                    && after.1[k].dst == ImageResourceAccess::TransferWrite
            &&& forall|k: int| 0 <= k < after.1.len() ==> (#[trigger] after.1[k]).dst == ImageResourceAccess::TransferRead
                || after.1[k].dst == ImageResourceAccess::TransferWrite
            &&& forall|j: int, h: ImageHandle| 0 <= j < ts.len() && #[trigger] rgb::copies_from_image(ts[j], h)
                && (forall|m: int| 0 <= m < ts.len() ==> !rgb::copies_into_image(#[trigger] ts[m], h))
                ==> after.0[image_index_of(imgs, h)].last_access == Some(ImageResourceAccess::TransferRead)
            &&& forall|j: int, h: ImageHandle| 0 <= j < ts.len() && #[trigger] rgb::copies_into_image(ts[j], h)
                && (forall|m: int| 0 <= m < ts.len() ==> !rgb::copies_from_image(#[trigger] ts[m], h))
                ==> after.0[image_index_of(imgs, h)].last_access == Some(ImageResourceAccess::TransferWrite)
        }),
{
    let usages = rgb::transfers_image_usages(ts);
    rgb::lemma_transfer_accesses_follow_copies(ts);
    lemma_pass_barriers_follow_accesses(imgs0, usages);
    let imgs = resolve_images(imgs0, rgb::usage_handles(usages));
    let after = image_barriers(imgs, compile_usages(usages, imgs));
    assert forall|j: int, h: ImageHandle| 0 <= j < ts.len() && #[trigger] rgb::copies_from_image(ts[j], h)
        implies exists|k: int| 0 <= k < after.1.len() && (#[trigger] after.1[k]).index == image_index_of(imgs, h)
            && after.1[k].dst == ImageResourceAccess::TransferRead by {
        assert(usages.contains((h, ImageResourceAccess::TransferRead)));
        let k = choose|k: int| 0 <= k < usages.len() && usages[k] == (h, ImageResourceAccess::TransferRead);
        assert(after.1[k].index == image_index_of(imgs, h));
    }
    assert forall|j: int, h: ImageHandle| 0 <= j < ts.len() && #[trigger] rgb::copies_into_image(ts[j], h)
        implies exists|k: int| 0 <= k < after.1.len() && (#[trigger] after.1[k]).index == image_index_of(imgs, h)
            && after.1[k].dst == ImageResourceAccess::TransferWrite by {
        assert(usages.contains((h, ImageResourceAccess::TransferWrite)));
        let k = choose|k: int| 0 <= k < usages.len() && usages[k] == (h, ImageResourceAccess::TransferWrite);
        assert(after.1[k].index == image_index_of(imgs, h));
    }
    assert forall|k: int| 0 <= k < after.1.len() implies (#[trigger] after.1[k]).dst == ImageResourceAccess::TransferRead
        || after.1[k].dst == ImageResourceAccess::TransferWrite by {
        assert(after.1[k].dst == usages[k].1);
    }
    assert forall|j: int, h: ImageHandle| 0 <= j < ts.len() && #[trigger] rgb::copies_from_image(ts[j], h)
        && (forall|m: int| 0 <= m < ts.len() ==> !rgb::copies_into_image(#[trigger] ts[m], h))
        implies after.0[image_index_of(imgs, h)].last_access == Some(ImageResourceAccess::TransferRead) by {
        assert(usages.contains((h, ImageResourceAccess::TransferRead)));
        assert forall|m: int| 0 <= m < usages.len() && (#[trigger] usages[m]).0 == h
            implies usages[m].1 == ImageResourceAccess::TransferRead by {
            if usages[m].1 == ImageResourceAccess::TransferWrite {
                let q = choose|q: int| 0 <= q < ts.len() && rgb::copies_into_image(#[trigger] ts[q], h);
            }
        }
    }
    assert forall|j: int, h: ImageHandle| 0 <= j < ts.len() && #[trigger] rgb::copies_into_image(ts[j], h)
        && (forall|m: int| 0 <= m < ts.len() ==> !rgb::copies_from_image(#[trigger] ts[m], h))
        implies after.0[image_index_of(imgs, h)].last_access == Some(ImageResourceAccess::TransferWrite) by {
        assert(usages.contains((h, ImageResourceAccess::TransferWrite)));
        assert forall|m: int| 0 <= m < usages.len() && (#[trigger] usages[m]).0 == h
            implies usages[m].1 == ImageResourceAccess::TransferWrite by {
            if usages[m].1 == ImageResourceAccess::TransferRead {
                let q = choose|q: int| 0 <= q < ts.len() && rgb::copies_from_image(#[trigger] ts[q], h);
            }
        }
    }
}

/// What a compute pass with shader resources `rs` (added to a graph with images `imgs0`,
/// as `add_compute_pass` does) does to a storage image that it only reads: the image gets a
/// barrier into a storage read and ends with a storage read as its last access; a storage
/// image that it only writes gets a barrier into a storage write and ends with one; and a
/// barrier into a storage write is only ever for an image that some resource writes.
pub proof fn lemma_compute_pass_storage_accesses(imgs0: Seq<ImageGraphResource>, rs: Seq<rgb::ShaderResourceUsage>)
    requires
        images_unique(imgs0),
        all_images_valid(imgs0, rgb::resources_image_usages(rs)),
        imgs0.len() + rgb::resources_image_usages(rs).len() <= usize::MAX,
    ensures
        ({
            let usages = rgb::resources_image_usages(rs);
            let imgs = resolve_images(imgs0, rgb::usage_handles(usages));
            let after = image_barriers(imgs, compile_usages(usages, imgs));
            &&& forall|j: int| 0 <= j < rs.len() && (#[trigger] rs[j]) is StorageImage && !rs[j]->StorageImage_write
                && (forall|m: int| 0 <= m < rs.len() ==> (#[trigger] rs[m]) != (rgb::ShaderResourceUsage::StorageImage {
                    image: rs[j]->StorageImage_image,
                    write: true,
                }) && rs[m] != rgb::ShaderResourceUsage::SampledImage(rs[j]->StorageImage_image)) ==> {
                    &&& exists|k: int| 0 <= k < after.1.len() && (#[trigger] after.1[k]).index == image_index_of(
                        imgs,
                        rs[j]->StorageImage_image,
                    ) && after.1[k].dst == ImageResourceAccess::StorageRead
                    &&& after.0[image_index_of(imgs, rs[j]->StorageImage_image)].last_access == Some(
                        ImageResourceAccess::StorageRead,
                    )
                }
            &&& forall|j: int| 0 <= j < rs.len() && (#[trigger] rs[j]) is StorageImage && rs[j]->StorageImage_write
                && (forall|m: int| 0 <= m < rs.len() ==> (#[trigger] rs[m]) != (rgb::ShaderResourceUsage::StorageImage {
                    image: rs[j]->StorageImage_image,
                    write: false,
                }) && rs[m] != rgb::ShaderResourceUsage::SampledImage(rs[j]->StorageImage_image)) ==> {
                    &&& exists|k: int| 0 <= k < after.1.len() && (#[trigger] after.1[k]).index == image_index_of(
                        imgs,
                        rs[j]->StorageImage_image,
                    ) && after.1[k].dst == ImageResourceAccess::StorageWrite
                    &&& after.0[image_index_of(imgs, rs[j]->StorageImage_image)].last_access == Some(
                        ImageResourceAccess::StorageWrite,
                    )
                }
            &&& forall|k: int| 0 <= k < after.1.len() && (#[trigger] after.1[k]).dst == ImageResourceAccess::StorageWrite
                ==> exists|j: int| 0 <= j < rs.len() && (#[trigger] rs[j]) is StorageImage && rs[j]->StorageImage_write
                    && image_index_of(imgs, rs[j]->StorageImage_image) == after.1[k].index
        }),
{
    let usages = rgb::resources_image_usages(rs);
    rgb::lemma_resource_accesses_follow_resources(rs);
    lemma_pass_barriers_follow_accesses(imgs0, usages);
    let imgs = resolve_images(imgs0, rgb::usage_handles(usages));
    let after = image_barriers(imgs, compile_usages(usages, imgs));
    assert forall|j: int| 0 <= j < rs.len() && (#[trigger] rs[j]) is StorageImage && !rs[j]->StorageImage_write
        && (forall|m: int| 0 <= m < rs.len() ==> (#[trigger] rs[m]) != (rgb::ShaderResourceUsage::StorageImage {
            image: rs[j]->StorageImage_image,
            write: true,
        }) && rs[m] != rgb::ShaderResourceUsage::SampledImage(rs[j]->StorageImage_image)) implies {
            &&& exists|k: int| 0 <= k < after.1.len() && (#[trigger] after.1[k]).index == image_index_of(
                imgs,
                rs[j]->StorageImage_image,
            ) && after.1[k].dst == ImageResourceAccess::StorageRead
            &&& after.0[image_index_of(imgs, rs[j]->StorageImage_image)].last_access == Some(
                ImageResourceAccess::StorageRead,
            )
        } by {
        let h = rs[j]->StorageImage_image;
        assert(usages.contains((h, ImageResourceAccess::StorageRead)));
        let k = choose|k: int| 0 <= k < usages.len() && usages[k] == (h, ImageResourceAccess::StorageRead);
        assert(after.1[k].index == image_index_of(imgs, h));
        assert forall|m: int| 0 <= m < usages.len() && (#[trigger] usages[m]).0 == h
            implies usages[m].1 == ImageResourceAccess::StorageRead by {
            if usages[m].1 == ImageResourceAccess::StorageWrite {
                let q = choose|q: int| 0 <= q < rs.len() && #[trigger] rs[q]
                    == (rgb::ShaderResourceUsage::StorageImage { image: h, write: true });
            }
            if usages[m].1 == ImageResourceAccess::SampledRead {
                let q = choose|q: int| 0 <= q < rs.len() && #[trigger] rs[q] == rgb::ShaderResourceUsage::SampledImage(h);
            }
        }
    }
    assert forall|j: int| 0 <= j < rs.len() && (#[trigger] rs[j]) is StorageImage && rs[j]->StorageImage_write
        && (forall|m: int| 0 <= m < rs.len() ==> (#[trigger] rs[m]) != (rgb::ShaderResourceUsage::StorageImage {
            image: rs[j]->StorageImage_image,
            write: false,
        }) && rs[m] != rgb::ShaderResourceUsage::SampledImage(rs[j]->StorageImage_image)) implies {
            &&& exists|k: int| 0 <= k < after.1.len() && (#[trigger] after.1[k]).index == image_index_of(
                imgs,
                rs[j]->StorageImage_image,
            ) && after.1[k].dst == ImageResourceAccess::StorageWrite
            &&& after.0[image_index_of(imgs, rs[j]->StorageImage_image)].last_access == Some(
                ImageResourceAccess::StorageWrite,
            )
        } by {
        let h = rs[j]->StorageImage_image;
        assert(usages.contains((h, ImageResourceAccess::StorageWrite)));
        let k = choose|k: int| 0 <= k < usages.len() && usages[k] == (h, ImageResourceAccess::StorageWrite);
        assert(after.1[k].index == image_index_of(imgs, h));
        assert forall|m: int| 0 <= m < usages.len() && (#[trigger] usages[m]).0 == h
            implies usages[m].1 == ImageResourceAccess::StorageWrite by {
            if usages[m].1 == ImageResourceAccess::StorageRead {
                let q = choose|q: int| 0 <= q < rs.len() && #[trigger] rs[q]
                    == (rgb::ShaderResourceUsage::StorageImage { image: h, write: false });
            }
            if usages[m].1 == ImageResourceAccess::SampledRead {
                let q = choose|q: int| 0 <= q < rs.len() && #[trigger] rs[q] == rgb::ShaderResourceUsage::SampledImage(h);
            }
        }
    }
    assert forall|k: int| 0 <= k < after.1.len() && (#[trigger] after.1[k]).dst == ImageResourceAccess::StorageWrite
        implies exists|j: int| 0 <= j < rs.len() && (#[trigger] rs[j]) is StorageImage && rs[j]->StorageImage_write
            && image_index_of(imgs, rs[j]->StorageImage_image) == after.1[k].index by {
        assert(usages[k].1 == ImageResourceAccess::StorageWrite);
        let h = usages[k].0;
        let q = choose|q: int| 0 <= q < rs.len() && #[trigger] rs[q]
            == (rgb::ShaderResourceUsage::StorageImage { image: h, write: true });
        assert(rs[q]->StorageImage_image == h);
    }
}

} // verus!
