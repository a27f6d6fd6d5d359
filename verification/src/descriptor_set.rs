//! The bindless descriptor set: its layout, and the slots of each binding handed out by
//! index pools.
use vstd::prelude::*;

verus! {

/// Abstract state of an [`IndexPool`]: the stack of freed indices (reused last-in
/// first-out) and the half-open range `next..end` of never-used indices.
pub struct IndexPoolView {
    pub freed: Seq<u16>,
    pub next: u16,
    pub end: u16,
}

impl IndexPoolView {
    /// The index that `get` hands out (if any) and the state it leaves behind.
    pub open spec fn get(self) -> (Option<u16>, IndexPoolView) {
        if self.freed.len() > 0 {
            (Some(self.freed.last()), IndexPoolView { freed: self.freed.drop_last(), ..self })
        } else if self.next < self.end {
            (Some(self.next), IndexPoolView { next: (self.next + 1) as u16, ..self })
        } else {
            (None, self)
        }
    }

    pub open spec fn free(self, index: u16) -> IndexPoolView {
        IndexPoolView { freed: self.freed.push(index), ..self }
    }

    /// Indices that the pool may still hand out.
    pub open spec fn available(self) -> Set<u16> {
        Set::new(|i: u16| self.freed.contains(i) || (self.next <= i && i < self.end))
    }

    /// Freed indices are distinct and lie below `next`.
    pub open spec fn well_formed(self) -> bool {
        &&& self.freed.no_duplicates()
        &&& forall|i: int| 0 <= i < self.freed.len() ==> #[trigger] self.freed[i] < self.next
    }
}

/// Hands out indices of a fixed range, reusing freed indices first.
pub struct IndexPool {
    range: std::ops::Range<u16>,
    freed_indices: Vec<u16>,
}

impl View for IndexPool {
    type V = IndexPoolView;

    closed spec fn view(&self) -> IndexPoolView {
        IndexPoolView { freed: self.freed_indices@, next: self.range.start, end: self.range.end }
    }
}

impl IndexPool {
    pub fn new(range: std::ops::Range<u16>) -> (pool: Self)
        ensures
            pool@ == (IndexPoolView { freed: Seq::empty(), next: range.start, end: range.end }),
            pool@.well_formed(),
    {
        Self { range, freed_indices: Vec::new() }
    }

    /// The most recently freed index, else the next unused index of the range, else `None`.
    pub fn get(&mut self) -> (index: Option<u16>)
        ensures
            (index, final(self)@) == old(self)@.get(),
    {
        let mut new_value = self.freed_indices.pop();
        if new_value.is_none() {
            if self.range.start < self.range.end {
                new_value = Some(self.range.start);
                self.range.start = self.range.start + 1;
            }
        }
        new_value
    }

    pub fn free(&mut self, index: u16)
        ensures
            final(self)@ == old(self)@.free(index),
    {
        self.freed_indices.push(index);
    }
}

/// `get` returns `None` exactly when nothing is available.
pub proof fn lemma_get_none_iff_exhausted(pool: IndexPoolView)
    requires
        pool.well_formed(),
    ensures
        pool.get().0 is None <==> pool.available() == Set::<u16>::empty(),
{
    if pool.get().0 is None {
        assert forall|i: u16| !pool.available().contains(i) by {
            if pool.freed.contains(i) {
                let k = choose|k: int| 0 <= k < pool.freed.len() && pool.freed[k] == i;
            }
        }
        assert(pool.available() =~= Set::<u16>::empty());
    } else if pool.freed.len() > 0 {
        assert(pool.available().contains(pool.freed[pool.freed.len() - 1]));
    } else {
        assert(pool.available().contains(pool.next));
    }
}

/// On a well-formed pool, `get` hands out an available index, keeps the pool well formed
/// and makes exactly that index unavailable.
pub proof fn lemma_index_get_takes_available(pool: IndexPoolView)
    requires
        pool.well_formed(),
    ensures
        pool.get().1.well_formed(),
        pool.get().0 matches Some(i) ==> pool.available().contains(i) && pool.get().1.available()
            == pool.available().remove(i),
        pool.get().0 is None ==> pool.get().1 == pool,
{
    let (res, after) = pool.get();
    if pool.freed.len() > 0 {
        let last = pool.freed.len() - 1;
        let id = pool.freed[last];
        assert forall|x: u16| #[trigger] after.available().contains(x) <==> pool.available().remove(id).contains(x) by {
            if pool.freed.contains(x) && x != id {
                let k = choose|k: int| 0 <= k < pool.freed.len() && pool.freed[k] == x;
                assert(k != last);
                assert(after.freed[k] == x);
            }
            if after.freed.contains(x) {
                let k = choose|k: int| 0 <= k < after.freed.len() && after.freed[k] == x;
                assert(pool.freed[k] == x);
            }
            if x == id && !pool.freed.contains(x) {
                assert(pool.freed[last] == x);
            }
        }
        assert(after.available() =~= pool.available().remove(id));
    } else if pool.next < pool.end {
        let id = pool.next;
        assert forall|x: u16| #[trigger] after.available().contains(x) <==> pool.available().remove(id).contains(x) by {
            assert(!pool.freed.contains(x));
        }
        assert(after.available() =~= pool.available().remove(id));
    }
}

/// Two `get`s in a row on a well-formed pool never hand out the same index.
pub proof fn lemma_index_get_twice_distinct(pool: IndexPoolView)
    requires
        pool.well_formed(),
    ensures
        pool.get().0 matches Some(a) ==> (pool.get().1.get().0 matches Some(b) ==> a != b),
{
    lemma_index_get_takes_available(pool);
    lemma_index_get_takes_available(pool.get().1);
}

/// Freeing an index and then asking for one gives that index back and restores the pool.
pub proof fn lemma_index_free_then_get(pool: IndexPoolView, index: u16)
    ensures
        pool.free(index).get() == (Some(index), pool),
{
    assert(pool.free(index).freed.drop_last() =~= pool.freed);
}


/// How many descriptors of each kind the bindless set holds.
pub struct DescriptorCount {
    pub storage_buffers: u16,
    pub storage_images: u16,
    pub sampled_images: u16,
    pub acceleration_structures: u16,
}

pub const STORAGE_BUFFER_BINDING: u16 = 0;
pub const SAMPLED_IMAGE_BINDING: u16 = 1;
pub const STORAGE_IMAGE_BINDING: u16 = 2;
pub const ACCELERATION_STRUCTURE_BINDING: u16 = 3;

/// Raw Vulkan `VkDescriptorType` values used by the bindless set.
pub const DESCRIPTOR_TYPE_COMBINED_IMAGE_SAMPLER: i32 = 1;
pub const DESCRIPTOR_TYPE_STORAGE_IMAGE: i32 = 3;
pub const DESCRIPTOR_TYPE_STORAGE_BUFFER: i32 = 7;

/// One binding of the descriptor set layout, and the pool size that backs it.
#[derive(PartialEq, Eq, Structural, Clone, Copy, Debug)]
pub struct LayoutBinding {
    pub binding: u32,
    pub descriptor_type: i32,
    pub descriptor_count: u32,
}

pub open spec fn layout_entry(count: u16, binding: u16, descriptor_type: i32) -> Seq<LayoutBinding> {
    if count != 0 {
        seq![LayoutBinding { binding: binding as u32, descriptor_type, descriptor_count: count as u32 }]
    } else {
        Seq::empty()
    }
}

/// The layout bindings of a set with `count` descriptors: one binding per non-empty
/// kind, storage buffers first, then storage images, then sampled images.
pub open spec fn spec_layout_bindings(count: DescriptorCount) -> Seq<LayoutBinding> {
    layout_entry(count.storage_buffers, STORAGE_BUFFER_BINDING, DESCRIPTOR_TYPE_STORAGE_BUFFER)
        + layout_entry(count.storage_images, STORAGE_IMAGE_BINDING, DESCRIPTOR_TYPE_STORAGE_IMAGE)
        + layout_entry(count.sampled_images, SAMPLED_IMAGE_BINDING, DESCRIPTOR_TYPE_COMBINED_IMAGE_SAMPLER)
}

/// The bindings (and pool sizes) with which the bindless descriptor set is created.
pub fn layout_bindings(count: &DescriptorCount) -> (bindings: Vec<LayoutBinding>)
    ensures
        bindings@ == spec_layout_bindings(*count),
{
    let mut bindings: Vec<LayoutBinding> = Vec::new();
    if count.storage_buffers != 0 {
        bindings.push(LayoutBinding {
            binding: STORAGE_BUFFER_BINDING as u32,
            descriptor_type: DESCRIPTOR_TYPE_STORAGE_BUFFER,
            descriptor_count: count.storage_buffers as u32,
        });
    }
    if count.storage_images != 0 {
        bindings.push(LayoutBinding {
            binding: STORAGE_IMAGE_BINDING as u32,
            descriptor_type: DESCRIPTOR_TYPE_STORAGE_IMAGE,
            descriptor_count: count.storage_images as u32,
        });
    }
    if count.sampled_images != 0 {
        bindings.push(LayoutBinding {
            binding: SAMPLED_IMAGE_BINDING as u32,
            descriptor_type: DESCRIPTOR_TYPE_COMBINED_IMAGE_SAMPLER,
            descriptor_count: count.sampled_images as u32,
        });
    }
    assert(bindings@ =~= spec_layout_bindings(*count));
    bindings
}

/// A slot of the bindless set handed out to a resource.
pub struct DescriptorBinding {
    pub binding: u16,
    pub index: u16,
}

impl DescriptorBinding {
    /// The index shaders use to reach the resource.
    pub fn index(&self) -> (index: u32)
        ensures
            index == self.index,
    {
        self.index as u32
    }
}

/// The slot bookkeeping of the bindless descriptor set: one index pool per binding.
pub struct DescriptorIndices {
    pub storage_buffer_pool: IndexPool,
    pub storage_image_pool: IndexPool,
    pub sampled_image_pool: IndexPool,
}

impl DescriptorIndices {
    pub fn new(count: &DescriptorCount) -> (indices: Self)
        ensures
            indices.storage_buffer_pool@ == (IndexPoolView { freed: Seq::empty(), next: 0, end: count.storage_buffers }),
            indices.storage_image_pool@ == (IndexPoolView { freed: Seq::empty(), next: 0, end: count.storage_images }),
            indices.sampled_image_pool@ == (IndexPoolView { freed: Seq::empty(), next: 0, end: count.sampled_images }),
    {
        Self {
            storage_buffer_pool: IndexPool::new(0..count.storage_buffers),
            storage_image_pool: IndexPool::new(0..count.storage_images),
            sampled_image_pool: IndexPool::new(0..count.sampled_images),
        }
    }

    /// Takes a storage-buffer slot; the set must not be out of storage buffer indices.
    pub fn bind_storage_buffer(&mut self) -> (index: u16)
        requires
            old(self).storage_buffer_pool@.get().0 is Some,
        ensures
            (Some(index), final(self).storage_buffer_pool@) == old(self).storage_buffer_pool@.get(),
            final(self).storage_image_pool@ == old(self).storage_image_pool@,
            final(self).sampled_image_pool@ == old(self).sampled_image_pool@,
    {
        self.storage_buffer_pool.get().unwrap()
    }

    /// Takes a storage-image slot; the set must not be out of storage image indices.
    pub fn bind_storage_image(&mut self) -> (index: u16)
        requires
            old(self).storage_image_pool@.get().0 is Some,
        ensures
            (Some(index), final(self).storage_image_pool@) == old(self).storage_image_pool@.get(),
            final(self).storage_buffer_pool@ == old(self).storage_buffer_pool@,
            final(self).sampled_image_pool@ == old(self).sampled_image_pool@,
    {
        self.storage_image_pool.get().unwrap()
    }

    /// Takes a sampled-image slot; the set must not be out of sampled image indices.
    pub fn bind_sampled_image(&mut self) -> (index: u16)
        requires
            old(self).sampled_image_pool@.get().0 is Some,
        ensures
            (Some(index), final(self).sampled_image_pool@) == old(self).sampled_image_pool@.get(),
            final(self).storage_buffer_pool@ == old(self).storage_buffer_pool@,
            final(self).storage_image_pool@ == old(self).storage_image_pool@,
    {
        self.sampled_image_pool.get().unwrap()
    }

    pub fn unbind_storage_buffer(&mut self, index: u16)
        ensures
            final(self).storage_buffer_pool@ == old(self).storage_buffer_pool@.free(index),
            final(self).storage_image_pool@ == old(self).storage_image_pool@,
            final(self).sampled_image_pool@ == old(self).sampled_image_pool@,
    {
        self.storage_buffer_pool.free(index);
    }

    pub fn unbind_storage_image(&mut self, index: u16)
        ensures
            final(self).storage_image_pool@ == old(self).storage_image_pool@.free(index),
            final(self).storage_buffer_pool@ == old(self).storage_buffer_pool@,
            final(self).sampled_image_pool@ == old(self).sampled_image_pool@,
    {
        self.storage_image_pool.free(index);
    }

    pub fn unbind_sampled_image(&mut self, index: u16)
        ensures
            final(self).sampled_image_pool@ == old(self).sampled_image_pool@.free(index),
            final(self).storage_buffer_pool@ == old(self).storage_buffer_pool@,
            final(self).storage_image_pool@ == old(self).storage_image_pool@,
    {
        self.sampled_image_pool.free(index);
    }

    /// Frees the slot `index` of `binding`; only the three bindless bindings are known.
    pub fn unbind(&mut self, binding: u16, index: u16)
        requires
            binding == STORAGE_BUFFER_BINDING || binding == STORAGE_IMAGE_BINDING || binding
                == SAMPLED_IMAGE_BINDING,
        ensures
            final(self).storage_buffer_pool@ == if binding == STORAGE_BUFFER_BINDING {
                old(self).storage_buffer_pool@.free(index)
            } else {
                old(self).storage_buffer_pool@
            },
            final(self).storage_image_pool@ == if binding == STORAGE_IMAGE_BINDING {
                old(self).storage_image_pool@.free(index)
            } else {
                old(self).storage_image_pool@
            },
            final(self).sampled_image_pool@ == if binding == SAMPLED_IMAGE_BINDING {
                old(self).sampled_image_pool@.free(index)
            } else {
                old(self).sampled_image_pool@
            },
    {
        if binding == STORAGE_BUFFER_BINDING {
            self.unbind_storage_buffer(index);
        } else if binding == STORAGE_IMAGE_BINDING {
            self.unbind_storage_image(index);
        } else {
            self.unbind_sampled_image(index);
        }
    }
}

} // verus!
