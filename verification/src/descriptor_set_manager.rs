//! A bindless descriptor set whose array slots are handed out by id pools, with the
//! descriptor writes collected until they are committed in one update.
use vstd::prelude::*;
use crate::id_pool::{IdPool, IdPoolView};

verus! {

/// Binding of the storage buffer array.
pub const STORAGE_BUFFER_BINDING: u32 = 0;
/// Binding of the storage image array.
pub const STORAGE_IMAGE_BINDING: u32 = 1;
/// Binding of the sampled image array.
pub const SAMPLED_IMAGE_BINDING: u32 = 2;
/// Binding of the sampler array.
pub const SAMPLER_BINDING: u32 = 3;
/// Binding of the acceleration structure array.
pub const ACCELERATION_STRUCTURE_BINDING: u32 = 4;

/// `VK_DESCRIPTOR_TYPE_SAMPLER`
pub const DESCRIPTOR_TYPE_SAMPLER: i32 = 0;
/// `VK_DESCRIPTOR_TYPE_SAMPLED_IMAGE`
pub const DESCRIPTOR_TYPE_SAMPLED_IMAGE: i32 = 2;
/// `VK_DESCRIPTOR_TYPE_STORAGE_IMAGE`
pub const DESCRIPTOR_TYPE_STORAGE_IMAGE: i32 = 3;
/// `VK_DESCRIPTOR_TYPE_STORAGE_BUFFER`
pub const DESCRIPTOR_TYPE_STORAGE_BUFFER: i32 = 7;
/// `VK_DESCRIPTOR_TYPE_ACCELERATION_STRUCTURE_KHR`
pub const DESCRIPTOR_TYPE_ACCELERATION_STRUCTURE: i32 = 1000150000;

/// `VK_WHOLE_SIZE`
pub const WHOLE_SIZE: u64 = 0xffff_ffff_ffff_ffff;
/// `VK_IMAGE_LAYOUT_UNDEFINED`
pub const IMAGE_LAYOUT_UNDEFINED: i32 = 0;

/// The size of each descriptor array.
#[derive(PartialEq, Eq, Structural, Clone, Copy, Debug)]
pub struct DescriptorCount {
    pub storage_buffer: u32,
    pub storage_image: u32,
    pub sampled_image: u32,
    pub sampler: u32,
    pub acceleration_structure: u32,
}

/// A binding of the set layout (and the matching pool size): binding number, raw
/// `VkDescriptorType` and array size.
#[derive(PartialEq, Eq, Structural, Clone, Copy, Debug)]
pub struct LayoutBinding {
    pub binding: u32,
    pub descriptor_type: i32,
    pub count: u32,
}

pub open spec fn all_bindings(counts: DescriptorCount) -> Seq<LayoutBinding> {
    seq![
        LayoutBinding { binding: STORAGE_BUFFER_BINDING, descriptor_type: DESCRIPTOR_TYPE_STORAGE_BUFFER, count: counts.storage_buffer },
        LayoutBinding { binding: STORAGE_IMAGE_BINDING, descriptor_type: DESCRIPTOR_TYPE_STORAGE_IMAGE, count: counts.storage_image },
        LayoutBinding { binding: SAMPLED_IMAGE_BINDING, descriptor_type: DESCRIPTOR_TYPE_SAMPLED_IMAGE, count: counts.sampled_image },
        LayoutBinding { binding: SAMPLER_BINDING, descriptor_type: DESCRIPTOR_TYPE_SAMPLER, count: counts.sampler },
        LayoutBinding {
            binding: ACCELERATION_STRUCTURE_BINDING,
            descriptor_type: DESCRIPTOR_TYPE_ACCELERATION_STRUCTURE,
            count: counts.acceleration_structure,
        },
    ]
}

/// The arrays of the set: every kind with a non-zero size, in binding order.
pub fn layout_bindings(counts: &DescriptorCount) -> (bindings: Vec<LayoutBinding>)
    ensures
        bindings@ == all_bindings(*counts).filter(|b: LayoutBinding| b.count > 0),
{
    let ghost all = all_bindings(*counts);
    let candidates = [
        LayoutBinding { binding: STORAGE_BUFFER_BINDING, descriptor_type: DESCRIPTOR_TYPE_STORAGE_BUFFER, count: counts.storage_buffer },
        LayoutBinding { binding: STORAGE_IMAGE_BINDING, descriptor_type: DESCRIPTOR_TYPE_STORAGE_IMAGE, count: counts.storage_image },
        LayoutBinding { binding: SAMPLED_IMAGE_BINDING, descriptor_type: DESCRIPTOR_TYPE_SAMPLED_IMAGE, count: counts.sampled_image },
        LayoutBinding { binding: SAMPLER_BINDING, descriptor_type: DESCRIPTOR_TYPE_SAMPLER, count: counts.sampler },
        LayoutBinding {
            binding: ACCELERATION_STRUCTURE_BINDING,
            descriptor_type: DESCRIPTOR_TYPE_ACCELERATION_STRUCTURE,
            count: counts.acceleration_structure,
        },
    ];
    assert(candidates@ =~= all);
    let mut bindings: Vec<LayoutBinding> = Vec::new();
    let mut i: usize = 0;
    while i < 5
        invariant
            i <= 5,
            candidates@ == all,
            all.len() == 5,
            bindings@ == all.take(i as int).filter(|b: LayoutBinding| b.count > 0),
        decreases 5 - i,
    {
        let b = candidates[i];
        proof {
            reveal(Seq::filter);
            assert(all.take(i + 1).drop_last() =~= all.take(i as int));
        }
        if b.count > 0 {
            bindings.push(b);
        }
        i = i + 1;
    }
    assert(all.take(5) =~= all);
    bindings
}

/// A `VkDescriptorBufferInfo`, with the buffer as its raw handle.
#[derive(PartialEq, Eq, Structural, Clone, Copy, Debug)]
pub struct BufferDescriptor {
    pub buffer: u64,
    pub offset: u64,
    pub range: u64,
}

/// A `VkDescriptorImageInfo` without sampler: the raw image view and its layout.
#[derive(PartialEq, Eq, Structural, Clone, Copy, Debug)]
pub struct ImageDescriptor {
    pub image_view: u64,
    pub image_layout: i32,
}

#[derive(PartialEq, Eq, Structural, Clone, Copy, Debug)]
pub enum DescriptorInfo {
    Buffer(BufferDescriptor),
    Image(ImageDescriptor),
}

/// One element of a `vkUpdateDescriptorSets` call: one array slot of one binding.
#[derive(PartialEq, Eq, Structural, Clone, Copy, Debug)]
pub struct DescriptorWrite {
    pub binding: u32,
    pub array_element: u32,
    pub descriptor_type: i32,
    pub info: DescriptorInfo,
}

pub open spec fn buffer_writes(changes: Seq<(u32, BufferDescriptor)>) -> Seq<DescriptorWrite> {
    changes.map_values(|c: (u32, BufferDescriptor)| DescriptorWrite {
        binding: STORAGE_BUFFER_BINDING,
        array_element: c.0,
        descriptor_type: DESCRIPTOR_TYPE_STORAGE_BUFFER,
        info: DescriptorInfo::Buffer(c.1),
    })
}

pub open spec fn image_writes(changes: Seq<(u32, ImageDescriptor)>, binding: u32, descriptor_type: i32) -> Seq<DescriptorWrite> {
    changes.map_values(|c: (u32, ImageDescriptor)| DescriptorWrite {
        binding,
        array_element: c.0,
        descriptor_type,
        info: DescriptorInfo::Image(c.1),
    })
}

/// The descriptor set's slots: an id pool per array, and the writes not yet committed.
pub struct DescriptorSetManager {
    storage_buffer_indices: IdPool,
    storage_image_indices: IdPool,
    sampled_image_indices: IdPool,
    sampler_indices: IdPool,
    acceleration_structure_indices: IdPool,
    storage_buffer_changes: Vec<(u32, BufferDescriptor)>,
    storage_image_changes: Vec<(u32, ImageDescriptor)>,
    sampled_image_changes: Vec<(u32, ImageDescriptor)>,
}

impl DescriptorSetManager {
    pub closed spec fn storage_buffer_pool(&self) -> IdPoolView {
        self.storage_buffer_indices@
    }

    pub closed spec fn storage_image_pool(&self) -> IdPoolView {
        self.storage_image_indices@
    }

    pub closed spec fn sampled_image_pool(&self) -> IdPoolView {
        self.sampled_image_indices@
    }

    /// Writes to the storage buffer array not yet committed, in order.
    pub closed spec fn storage_buffer_changes(&self) -> Seq<(u32, BufferDescriptor)> {
        self.storage_buffer_changes@
    }

    pub closed spec fn storage_image_changes(&self) -> Seq<(u32, ImageDescriptor)> {
        self.storage_image_changes@
    }

    pub closed spec fn sampled_image_changes(&self) -> Seq<(u32, ImageDescriptor)> {
        self.sampled_image_changes@
    }

    /// Every array starts at slot 0 with nothing bound and nothing to commit.
    pub fn new(counts: &DescriptorCount) -> (manager: Self)
        ensures
            manager.storage_buffer_pool() == (IdPoolView { freed: Seq::empty(), next_id: 0 }),
            manager.storage_image_pool() == (IdPoolView { freed: Seq::empty(), next_id: 0 }),
            manager.sampled_image_pool() == (IdPoolView { freed: Seq::empty(), next_id: 0 }),
            manager.storage_buffer_changes().len() == 0,
            manager.storage_image_changes().len() == 0,
            manager.sampled_image_changes().len() == 0,
    {
        DescriptorSetManager {
            storage_buffer_indices: IdPool::new(0),
            storage_image_indices: IdPool::new(0),
            sampled_image_indices: IdPool::new(0),
            sampler_indices: IdPool::new(0),
            acceleration_structure_indices: IdPool::new(0),
            storage_buffer_changes: Vec::new(),
            storage_image_changes: Vec::new(),
            sampled_image_changes: Vec::new(),
        }
    }

    /// Takes a slot of the storage buffer array for the whole buffer (raw handle and size).
    pub fn bind_storage_buffer(&mut self, buffer: u64, size: u64) -> (index: u32)
        requires
            old(self).storage_buffer_pool().can_get(),
        ensures
            (index, final(self).storage_buffer_pool()) == old(self).storage_buffer_pool().get(),
            final(self).storage_buffer_changes() == old(self).storage_buffer_changes().push(
                (index, BufferDescriptor { buffer, offset: 0, range: size }),
            ),
            final(self).storage_image_pool() == old(self).storage_image_pool(),
            final(self).sampled_image_pool() == old(self).sampled_image_pool(),
            final(self).storage_image_changes() == old(self).storage_image_changes(),
            final(self).sampled_image_changes() == old(self).sampled_image_changes(),
    {
        let index = self.storage_buffer_indices.get();
        self.storage_buffer_changes.push((index, BufferDescriptor { buffer, offset: 0, range: size }));
        index
    }

    /// Empties a slot of the storage buffer array and hands it back.
    pub fn unbind_storage_buffer(&mut self, index: u32)
        ensures
            final(self).storage_buffer_pool() == old(self).storage_buffer_pool().free(index),
            final(self).storage_buffer_changes() == old(self).storage_buffer_changes().push(
                (index, BufferDescriptor { buffer: 0, offset: 0, range: WHOLE_SIZE }),
            ),
            final(self).storage_image_pool() == old(self).storage_image_pool(),
            final(self).sampled_image_pool() == old(self).sampled_image_pool(),
            final(self).storage_image_changes() == old(self).storage_image_changes(),
            final(self).sampled_image_changes() == old(self).sampled_image_changes(),
    {
        self.storage_buffer_changes.push((index, BufferDescriptor { buffer: 0, offset: 0, range: WHOLE_SIZE }));
        self.storage_buffer_indices.free(index);
    }

    /// Takes a slot of the storage image array for the image view in the layout.
    pub fn bind_storage_image(&mut self, image_view: u64, layout: i32) -> (index: u32)
        requires
            old(self).storage_image_pool().can_get(),
        ensures
            (index, final(self).storage_image_pool()) == old(self).storage_image_pool().get(),
            final(self).storage_image_changes() == old(self).storage_image_changes().push(
                (index, ImageDescriptor { image_view, image_layout: layout }),
            ),
            final(self).storage_buffer_pool() == old(self).storage_buffer_pool(),
            final(self).sampled_image_pool() == old(self).sampled_image_pool(),
            final(self).storage_buffer_changes() == old(self).storage_buffer_changes(),
            final(self).sampled_image_changes() == old(self).sampled_image_changes(),
    {
        let index = self.storage_image_indices.get();
        self.storage_image_changes.push((index, ImageDescriptor { image_view, image_layout: layout }));
        index
    }

    pub fn unbind_storage_image(&mut self, index: u32)
        ensures
            final(self).storage_image_pool() == old(self).storage_image_pool().free(index),
            final(self).storage_image_changes() == old(self).storage_image_changes().push(
                (index, ImageDescriptor { image_view: 0, image_layout: IMAGE_LAYOUT_UNDEFINED }),
            ),
            final(self).storage_buffer_pool() == old(self).storage_buffer_pool(),
            final(self).sampled_image_pool() == old(self).sampled_image_pool(),
            final(self).storage_buffer_changes() == old(self).storage_buffer_changes(),
            final(self).sampled_image_changes() == old(self).sampled_image_changes(),
    {
        self.storage_image_changes.push((index, ImageDescriptor { image_view: 0, image_layout: IMAGE_LAYOUT_UNDEFINED }));
        self.storage_image_indices.free(index);
    }

    /// Takes a slot of the sampled image array for the image view in the layout.
    pub fn bind_sampled_image(&mut self, image_view: u64, layout: i32) -> (index: u32)
        requires
            old(self).sampled_image_pool().can_get(),
        ensures
            (index, final(self).sampled_image_pool()) == old(self).sampled_image_pool().get(),
            final(self).sampled_image_changes() == old(self).sampled_image_changes().push(
                (index, ImageDescriptor { image_view, image_layout: layout }),
            ),
            final(self).storage_buffer_pool() == old(self).storage_buffer_pool(),
            final(self).storage_image_pool() == old(self).storage_image_pool(),
            final(self).storage_buffer_changes() == old(self).storage_buffer_changes(),
            final(self).storage_image_changes() == old(self).storage_image_changes(),
    {
        let index = self.sampled_image_indices.get();
        self.sampled_image_changes.push((index, ImageDescriptor { image_view, image_layout: layout }));
        index
    }

    pub fn unbind_sampled_image(&mut self, index: u32)
        ensures
            final(self).sampled_image_pool() == old(self).sampled_image_pool().free(index),
            final(self).sampled_image_changes() == old(self).sampled_image_changes().push(
                (index, ImageDescriptor { image_view: 0, image_layout: IMAGE_LAYOUT_UNDEFINED }),
            ),
            final(self).storage_buffer_pool() == old(self).storage_buffer_pool(),
            final(self).storage_image_pool() == old(self).storage_image_pool(),
            final(self).storage_buffer_changes() == old(self).storage_buffer_changes(),
            final(self).storage_image_changes() == old(self).storage_image_changes(),
    {
        self.sampled_image_changes.push((index, ImageDescriptor { image_view: 0, image_layout: IMAGE_LAYOUT_UNDEFINED }));
        self.sampled_image_indices.free(index);
    }

    /// The writes to apply in one update, storage buffers first, then storage images, then
    /// sampled images, each in the order they were made; nothing is left to commit.
    pub fn commit_changes(&mut self) -> (writes: Vec<DescriptorWrite>)
        ensures
            writes@ == buffer_writes(old(self).storage_buffer_changes()) + image_writes(
                old(self).storage_image_changes(),
                STORAGE_IMAGE_BINDING,
                DESCRIPTOR_TYPE_STORAGE_IMAGE,
            ) + image_writes(old(self).sampled_image_changes(), SAMPLED_IMAGE_BINDING, DESCRIPTOR_TYPE_SAMPLED_IMAGE),
            final(self).storage_buffer_changes().len() == 0,
            final(self).storage_image_changes().len() == 0,
            final(self).sampled_image_changes().len() == 0,
            final(self).storage_buffer_pool() == old(self).storage_buffer_pool(),
            final(self).storage_image_pool() == old(self).storage_image_pool(),
            final(self).sampled_image_pool() == old(self).sampled_image_pool(),
    {
        let mut writes: Vec<DescriptorWrite> = Vec::new();
        let mut i: usize = 0;
        while i < self.storage_buffer_changes.len()
            invariant
                i <= self.storage_buffer_changes@.len(),
                writes@ == buffer_writes(self.storage_buffer_changes@.take(i as int)),
            decreases self.storage_buffer_changes@.len() - i,
        {
            let (index, info) = self.storage_buffer_changes[i];
            writes.push(DescriptorWrite {
                binding: STORAGE_BUFFER_BINDING,
                array_element: index,
                descriptor_type: DESCRIPTOR_TYPE_STORAGE_BUFFER,
                info: DescriptorInfo::Buffer(info),
            });
            i = i + 1;
            assert(writes@ =~= buffer_writes(self.storage_buffer_changes@.take(i as int)));
        }
        assert(self.storage_buffer_changes@.take(i as int) =~= self.storage_buffer_changes@);
        let ghost first = writes@;
        let mut i: usize = 0;
        while i < self.storage_image_changes.len()
            invariant
                i <= self.storage_image_changes@.len(),
                writes@ == first + image_writes(
                    self.storage_image_changes@.take(i as int),
                    STORAGE_IMAGE_BINDING,
                    DESCRIPTOR_TYPE_STORAGE_IMAGE,
                ),
            decreases self.storage_image_changes@.len() - i,
        {
            let (index, info) = self.storage_image_changes[i];
            writes.push(DescriptorWrite {
                binding: STORAGE_IMAGE_BINDING,
                array_element: index,
                descriptor_type: DESCRIPTOR_TYPE_STORAGE_IMAGE,
                info: DescriptorInfo::Image(info),
            });
            i = i + 1;
            assert(writes@ =~= first + image_writes(
                self.storage_image_changes@.take(i as int),
                STORAGE_IMAGE_BINDING,
                DESCRIPTOR_TYPE_STORAGE_IMAGE,
            ));
        }
        assert(self.storage_image_changes@.take(i as int) =~= self.storage_image_changes@);
        let ghost second = writes@;
        let mut i: usize = 0;
        while i < self.sampled_image_changes.len()
            invariant
                i <= self.sampled_image_changes@.len(),
                writes@ == second + image_writes(
                    self.sampled_image_changes@.take(i as int),
                    SAMPLED_IMAGE_BINDING,
                    DESCRIPTOR_TYPE_SAMPLED_IMAGE,
                ),
            decreases self.sampled_image_changes@.len() - i,
        {
            let (index, info) = self.sampled_image_changes[i];
            writes.push(DescriptorWrite {
                binding: SAMPLED_IMAGE_BINDING,
                array_element: index,
                descriptor_type: DESCRIPTOR_TYPE_SAMPLED_IMAGE,
                info: DescriptorInfo::Image(info),
            });
            i = i + 1;
            assert(writes@ =~= second + image_writes(
                self.sampled_image_changes@.take(i as int),
                SAMPLED_IMAGE_BINDING,
                DESCRIPTOR_TYPE_SAMPLED_IMAGE,
            ));
        }
        assert(self.sampled_image_changes@.take(i as int) =~= self.sampled_image_changes@);
        self.storage_buffer_changes.clear();
        self.storage_image_changes.clear();
        self.sampled_image_changes.clear();
        writes
    }
}

/// The descriptor type of each array of the bindless set, by binding number: storage
/// buffers, storage images, sampled images, samplers, acceleration structures.
pub open spec fn array_descriptor_type(binding: u32) -> i32 {
    if binding == STORAGE_BUFFER_BINDING {
        DESCRIPTOR_TYPE_STORAGE_BUFFER
    } else if binding == STORAGE_IMAGE_BINDING {
        DESCRIPTOR_TYPE_STORAGE_IMAGE
    } else if binding == SAMPLED_IMAGE_BINDING {
        DESCRIPTOR_TYPE_SAMPLED_IMAGE
    } else if binding == SAMPLER_BINDING {
        DESCRIPTOR_TYPE_SAMPLER
    } else {
        DESCRIPTOR_TYPE_ACCELERATION_STRUCTURE
    }
}

/// The set layout declares each array with the descriptor type of that array, and with the
/// size asked for it; every array it declares is non-empty and declared once; and every
/// descriptor write that committing pending changes produces uses the type that the layout
/// declares for the write's binding, so the storage image array is declared and written as
/// storage images.
pub proof fn lemma_layout_types_match_writes(
    counts: DescriptorCount,
    buffer_changes: Seq<(u32, BufferDescriptor)>,
    storage_image_changes: Seq<(u32, ImageDescriptor)>,
    sampled_image_changes: Seq<(u32, ImageDescriptor)>,
)
    ensures
        ({
            let layout = all_bindings(counts).filter(|b: LayoutBinding| b.count > 0);
            let writes = buffer_writes(buffer_changes) + image_writes(
                storage_image_changes,
                STORAGE_IMAGE_BINDING,
                DESCRIPTOR_TYPE_STORAGE_IMAGE,
            ) + image_writes(sampled_image_changes, SAMPLED_IMAGE_BINDING, DESCRIPTOR_TYPE_SAMPLED_IMAGE);
            &&& forall|i: int| 0 <= i < layout.len() ==> (#[trigger] layout[i]).descriptor_type
                == array_descriptor_type(layout[i].binding) && layout[i].count > 0
            &&& forall|i: int| 0 <= i < layout.len() && (#[trigger] layout[i]).binding == STORAGE_BUFFER_BINDING
                ==> layout[i].count == counts.storage_buffer
            &&& forall|i: int| 0 <= i < layout.len() && (#[trigger] layout[i]).binding == STORAGE_IMAGE_BINDING
                ==> layout[i].count == counts.storage_image
            &&& forall|i: int| 0 <= i < layout.len() && (#[trigger] layout[i]).binding == SAMPLED_IMAGE_BINDING
                ==> layout[i].count == counts.sampled_image
            &&& forall|i: int| 0 <= i < layout.len() && (#[trigger] layout[i]).binding == SAMPLER_BINDING
                ==> layout[i].count == counts.sampler
            &&& forall|i: int, j: int| 0 <= i < j < layout.len() ==> (#[trigger] layout[i]).binding
                != (#[trigger] layout[j]).binding
            &&& forall|j: int| 0 <= j < writes.len() ==> (#[trigger] writes[j]).descriptor_type
                == array_descriptor_type(writes[j].binding)
            &&& forall|i: int, j: int| 0 <= i < layout.len() && 0 <= j < writes.len() && (#[trigger] layout[i]).binding
                == (#[trigger] writes[j]).binding ==> layout[i].descriptor_type == writes[j].descriptor_type
        }),
{
    let all = all_bindings(counts);
    let pred = |b: LayoutBinding| b.count > 0;
    let layout = all.filter(pred);
    broadcast use vstd::seq_lib::group_filter_ensures;
    assert forall|i: int| 0 <= i < all.len() implies (#[trigger] all[i]).descriptor_type
        == array_descriptor_type(all[i].binding) by {}
    assert forall|i: int| 0 <= i < layout.len() implies (#[trigger] layout[i]).descriptor_type
        == array_descriptor_type(layout[i].binding) && layout[i].count > 0 by {
        assert(layout.contains(layout[i]));
        all.lemma_filter_contains_rev(pred, layout[i]);
        let k = choose|k: int| 0 <= k < all.len() && all[k] == layout[i];
        assert(pred(layout[i]));
    }
    assert forall|i: int| 0 <= i < layout.len() implies exists|k: int| 0 <= k < all.len() && all[k] == #[trigger] layout[i] by {
        assert(layout.contains(layout[i]));
        all.lemma_filter_contains_rev(pred, layout[i]);
    }
    lemma_filter_keeps_order(all, pred);
    let writes = buffer_writes(buffer_changes) + image_writes(
        storage_image_changes,
        STORAGE_IMAGE_BINDING,
        DESCRIPTOR_TYPE_STORAGE_IMAGE,
    ) + image_writes(sampled_image_changes, SAMPLED_IMAGE_BINDING, DESCRIPTOR_TYPE_SAMPLED_IMAGE);
    let b = buffer_writes(buffer_changes);
    let si = image_writes(storage_image_changes, STORAGE_IMAGE_BINDING, DESCRIPTOR_TYPE_STORAGE_IMAGE);
    let sa = image_writes(sampled_image_changes, SAMPLED_IMAGE_BINDING, DESCRIPTOR_TYPE_SAMPLED_IMAGE);
    assert forall|j: int| 0 <= j < writes.len() implies (#[trigger] writes[j]).descriptor_type
        == array_descriptor_type(writes[j].binding) by {
        if j < b.len() {
            assert(writes[j] == b[j]);
        } else if j < b.len() + si.len() {
            assert(writes[j] == si[j - b.len()]);
        } else {
            assert(writes[j] == sa[j - b.len() - si.len()]);
        }
    }
}

/// Filtering keeps elements in their order: distinct positions of the filtered sequence
/// come from increasing positions of the original.
proof fn lemma_filter_keeps_order(all: Seq<LayoutBinding>, pred: spec_fn(LayoutBinding) -> bool)
    requires
        forall|i: int, j: int| 0 <= i < j < all.len() ==> (#[trigger] all[i]).binding < (#[trigger] all[j]).binding,
    ensures
        forall|i: int, j: int| 0 <= i < j < all.filter(pred).len() ==> (#[trigger] all.filter(pred)[i]).binding
            < (#[trigger] all.filter(pred)[j]).binding,
    decreases all.len(),
{
    reveal(Seq::filter);
    if all.len() > 0 {
        let prev = all.drop_last();
        assert forall|i: int, j: int| 0 <= i < j < prev.len() implies (#[trigger] prev[i]).binding < (#[trigger] prev[j]).binding by {
            assert(prev[i] == all[i] && prev[j] == all[j]);
        }
        lemma_filter_keeps_order(prev, pred);
        let fp = prev.filter(pred);
        broadcast use vstd::seq_lib::group_filter_ensures;
        assert forall|i: int| 0 <= i < fp.len() implies (#[trigger] fp[i]).binding < all.last().binding by {
            assert(fp.contains(fp[i]));
            prev.lemma_filter_contains_rev(pred, fp[i]);
            let k = choose|k: int| 0 <= k < prev.len() && prev[k] == fp[i];
            assert(all[k] == prev[k]);
        }
    }
}

} // verus!
