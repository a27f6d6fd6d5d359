//! How passes access resources, the keys of the persistent resources, and their deferred
//! destruction.
use vstd::prelude::*;
use slotmap::{DefaultKey, Key, KeyData, SlotMap};
use crate::{BufferKey, ImageKey, SamplerKey};

verus! {

/// How a pass accesses a buffer.
#[derive(PartialEq, Eq, Structural, Clone, Copy, Debug, Hash)]
pub enum BufferResourceAccess {
    Unused,
    TransferRead,
    TransferWrite,
    VertexRead,
    IndexRead,
    IndirectRead,
    StorageRead,
    StorageWrite,
}

/// How a pass accesses an image.
#[derive(PartialEq, Eq, Structural, Clone, Copy, Debug, Hash)]
pub enum ImageResourceAccess {
    Unused,
    TransferRead,
    TransferWrite,
    StorageRead,
    StorageWrite,
    SampledRead,
    AttachmentWrite,
}

/// What the executor knows of a buffer of the graph while recording a frame:
/// whether its memory is mapped for direct writes, and its last access.
#[derive(PartialEq, Eq, Structural, Clone, Copy, Debug)]
pub struct BufferTempResource {
    pub is_mapped: bool,
    pub last_access: BufferResourceAccess,
}

/// Deferred destruction of persistent resources: a key removed during a frame is only
/// destroyed at the second frame flush after its removal, once no frame in flight can
/// still use it.
pub struct DeferredRemovals<K> {
    freed: Vec<K>,
    freed2: Vec<K>,
}

pub struct DeferredRemovalsView<K> {
    /// Keys removed since the last flush.
    pub freed: Seq<K>,
    /// Keys removed before the last flush, destroyed at the next one.
    pub freed2: Seq<K>,
}

impl<K> View for DeferredRemovals<K> {
    type V = DeferredRemovalsView<K>;

    closed spec fn view(&self) -> DeferredRemovalsView<K> {
        DeferredRemovalsView { freed: self.freed@, freed2: self.freed2@ }
    }
}

impl<K> DeferredRemovals<K> {
    pub fn new() -> (r: Self)
        ensures
            r@.freed == Seq::<K>::empty(),
            r@.freed2 == Seq::<K>::empty(),
    {
        Self { freed: Vec::new(), freed2: Vec::new() }
    }

    /// Marks `key` for destruction.
    pub fn remove(&mut self, key: K)
        ensures
            final(self)@.freed == old(self)@.freed.push(key),
            final(self)@.freed2 == old(self)@.freed2,
    {
        self.freed.push(key);
    }

    /// Ends a frame: returns the keys to destroy now (those removed before the previous
    /// flush) and moves the keys removed during this frame one step closer.
    pub fn flush_frame(&mut self) -> (destroy: Vec<K>)
        ensures
            destroy@ == old(self)@.freed2,
            final(self)@.freed2 == old(self)@.freed,
            final(self)@.freed == Seq::<K>::empty(),
    {
        let mut destroy: Vec<K> = Vec::new();
        std::mem::swap(&mut destroy, &mut self.freed2);
        std::mem::swap(&mut self.freed2, &mut self.freed);
        destroy
    }
}

/// A key removed during a frame is not destroyed at the next flush but at the one after.
pub proof fn lemma_removed_key_destroyed_at_second_flush<K>(
    before: DeferredRemovalsView<K>,
    key: K,
)
    ensures
        ({
            let removed = DeferredRemovalsView { freed: before.freed.push(key), freed2: before.freed2 };
            let first = removed.freed2;
            let after_first = DeferredRemovalsView { freed: Seq::<K>::empty(), freed2: removed.freed };
            let second = after_first.freed2;
            &&& second.contains(key)
            &&& second == before.freed.push(key)
            &&& first == before.freed2
        }),
{
    assert(before.freed.push(key)[before.freed.len() as int] == key);
}

/// The keys still held and the pending removals after the operations `ops`, in order,
/// starting from the held keys `held` and the removals `removals`: `Some(key)` removes
/// `key` (it is queued), `None` flushes a frame, which destroys the keys that
/// `flush_frame` hands back.
pub open spec fn replay_removals<K>(
    held: Set<K>,
    removals: DeferredRemovalsView<K>,
    ops: Seq<Option<K>>,
) -> (Set<K>, DeferredRemovalsView<K>)
    decreases ops.len(),
{
    if ops.len() == 0 {
        (held, removals)
    } else {
        let (h, r) = replay_removals(held, removals, ops.drop_last());
        match ops.last() {
            None => (
                Set::new(|k: K| h.contains(k) && !r.freed2.contains(k)),
                DeferredRemovalsView { freed: Seq::<K>::empty(), freed2: r.freed },
            ),
            Some(key) => (h, DeferredRemovalsView { freed: r.freed.push(key), freed2: r.freed2 }),
        }
    }
}

/// The number of frame flushes among the operations.
pub open spec fn flush_count<K>(ops: Seq<Option<K>>) -> nat
    decreases ops.len(),
{
    if ops.len() == 0 {
        0
    } else {
        flush_count(ops.drop_last()) + if ops.last() is None { 1nat } else { 0nat }
    }
}

/// A held key removed once, and not removed again, is still held after the first flush
/// that follows and is destroyed by the second: whatever other keys are removed in
/// between, it is held while at most one flush has passed and gone once two have.
pub proof fn lemma_removal_deferred_two_flushes<K>(
    held: Set<K>,
    removals: DeferredRemovalsView<K>,
    key: K,
    ops: Seq<Option<K>>,
)
    requires
        held.contains(key),
        !removals.freed.contains(key),
        !removals.freed2.contains(key),
        forall|i: int| 0 <= i < ops.len() ==> ops[i] != Some(key),
    ensures
        ({
            let start = DeferredRemovalsView { freed: removals.freed.push(key), freed2: removals.freed2 };
            let (h, r) = replay_removals(held, start, ops);
            &&& flush_count(ops) <= 1 ==> h.contains(key)
            &&& flush_count(ops) >= 2 ==> !h.contains(key)
        }),
{
    lemma_removal_stages(held, removals, key, ops);
}

/// Where a removed key stands after the operations: queued before any flush, due for
/// destruction after one, destroyed after two or more.
proof fn lemma_removal_stages<K>(
    held: Set<K>,
    removals: DeferredRemovalsView<K>,
    key: K,
    ops: Seq<Option<K>>,
)
    requires
        held.contains(key),
        !removals.freed.contains(key),
        !removals.freed2.contains(key),
        forall|i: int| 0 <= i < ops.len() ==> ops[i] != Some(key),
    ensures
        ({
            let start = DeferredRemovalsView { freed: removals.freed.push(key), freed2: removals.freed2 };
            let (h, r) = replay_removals(held, start, ops);
            &&& flush_count(ops) == 0 ==> h.contains(key) && r.freed.contains(key) && !r.freed2.contains(key)
            &&& flush_count(ops) == 1 ==> h.contains(key) && !r.freed.contains(key) && r.freed2.contains(key)
            &&& flush_count(ops) >= 2 ==> !h.contains(key) && !r.freed.contains(key) && !r.freed2.contains(key)
        }),
    decreases ops.len(),
{
    let start = DeferredRemovalsView { freed: removals.freed.push(key), freed2: removals.freed2 };
    if ops.len() == 0 {
        assert(start.freed[removals.freed.len() as int] == key);
    } else {
        let prev = ops.drop_last();
        assert forall|i: int| 0 <= i < prev.len() implies prev[i] != Some(key) by {
            assert(prev[i] == ops[i]);
        }
        lemma_removal_stages(held, removals, key, prev);
        let (h, r) = replay_removals(held, start, prev);
        let (h2, r2) = replay_removals(held, start, ops);
        match ops.last() {
            None => {
                assert(r2.freed2 == r.freed);
                assert(!r2.freed.contains(key));
                assert(h2.contains(key) == (h.contains(key) && !r.freed2.contains(key)));
            },
            Some(x) => {
                assert(ops[ops.len() - 1] != Some(key));
                assert(x != key);
                assert(r2.freed == r.freed.push(x));
                if r.freed.contains(key) {
                    let j = choose|j: int| 0 <= j < r.freed.len() && r.freed[j] == key;
                    assert(r2.freed[j] == key);
                }
                if r2.freed.contains(key) {
                    let j = choose|j: int| 0 <= j < r2.freed.len() && r2.freed[j] == key;
                    assert(j < r.freed.len());
                    assert(r.freed[j] == key);
                }
            },
        }
    }
}

// ---------------------------------------------------------------------------------------
// Keys of persistent resources

/// The slots of one kind of persistent resource, held in a slotmap `SlotMap` whose keys
/// stand for the resources (the caller keeps the resources themselves under the same keys).
#[verifier::external_body]
pub struct ResourceSlots {
    slots: SlotMap<DefaultKey, ()>,
}

/// The FFI values of the keys live in the slot map.
pub uninterp spec fn live_keys(slots: ResourceSlots) -> Set<u64>;

/// The FFI value of the key that slotmap makes of `ffi`: the same index, the version made
/// odd (slotmap's live keys always have an odd version).
pub open spec fn canonical_key(ffi: u64) -> u64 {
    ffi | 0x1_0000_0000u64
}

/// An empty slot map (`SlotMap::with_key`).
#[verifier::external_body]
fn new_slots() -> (slots: ResourceSlots)
    ensures
        live_keys(slots) == Set::<u64>::empty(),
{
    ResourceSlots { slots: SlotMap::with_key() }
}

/// `SlotMap::insert`, the new key as its FFI value (`KeyData::as_ffi`). The crate's source
/// fills a free slot with an odd version or, when none is free, appends one with version 1
/// (panicking only once `u32::MAX` slots exist, which needs `u32::MAX - 1` live keys); the
/// key is therefore not live before, has an odd version, and is live after.
#[verifier::external_body]
fn insert_slot(slots: &mut ResourceSlots) -> (key: u64)
    requires
        live_keys(*old(slots)).finite(),
        live_keys(*old(slots)).len() + 1 < u32::MAX,
    ensures
        !live_keys(*old(slots)).contains(key),
        canonical_key(key) == key,
        live_keys(*final(slots)) == live_keys(*old(slots)).insert(key),
{
    slots.slots.insert(()).data().as_ffi()
}

/// `SlotMap::contains_key` on the key `KeyData::from_ffi(key)`, whose FFI value is
/// `canonical_key(key)` by the crate's source.
#[verifier::external_body]
fn contains_slot(slots: &ResourceSlots, key: u64) -> (live: bool)
    ensures
        live == live_keys(*slots).contains(canonical_key(key)),
{
    slots.slots.contains_key(KeyData::from_ffi(key).into())
}

/// `SlotMap::remove` on the key `KeyData::from_ffi(key)`: whether it was live, and the slot
/// map without it.
#[verifier::external_body]
fn remove_slot(slots: &mut ResourceSlots, key: u64) -> (removed: bool)
    ensures
        removed == live_keys(*old(slots)).contains(canonical_key(key)),
        live_keys(*final(slots)) == live_keys(*old(slots)).remove(canonical_key(key)),
{
    slots.slots.remove(KeyData::from_ffi(key).into()).is_some()
}

/// The keys of the persistent buffers, images and samplers of a renderer, with the
/// buffers and images removed but not yet destroyed. A removed buffer or image stays
/// usable until the second frame flush after its removal, when no frame in flight can
/// still use it; a sampler goes at once. The resources themselves are kept by the caller
/// under these keys and destroyed when `flush_frame` hands their keys back.
pub struct ResourceManager {
    buffers: ResourceSlots,
    buffer_removals: DeferredRemovals<u64>,
    images: ResourceSlots,
    image_removals: DeferredRemovals<u64>,
    samplers: ResourceSlots,
}

/// Every key of `keys` is a key as slotmap makes it.
pub open spec fn all_canonical(keys: Seq<u64>) -> bool {
    forall|i: int| 0 <= i < keys.len() ==> canonical_key(#[trigger] keys[i]) == keys[i]
}

/// The state of one kind of deferred resource after a removal (`Some(key)`) or a frame
/// flush (`None`).
pub open spec fn removal_step(
    held: Set<u64>,
    removals: DeferredRemovalsView<u64>,
    op: Option<u64>,
) -> (Set<u64>, DeferredRemovalsView<u64>) {
    replay_removals(held, removals, seq![op])
}

impl ResourceManager {
    /// The FFI values of the live buffer keys.
    pub closed spec fn buffers(&self) -> Set<u64> {
        live_keys(self.buffers)
    }

    pub closed spec fn buffer_removals(&self) -> DeferredRemovalsView<u64> {
        self.buffer_removals@
    }

    /// The FFI values of the live image keys.
    pub closed spec fn images(&self) -> Set<u64> {
        live_keys(self.images)
    }

    pub closed spec fn image_removals(&self) -> DeferredRemovalsView<u64> {
        self.image_removals@
    }

    /// The FFI values of the live sampler keys.
    pub closed spec fn samplers(&self) -> Set<u64> {
        live_keys(self.samplers)
    }

    /// The key sets are finite and every queued removal is a key as slotmap makes it.
    pub open spec fn wf(&self) -> bool {
        &&& self.buffers().finite()
        &&& self.images().finite()
        &&& self.samplers().finite()
        &&& forall|k: u64| #[trigger] self.buffers().contains(k) ==> canonical_key(k) == k
        &&& forall|k: u64| #[trigger] self.images().contains(k) ==> canonical_key(k) == k
        &&& all_canonical(self.buffer_removals().freed)
        &&& all_canonical(self.buffer_removals().freed2)
        &&& all_canonical(self.image_removals().freed)
        &&& all_canonical(self.image_removals().freed2)
    }

    pub fn new() -> (m: Self)
        ensures
            m.wf(),
            m.buffers() == Set::<u64>::empty(),
            m.images() == Set::<u64>::empty(),
            m.samplers() == Set::<u64>::empty(),
            m.buffer_removals().freed.len() == 0 && m.buffer_removals().freed2.len() == 0,
            m.image_removals().freed.len() == 0 && m.image_removals().freed2.len() == 0,
    {
        ResourceManager {
            buffers: new_slots(),
            buffer_removals: DeferredRemovals::new(),
            images: new_slots(),
            image_removals: DeferredRemovals::new(),
            samplers: new_slots(),
        }
    }

    /// A key for a new buffer, live from now on.
    pub fn add_buffer(&mut self) -> (key: BufferKey)
        requires
            old(self).wf(),
            old(self).buffers().len() + 1 < u32::MAX,
        ensures
            final(self).wf(),
            !old(self).buffers().contains(key.0),
            final(self).buffers() == old(self).buffers().insert(key.0),
            final(self).buffer_removals() == old(self).buffer_removals(),
            final(self).images() == old(self).images(),
            final(self).image_removals() == old(self).image_removals(),
            final(self).samplers() == old(self).samplers(),
    {
        BufferKey(insert_slot(&mut self.buffers))
    }

    /// Whether `key` names a buffer still held (what `get_buffer` finds).
    pub fn contains_buffer(&self, key: BufferKey) -> (held: bool)
        ensures
            held == self.buffers().contains(canonical_key(key.0)),
    {
        contains_slot(&self.buffers, key.0)
    }

    /// Queues the buffer for destruction at the second frame flush from now.
    pub fn remove_buffer(&mut self, key: BufferKey)
        requires
            old(self).wf(),
        ensures
            final(self).wf(),
            (final(self).buffers(), final(self).buffer_removals())
                == removal_step(old(self).buffers(), old(self).buffer_removals(), Some(canonical_key(key.0))),
            final(self).images() == old(self).images(),
            final(self).image_removals() == old(self).image_removals(),
            final(self).samplers() == old(self).samplers(),
    {
        proof {
            lemma_canonical_key_idempotent(key.0);
        }
        self.buffer_removals.remove(key.0 | 0x1_0000_0000u64);
        proof {
            reveal_with_fuel(replay_removals, 2);
        }
    }

    /// A key for a new image, live from now on.
    pub fn add_image(&mut self) -> (key: ImageKey)
        requires
            old(self).wf(),
            old(self).images().len() + 1 < u32::MAX,
        ensures
            final(self).wf(),
            !old(self).images().contains(key.0),
            final(self).images() == old(self).images().insert(key.0),
            final(self).image_removals() == old(self).image_removals(),
            final(self).buffers() == old(self).buffers(),
            final(self).buffer_removals() == old(self).buffer_removals(),
            final(self).samplers() == old(self).samplers(),
    {
        ImageKey(insert_slot(&mut self.images))
    }

    /// Whether `key` names an image still held (what `get_image` finds).
    pub fn contains_image(&self, key: ImageKey) -> (held: bool)
        ensures
            held == self.images().contains(canonical_key(key.0)),
    {
        contains_slot(&self.images, key.0)
    }

    /// Queues the image for destruction at the second frame flush from now.
    pub fn remove_image(&mut self, key: ImageKey)
        requires
            old(self).wf(),
        ensures
            final(self).wf(),
            (final(self).images(), final(self).image_removals())
                == removal_step(old(self).images(), old(self).image_removals(), Some(canonical_key(key.0))),
            final(self).buffers() == old(self).buffers(),
            final(self).buffer_removals() == old(self).buffer_removals(),
            final(self).samplers() == old(self).samplers(),
    {
        proof {
            lemma_canonical_key_idempotent(key.0);
        }
        self.image_removals.remove(key.0 | 0x1_0000_0000u64);
        proof {
            reveal_with_fuel(replay_removals, 2);
        }
    }

    /// A key for a new sampler.
    pub fn add_sampler(&mut self) -> (key: SamplerKey)
        requires
            old(self).wf(),
            old(self).samplers().len() + 1 < u32::MAX,
        ensures
            final(self).wf(),
            !old(self).samplers().contains(key.0),
            final(self).samplers() == old(self).samplers().insert(key.0),
            final(self).buffers() == old(self).buffers(),
            final(self).buffer_removals() == old(self).buffer_removals(),
            final(self).images() == old(self).images(),
            final(self).image_removals() == old(self).image_removals(),
    {
        SamplerKey(insert_slot(&mut self.samplers))
    }

    /// Whether `key` names a sampler still held (what `get_sampler` finds).
    pub fn contains_sampler(&self, key: SamplerKey) -> (held: bool)
        ensures
            held == self.samplers().contains(canonical_key(key.0)),
    {
        contains_slot(&self.samplers, key.0)
    }

    /// Removes the sampler at once; `false` when the key named no sampler.
    pub fn remove_sampler(&mut self, key: SamplerKey) -> (removed: bool)
        requires
            old(self).wf(),
        ensures
            final(self).wf(),
            removed == old(self).samplers().contains(canonical_key(key.0)),
            final(self).samplers() == old(self).samplers().remove(canonical_key(key.0)),
            final(self).buffers() == old(self).buffers(),
            final(self).buffer_removals() == old(self).buffer_removals(),
            final(self).images() == old(self).images(),
            final(self).image_removals() == old(self).image_removals(),
    {
        remove_slot(&mut self.samplers, key.0)
    }

    /// Ends a frame: destroys the buffers and images removed before the previous flush and
    /// hands their keys back (in the order they were removed) so that the caller can
    /// destroy the resources themselves; the removals of this frame become due at the
    /// next flush.
    pub fn flush_frame(&mut self) -> (destroyed: (Vec<BufferKey>, Vec<ImageKey>))
        requires
            old(self).wf(),
        ensures
            final(self).wf(),
            (final(self).buffers(), final(self).buffer_removals())
                == removal_step(old(self).buffers(), old(self).buffer_removals(), None),
            (final(self).images(), final(self).image_removals())
                == removal_step(old(self).images(), old(self).image_removals(), None),
            final(self).samplers() == old(self).samplers(),
            destroyed.0@.len() == old(self).buffer_removals().freed2.len(),
            forall|i: int| 0 <= i < destroyed.0@.len() ==> (#[trigger] destroyed.0@[i]).0 == old(self).buffer_removals().freed2[i],
            destroyed.1@.len() == old(self).image_removals().freed2.len(),
            forall|i: int| 0 <= i < destroyed.1@.len() ==> (#[trigger] destroyed.1@[i]).0 == old(self).image_removals().freed2[i],
    {
        proof {
            reveal_with_fuel(replay_removals, 2);
        }
        let buffer_keys = self.buffer_removals.flush_frame();
        let buffers = destroy_keys(&mut self.buffers, &buffer_keys);
        let image_keys = self.image_removals.flush_frame();
        let images = destroy_keys(&mut self.images, &image_keys);
        let mut destroyed_buffers: Vec<BufferKey> = Vec::new();
        let mut i: usize = 0;
        while i < buffer_keys.len()
            invariant
                i <= buffer_keys@.len(),
                destroyed_buffers@.len() == i,
                forall|j: int| 0 <= j < i ==> (#[trigger] destroyed_buffers@[j]).0 == buffer_keys@[j],
            decreases buffer_keys@.len() - i,
        {
            destroyed_buffers.push(BufferKey(buffer_keys[i]));
            i = i + 1;
        }
        let mut destroyed_images: Vec<ImageKey> = Vec::new();
        let mut i: usize = 0;
        while i < image_keys.len()
            invariant
                i <= image_keys@.len(),
                destroyed_images@.len() == i,
                forall|j: int| 0 <= j < i ==> (#[trigger] destroyed_images@[j]).0 == image_keys@[j],
            decreases image_keys@.len() - i,
        {
            destroyed_images.push(ImageKey(image_keys[i]));
            i = i + 1;
        }
        let _ = (buffers, images);
        (destroyed_buffers, destroyed_images)
    }
}

proof fn lemma_canonical_key_idempotent(ffi: u64)
    ensures
        canonical_key(canonical_key(ffi)) == canonical_key(ffi),
{
    assert((ffi | 0x1_0000_0000u64) | 0x1_0000_0000u64 == ffi | 0x1_0000_0000u64) by (bit_vector);
}

/// Removes each of `keys` (keys as slotmap makes them) from the slots: the keys held
/// afterwards are those held before and not among `keys`.
fn destroy_keys(slots: &mut ResourceSlots, keys: &Vec<u64>) -> (removed: usize)
    requires
        forall|i: int| 0 <= i < keys@.len() ==> canonical_key(#[trigger] keys@[i]) == keys@[i],
    ensures
        live_keys(*final(slots)) == Set::new(|k: u64| live_keys(*old(slots)).contains(k) && !keys@.contains(k)),
        live_keys(*old(slots)).finite() ==> live_keys(*final(slots)).finite(),
        removed <= keys@.len(),
{
    let mut i: usize = 0;
    let mut removed: usize = 0;
    while i < keys.len()
        invariant
            i <= keys@.len(),
            removed <= i,
            forall|j: int| 0 <= j < keys@.len() ==> canonical_key(#[trigger] keys@[j]) == keys@[j],
            live_keys(*slots) == Set::new(|k: u64| live_keys(*old(slots)).contains(k) && !keys@.take(i as int).contains(k)),
            live_keys(*old(slots)).finite() ==> live_keys(*slots).finite(),
        decreases keys@.len() - i,
    {
        let ghost before = live_keys(*slots);
        let key = keys[i];
        if remove_slot(slots, key) {
            removed = removed + 1;
        }
        proof {
            let prev = keys@.take(i as int);
            let next = keys@.take(i + 1);
            assert forall|k: u64| next.contains(k) == (prev.contains(k) || k == key) by {
                if prev.contains(k) {
                    let j = choose|j: int| 0 <= j < prev.len() && prev[j] == k;
                    assert(next[j] == k);
                }
                if k == key {
                    assert(next[i as int] == key);
                }
                if next.contains(k) {
                    let j = choose|j: int| 0 <= j < next.len() && next[j] == k;
                    if j < i {
                        assert(prev[j] == k);
                    }
                }
            }
            assert(live_keys(*slots) =~= Set::new(|k: u64| live_keys(*old(slots)).contains(k) && !next.contains(k)));
        }
        i = i + 1;
    }
    assert(keys@.take(i as int) =~= keys@);
    removed
}

/// Replaying one more operation is one more step from where the others left off.
pub proof fn lemma_replay_one_more(
    held: Set<u64>,
    removals: DeferredRemovalsView<u64>,
    ops: Seq<Option<u64>>,
    op: Option<u64>,
)
    ensures
        replay_removals(held, removals, ops.push(op)) == removal_step(
            replay_removals(held, removals, ops).0,
            replay_removals(held, removals, ops).1,
            op,
        ),
{
    assert(ops.push(op).drop_last() =~= ops);
    assert(seq![op].drop_last() =~= Seq::<Option<u64>>::empty());
    reveal_with_fuel(replay_removals, 2);
}

/// A buffer that the manager holds, removed once with `remove_buffer` and not removed again,
/// is still found by `contains_buffer` through the first frame flush that follows and is
/// gone from the second flush on, whatever other buffers are removed in between (`ops`:
/// `Some(key)` a removal of that key, `None` a flush).
pub proof fn lemma_buffer_destroyed_at_second_flush(m: &ResourceManager, key: BufferKey, ops: Seq<Option<u64>>)
    requires
        m.wf(),
        m.buffers().contains(key.0),
        !m.buffer_removals().freed.contains(key.0),
        !m.buffer_removals().freed2.contains(key.0),
        forall|i: int| 0 <= i < ops.len() ==> ops[i] != Some(key.0),
    ensures
        ({
            let removed = removal_step(m.buffers(), m.buffer_removals(), Some(canonical_key(key.0)));
            let (held, _) = replay_removals(removed.0, removed.1, ops);
            &&& flush_count(ops) <= 1 ==> held.contains(canonical_key(key.0))
            &&& flush_count(ops) >= 2 ==> !held.contains(canonical_key(key.0))
        }),
{
    assert(canonical_key(key.0) == key.0);
    reveal_with_fuel(replay_removals, 2);
    assert(seq![Some(key.0)].drop_last() =~= Seq::<Option<u64>>::empty());
    lemma_removal_deferred_two_flushes(m.buffers(), m.buffer_removals(), key.0, ops);
}

/// An image that the manager holds, removed once with `remove_image` and not removed again,
/// is still found by `contains_image` through the first frame flush that follows and is
/// gone from the second flush on.
pub proof fn lemma_image_destroyed_at_second_flush(m: &ResourceManager, key: ImageKey, ops: Seq<Option<u64>>)
    requires
        m.wf(),
        m.images().contains(key.0),
        !m.image_removals().freed.contains(key.0),
        !m.image_removals().freed2.contains(key.0),
        forall|i: int| 0 <= i < ops.len() ==> ops[i] != Some(key.0),
    ensures
        ({
            let removed = removal_step(m.images(), m.image_removals(), Some(canonical_key(key.0)));
            let (held, _) = replay_removals(removed.0, removed.1, ops);
            &&& flush_count(ops) <= 1 ==> held.contains(canonical_key(key.0))
            &&& flush_count(ops) >= 2 ==> !held.contains(canonical_key(key.0))
        }),
{
    assert(canonical_key(key.0) == key.0);
    reveal_with_fuel(replay_removals, 2);
    assert(seq![Some(key.0)].drop_last() =~= Seq::<Option<u64>>::empty());
    lemma_removal_deferred_two_flushes(m.images(), m.image_removals(), key.0, ops);
}

} // verus!
