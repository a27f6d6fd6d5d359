//! The decisions an executor makes while it records and submits a compiled render graph:
//! which frame context to use, how Vulkan objects are reused from per-frame pools, where
//! each buffer write lands, what a framebuffer's extent is, and the parameters of each
//! draw, copy and submission. The Vulkan calls themselves are made by the caller.
use vstd::prelude::*;
use crate::render_graph::{
    BufferBarrier, BufferBarrierSource, BufferOffset, BufferWrite2, CommandBuffer, CommandBufferDependency,
    ImageBarrier, ImageBarrierSource, DrawCommandDispatch, ImageCopyBuffer, ImageCopyImage,
    IndexType, staging_size, writes_in_bounds, lemma_staging_size_prefix_monotone,
};
use crate::resource_managers::{BufferResourceAccess, BufferTempResource, ImageResourceAccess};
use crate::SurfaceHandle;

verus! {

// ---------------------------------------------------------------------------------------
// Frames in flight

/// The frame context used by the next frame: frames in flight are used in turn.
pub fn next_frame_index(frame_index: usize, frame_count: usize) -> (next: usize)
    requires
        frame_count > 0,
        frame_index < usize::MAX,
    ensures
        next == (frame_index + 1) % (frame_count as int),
        next < frame_count,
{
    (frame_index + 1) % frame_count
}

/// The frame context used `n` frames after `frame_index`, one `next_frame_index` step
/// per frame.
pub open spec fn frame_after(frame_index: int, frame_count: int, n: nat) -> int
    decreases n,
{
    if n == 0 {
        frame_index
    } else {
        (frame_after(frame_index, frame_count, (n - 1) as nat) + 1) % frame_count
    }
}

/// `n` frames after context `i` the executor uses context `(i + n) % frame_count`, from
/// any start once a frame has passed: the contexts are used in turn, the index is always
/// that of a context, and each context comes back every `frame_count` frames.
pub proof fn lemma_frames_cycle(frame_index: int, frame_count: int, n: nat)
    requires
        0 <= frame_index,
        0 < frame_count,
    ensures
        n > 0 || frame_index < frame_count ==> frame_after(frame_index, frame_count, n) == (
        frame_index + n) % frame_count,
        n > 0 ==> 0 <= frame_after(frame_index, frame_count, n) < frame_count,
    decreases n,
{
    if n > 0 {
        lemma_frames_cycle(frame_index, frame_count, (n - 1) as nat);
        let p = frame_index + n - 1;
        let prev = frame_after(frame_index, frame_count, (n - 1) as nat);
        if n > 1 || frame_index < frame_count {
            assert(prev == p % frame_count);
            assert(((p % frame_count) + 1) % frame_count == (p + 1) % frame_count) by {
                vstd::arithmetic::div_mod::lemma_add_mod_noop(p, 1, frame_count);
                if frame_count > 1 {
                    vstd::arithmetic::div_mod::lemma_small_mod(1, frame_count as nat);
                }
            }
        } else {
            assert(prev == frame_index);
        }
        vstd::arithmetic::div_mod::lemma_mod_bound(prev + 1, frame_count);
    } else if frame_index < frame_count {
        vstd::arithmetic::div_mod::lemma_small_mod(frame_index as nat, frame_count as nat);
    }
}

/// The executor's frame state: how many frame contexts (frames in flight) it has and which
/// one the current frame uses.
pub struct FrameState {
    frame_index: usize,
    frame_count: usize,
}

impl FrameState {
    pub closed spec fn index(&self) -> nat {
        self.frame_index as nat
    }

    pub closed spec fn count(&self) -> nat {
        self.frame_count as nat
    }

    /// The index names a frame context (or is 0 when there is none).
    pub open spec fn wf(&self) -> bool {
        if self.count() == 0 {
            self.index() == 0
        } else {
            self.index() < self.count()
        }
    }

    /// `frame_count` frame contexts, the first one current.
    pub fn new(frame_count: usize) -> (state: Self)
        ensures
            state.wf(),
            state.index() == 0,
            state.count() == frame_count,
    {
        FrameState { frame_index: 0, frame_count }
    }

    pub fn frame_index(&self) -> (index: usize)
        ensures
            index == self.index(),
    {
        self.frame_index
    }

    pub fn frame_count(&self) -> (count: usize)
        ensures
            count == self.count(),
    {
        self.frame_count
    }

    /// Starts a frame: moves on to the next frame context, in turn, and returns it; the
    /// caller waits on that context's fences and resets its pools before using it. The
    /// step is taken before anything else of the frame, so it holds whether the frame
    /// then succeeds or fails.
    pub fn begin_frame(&mut self) -> (index: usize)
        requires
            old(self).wf(),
            old(self).count() > 0,
        ensures
            final(self).wf(),
            final(self).count() == old(self).count(),
            final(self).index() == (old(self).index() + 1) % old(self).count(),
            index == final(self).index(),
            index < final(self).count(),
    {
        self.frame_index = next_frame_index(self.frame_index, self.frame_count);
        self.frame_index
    }
}

/// Over any number of frames, the executor uses the frame contexts in turn: `n` frames
/// after a state, the current context is `(index + n) % count`, always a valid context.
pub proof fn lemma_frame_state_cycle(state: &FrameState, n: nat)
    requires
        state.wf(),
        state.count() > 0,
    ensures
        frame_after(state.index() as int, state.count() as int, n) == (state.index() + n) % state.count(),
        0 <= frame_after(state.index() as int, state.count() as int, n) < state.count(),
{
    lemma_frames_cycle(state.index() as int, state.count() as int, n);
    if n == 0 {
        assert(frame_after(state.index() as int, state.count() as int, 0) == state.index());
    }
}

// ---------------------------------------------------------------------------------------
// Acquiring swapchain images

/// What acquiring the next image of a swapchain gave: an image, or the news that the
/// swapchain is out of date.
#[derive(PartialEq, Eq, Structural, Clone, Copy, Debug)]
pub enum AcquireOutcome {
    Acquired { image_index: u32, suboptimal: bool },
    OutOfDate,
}

/// What the caller does next while acquiring the swapchain images of a frame.
#[derive(PartialEq, Eq, Structural, Clone, Copy, Debug)]
pub enum AcquireAction {
    /// Acquire the next image of this surface's swapchain.
    Acquire { surface: SurfaceHandle },
    /// Rebuild this surface's swapchain, then acquire from it again.
    Rebuild { surface: SurfaceHandle },
    /// Every surface has its image.
    Done,
}

/// The acquisition of one image from the swapchain of each surface a frame renders to,
/// in order, rebuilding a swapchain as long as it reports being out of date.
pub struct SwapchainAcquisition {
    surfaces: Vec<SurfaceHandle>,
    acquired: Vec<u32>,
}

/// The action while `acquired` images of `surfaces` have been acquired.
pub open spec fn acquire_action_at(surfaces: Seq<SurfaceHandle>, acquired: nat) -> AcquireAction {
    if acquired < surfaces.len() {
        AcquireAction::Acquire { surface: surfaces[acquired as int] }
    } else {
        AcquireAction::Done
    }
}

impl SwapchainAcquisition {
    pub closed spec fn surfaces(&self) -> Seq<SurfaceHandle> {
        self.surfaces@
    }

    /// The image index acquired for each surface so far, in order.
    pub closed spec fn acquired(&self) -> Seq<u32> {
        self.acquired@
    }

    pub open spec fn wf(&self) -> bool {
        self.acquired().len() <= self.surfaces().len()
    }

    /// Starts acquiring an image for each surface, in order.
    pub fn new(surfaces: Vec<SurfaceHandle>) -> (a: Self)
        ensures
            a.wf(),
            a.surfaces() == surfaces@,
            a.acquired() == Seq::<u32>::empty(),
    {
        SwapchainAcquisition { surfaces, acquired: Vec::new() }
    }

    /// Acquire from the next surface, or stop when each has its image.
    pub fn next_action(&self) -> (action: AcquireAction)
        requires
            self.wf(),
        ensures
            action == acquire_action_at(self.surfaces(), self.acquired().len()),
    {
        if self.acquired.len() < self.surfaces.len() {
            AcquireAction::Acquire { surface: self.surfaces[self.acquired.len()] }
        } else {
            AcquireAction::Done
        }
    }

    /// Takes the outcome of acquiring from the current surface: an image is kept and the
    /// acquisition moves on to the next surface (a suboptimal swapchain is used as it is);
    /// an out-of-date swapchain is rebuilt and the same surface tried again.
    pub fn on_outcome(&mut self, outcome: AcquireOutcome) -> (action: AcquireAction)
        requires
            old(self).wf(),
            old(self).acquired().len() < old(self).surfaces().len(),
        ensures
            final(self).wf(),
            final(self).surfaces() == old(self).surfaces(),
            match outcome {
                AcquireOutcome::Acquired { image_index, .. } => {
                    &&& final(self).acquired() == old(self).acquired().push(image_index)
                    &&& action == acquire_action_at(final(self).surfaces(), final(self).acquired().len())
                },
                AcquireOutcome::OutOfDate => {
                    &&& final(self).acquired() == old(self).acquired()
                    &&& action == (AcquireAction::Rebuild {
                        surface: old(self).surfaces()[old(self).acquired().len() as int],
                    })
                },
            },
    {
        match outcome {
            AcquireOutcome::Acquired { image_index, .. } => {
                self.acquired.push(image_index);
                self.next_action()
            },
            AcquireOutcome::OutOfDate => AcquireAction::Rebuild { surface: self.surfaces[self.acquired.len()] },
        }
    }

    /// The image index acquired for each surface, in the order of the surfaces.
    pub fn into_acquired(self) -> (images: Vec<u32>)
        ensures
            images@ == self.acquired(),
    {
        self.acquired
    }
}

// ---------------------------------------------------------------------------------------
// Staged writes

/// Some write of the plan is staged and copied into buffer `buffer`.
pub open spec fn staged_into(plan: Seq<BufferWritePlan>, buffer: int) -> bool {
    exists|k: int| 0 <= k < plan.len() && (#[trigger] plan[k]) is Staged && plan[k]->target.buffer == buffer
}

/// After the copies out of the staging buffer, every buffer they wrote into was last
/// accessed by a transfer write; the others keep their last access.
pub fn mark_staged_targets(resources: &mut Vec<BufferTempResource>, plan: &[BufferWritePlan])
    requires
        forall|k: int| 0 <= k < plan@.len() && (#[trigger] plan@[k]) is Staged
            ==> plan@[k]->target.buffer < old(resources)@.len(),
    ensures
        final(resources)@.len() == old(resources)@.len(),
        forall|i: int| 0 <= i < old(resources)@.len() ==> #[trigger] final(resources)@[i] == (if staged_into(plan@, i) {
            BufferTempResource { is_mapped: old(resources)@[i].is_mapped, last_access: BufferResourceAccess::TransferWrite }
        } else {
            old(resources)@[i]
        }),
{
    let mut k: usize = 0;
    while k < plan.len()
        invariant
            k <= plan@.len(),
            resources@.len() == old(resources)@.len(),
            forall|j: int| 0 <= j < plan@.len() && (#[trigger] plan@[j]) is Staged
                ==> plan@[j]->target.buffer < old(resources)@.len(),
            forall|i: int| 0 <= i < old(resources)@.len() ==> #[trigger] resources@[i] == (if staged_into(plan@.take(k as int), i) {
                BufferTempResource { is_mapped: old(resources)@[i].is_mapped, last_access: BufferResourceAccess::TransferWrite }
            } else {
                old(resources)@[i]
            }),
        decreases plan@.len() - k,
    {
        let ghost before = resources@;
        match plan[k] {
            BufferWritePlan::Staged { target, .. } => {
                let is_mapped = resources[target.buffer].is_mapped;
                resources.set(target.buffer, BufferTempResource { is_mapped, last_access: BufferResourceAccess::TransferWrite });
            },
            BufferWritePlan::Mapped { .. } => {},
        }
        proof {
            let next = plan@.take(k + 1);
            let prev = plan@.take(k as int);
            assert forall|i: int| 0 <= i < old(resources)@.len() implies staged_into(next, i) == (staged_into(prev, i)
                || (plan@[k as int] is Staged && plan@[k as int]->target.buffer == i)) by {
                if staged_into(prev, i) {
                    let j = choose|j: int| 0 <= j < prev.len() && (#[trigger] prev[j]) is Staged && prev[j]->target.buffer == i;
                    assert(next[j] == prev[j]);
                }
                if plan@[k as int] is Staged && plan@[k as int]->target.buffer == i {
                    assert(next[k as int] == plan@[k as int]);
                }
                if staged_into(next, i) {
                    let j = choose|j: int| 0 <= j < next.len() && (#[trigger] next[j]) is Staged && next[j]->target.buffer == i;
                    if j < k {
                        assert(prev[j] == next[j]);
                    }
                }
            }
        }
        k = k + 1;
    }
    assert(plan@.take(k as int) =~= plan@);
}

// ---------------------------------------------------------------------------------------
// Pools of Vulkan objects reused every frame

/// Vulkan objects (command buffers, semaphores or fences, by raw handle) handed out in
/// order during a frame and all reused after the frame's reset.
pub struct HandlePool {
    handles: Vec<u64>,
    next_index: usize,
}

impl HandlePool {
    /// The objects the pool owns, in the order they are handed out.
    pub closed spec fn handles(&self) -> Seq<u64> {
        self.handles@
    }

    /// How many objects were handed out since the last reset.
    pub closed spec fn used(&self) -> nat {
        self.next_index as nat
    }

    pub closed spec fn wf(&self) -> bool {
        self.next_index <= self.handles@.len()
    }

    /// A pool of already created objects, none handed out.
    pub fn new(handles: Vec<u64>) -> (pool: Self)
        ensures
            pool.wf(),
            pool.handles() == handles@,
            pool.used() == 0,
    {
        HandlePool { handles, next_index: 0 }
    }

    /// Every object is in use: the next one must be created first.
    pub fn is_exhausted(&self) -> (b: bool)
        requires
            self.wf(),
        ensures
            b == (self.used() == self.handles().len()),
    {
        self.next_index >= self.handles.len()
    }

    /// How many command buffers to allocate when the pool runs out: as many as it has,
    /// and at least two.
    pub fn grow_count(&self) -> (count: u32)
        ensures
            count == (if self.handles().len() < 2 { 2 } else { self.handles().len() }) as u32,
    {
        let len = self.handles.len();
        if len < 2 {
            2
        } else {
            len as u32
        }
    }

    /// Adds newly created objects after the existing ones.
    pub fn extend(&mut self, new_handles: Vec<u64>)
        requires
            old(self).wf(),
        ensures
            final(self).wf(),
            final(self).handles() == old(self).handles() + new_handles@,
            final(self).used() == old(self).used(),
    {
        let mut new_handles = new_handles;
        self.handles.append(&mut new_handles);
    }

    /// Hands out the next object.
    pub fn take(&mut self) -> (handle: u64)
        requires
            old(self).wf(),
            old(self).used() < old(self).handles().len(),
        ensures
            final(self).wf(),
            handle == old(self).handles()[old(self).used() as int],
            final(self).used() == old(self).used() + 1,
            final(self).handles() == old(self).handles(),
    {
        let len = self.handles.len();
        assert(self.next_index < len);
        let handle = self.handles[self.next_index];
        self.next_index = self.next_index + 1;
        handle
    }

    /// The objects handed out since the last reset (the fences to wait for and reset).
    pub fn in_use(&self) -> (handles: &[u64])
        requires
            self.wf(),
        ensures
            handles@ == self.handles().take(self.used() as int),
    {
        let (prefix, _) = self.handles.as_slice().split_at(self.next_index);
        prefix
    }

    /// Makes every object available again.
    pub fn reset(&mut self)
        requires
            old(self).wf(),
        ensures
            final(self).wf(),
            final(self).used() == 0,
            final(self).handles() == old(self).handles(),
    {
        self.next_index = 0;
    }
}

// ---------------------------------------------------------------------------------------
// Buffer writes

/// Where the bytes of a buffer write go.
#[derive(PartialEq, Eq, Structural, Clone, Copy, Debug)]
pub enum BufferWritePlan {
    /// Straight into the mapped memory of the buffer, bytes `start..end`.
    Mapped { buffer: usize, start: usize, end: usize },
    /// Into the staging buffer at `staging_offset`, then copied to `target`.
    Staged { target: BufferOffset, size: usize, staging_offset: usize },
}

/// The plan for one write, with the staging offset reached by the writes before it.
pub open spec fn write_plan(w: BufferWrite2, resources: Seq<BufferTempResource>, staging_offset: int) -> BufferWritePlan {
    if resources[w.buffer_offset.buffer as int].is_mapped {
        BufferWritePlan::Mapped {
            buffer: w.buffer_offset.buffer,
            start: w.buffer_offset.offset as usize,
            end: (w.buffer_offset.offset + w.write_size) as usize,
        }
    } else {
        BufferWritePlan::Staged { target: w.buffer_offset, size: w.write_size, staging_offset: staging_offset as usize }
    }
}

/// Writes into mapped buffers end within the address space.
pub open spec fn mapped_writes_fit(writes: Seq<BufferWrite2>, resources: Seq<BufferTempResource>) -> bool {
    forall|i: int|
        0 <= i < writes.len() && resources[(#[trigger] writes[i]).buffer_offset.buffer as int].is_mapped
            ==> writes[i].buffer_offset.offset + writes[i].write_size <= usize::MAX
}

/// Where each write goes: a write into a mapped buffer goes straight to its memory;
/// the others are packed one after the other into the staging buffer, in order.
pub fn plan_buffer_writes(writes: &[BufferWrite2], resources: &[BufferTempResource]) -> (plan: Vec<BufferWritePlan>)
    requires
        writes_in_bounds(writes@, resources@.len()),
        staging_size(writes@, resources@) <= usize::MAX,
        mapped_writes_fit(writes@, resources@),
    ensures
        plan@.len() == writes@.len(),
        forall|k: int| 0 <= k < writes@.len() ==> #[trigger] plan@[k] == write_plan(
            writes@[k],
            resources@,
            staging_size(writes@.take(k), resources@),
        ),
{
    let mut plan: Vec<BufferWritePlan> = Vec::new();
    let mut staging_offset: usize = 0;
    let mut i: usize = 0;
    while i < writes.len()
        invariant
            i <= writes@.len(),
            writes_in_bounds(writes@, resources@.len()),
            staging_size(writes@, resources@) <= usize::MAX,
            mapped_writes_fit(writes@, resources@),
            staging_offset == staging_size(writes@.take(i as int), resources@),
            plan@.len() == i,
            forall|k: int| 0 <= k < i ==> #[trigger] plan@[k] == write_plan(
                writes@[k],
                resources@,
                staging_size(writes@.take(k), resources@),
            ),
        decreases writes@.len() - i,
    {
        let w = writes[i];
        assert(writes@.take(i + 1).drop_last() =~= writes@.take(i as int));
        proof {
            lemma_staging_size_prefix_monotone(writes@, resources@, i + 1);
        }
        assert(w.buffer_offset.buffer < resources@.len());
        if resources[w.buffer_offset.buffer].is_mapped {
            let start = w.buffer_offset.offset as usize;
            plan.push(BufferWritePlan::Mapped { buffer: w.buffer_offset.buffer, start, end: start + w.write_size });
        } else {
            plan.push(BufferWritePlan::Staged { target: w.buffer_offset, size: w.write_size, staging_offset });
            staging_offset = staging_offset + w.write_size;
        }
        i = i + 1;
    }
    plan
}

/// Staged writes are packed without overlap inside the staging buffer, whose size is the
/// one `calc_needed_staging_size` computes: a staged write ends before any later one
/// starts, and within the total.
pub proof fn lemma_staged_writes_disjoint(writes: Seq<BufferWrite2>, resources: Seq<BufferTempResource>, j: int, k: int)
    requires
        0 <= j < k < writes.len(),
        !resources[writes[j].buffer_offset.buffer as int].is_mapped,
    ensures
        staging_size(writes.take(j), resources) + writes[j].write_size <= staging_size(writes.take(k), resources),
        staging_size(writes.take(k), resources) <= staging_size(writes, resources),
    decreases k - j,
{
    lemma_staging_size_prefix_monotone(writes, resources, k);
    assert(writes.take(j + 1).drop_last() =~= writes.take(j));
    if j + 1 < k {
        lemma_staging_prefix_step(writes, resources, j + 1, k);
    }
}

proof fn lemma_staging_prefix_step(writes: Seq<BufferWrite2>, resources: Seq<BufferTempResource>, a: int, b: int)
    requires
        0 <= a <= b <= writes.len(),
    ensures
        staging_size(writes.take(a), resources) <= staging_size(writes.take(b), resources),
    decreases b - a,
{
    if a < b {
        lemma_staging_prefix_step(writes, resources, a, b - 1);
        assert(writes.take(b).drop_last() =~= writes.take(b - 1));
    }
}

// ---------------------------------------------------------------------------------------
// Raster passes

/// Why a framebuffer cannot be rendered to.
#[derive(PartialEq, Eq, Structural, Clone, Copy, Debug)]
pub enum FramebufferError {
    /// A color attachment's extent differs from the first one's.
    ColorExtentMismatch,
    /// The depth-stencil attachment's extent differs from the color attachments'.
    DepthExtentMismatch,
    /// The framebuffer has no attachment.
    NoAttachments,
}

/// The extent of a framebuffer from its attachments' sizes.
pub open spec fn spec_framebuffer_extent(colors: Seq<[u32; 2]>, depth: Option<[u32; 2]>) -> Result<[u32; 2], FramebufferError> {
    if exists|i: int| 0 <= i < colors.len() && #[trigger] colors[i] != colors[0] {
        Err(FramebufferError::ColorExtentMismatch)
    } else if colors.len() > 0 {
        match depth {
            Some(d) => if d != colors[0] {
                Err(FramebufferError::DepthExtentMismatch)
            } else {
                Ok(colors[0])
            },
            None => Ok(colors[0]),
        }
    } else {
        match depth {
            Some(d) => Ok(d),
            None => Err(FramebufferError::NoAttachments),
        }
    }
}

/// The render area of a framebuffer: the common extent of its attachments.
pub fn framebuffer_extent(color_sizes: &[[u32; 2]], depth_size: Option<[u32; 2]>) -> (extent: Result<[u32; 2], FramebufferError>)
    ensures
        extent == spec_framebuffer_extent(color_sizes@, depth_size),
{
    if color_sizes.len() == 0 {
        return match depth_size {
            Some(d) => Ok(d),
            None => Err(FramebufferError::NoAttachments),
        };
    }
    let first = color_sizes[0];
    let mut i: usize = 1;
    while i < color_sizes.len()
        invariant
            1 <= i <= color_sizes@.len(),
            first == color_sizes@[0],
            forall|k: int| 0 <= k < i ==> color_sizes@[k] == first,
        decreases color_sizes@.len() - i,
    {
        let size = color_sizes[i];
        if size[0] != first[0] || size[1] != first[1] {
            assert(color_sizes@[i as int] != color_sizes@[0]);
            return Err(FramebufferError::ColorExtentMismatch);
        }
        assert(size =~= first);
        i = i + 1;
    }
    match depth_size {
        Some(d) => {
            if d[0] != first[0] || d[1] != first[1] {
                assert(d != first);
                Err(FramebufferError::DepthExtentMismatch)
            } else {
                assert(d =~= first);
                Ok(first)
            }
        },
        None => Ok(first),
    }
}

/// The render area is the extent that all attachments share: when the color attachments
/// all have extent `e` and the depth attachment, if any, has it too, the area is `e`
/// (whether there are color attachments or only a depth attachment); the framebuffer is
/// refused as empty exactly when it has no attachment at all, for a color mismatch exactly
/// when two color attachments differ, and for a depth mismatch exactly when the colors
/// agree and the depth attachment differs from them. An accepted area is the extent of
/// every attachment.
pub proof fn lemma_framebuffer_extent_is_common_extent(colors: Seq<[u32; 2]>, depth: Option<[u32; 2]>, e: [u32; 2])
    ensures
        (colors.len() > 0 || depth is Some) && (forall|i: int| 0 <= i < colors.len() ==> colors[i] == e) && (
        depth is Some ==> depth->0 == e) ==> spec_framebuffer_extent(colors, depth) == Ok::<[u32; 2], FramebufferError>(e),
        (spec_framebuffer_extent(colors, depth) == Err::<[u32; 2], FramebufferError>(FramebufferError::NoAttachments))
            == (colors.len() == 0 && depth is None),
        (spec_framebuffer_extent(colors, depth) == Err::<[u32; 2], FramebufferError>(FramebufferError::ColorExtentMismatch))
            == (exists|i: int, j: int| 0 <= i < colors.len() && 0 <= j < colors.len() && #[trigger] colors[i] != #[trigger] colors[j]),
        (spec_framebuffer_extent(colors, depth) == Err::<[u32; 2], FramebufferError>(FramebufferError::DepthExtentMismatch))
            == (colors.len() > 0 && (forall|i: int| 0 <= i < colors.len() ==> #[trigger] colors[i] == colors[0]) && depth is Some
            && depth->0 != colors[0]),
        spec_framebuffer_extent(colors, depth) == Ok::<[u32; 2], FramebufferError>(e) ==> (forall|i: int|
            0 <= i < colors.len() ==> colors[i] == e) && (depth is Some ==> depth->0 == e) && (colors.len() > 0
            || depth is Some),
{
    if exists|i: int, j: int| 0 <= i < colors.len() && 0 <= j < colors.len() && colors[i] != colors[j] {
        let (i, j) = choose|i: int, j: int| 0 <= i < colors.len() && 0 <= j < colors.len() && colors[i] != colors[j];
        if colors[i] == colors[0] {
            assert(colors[j] != colors[0]);
        } else {
            assert(colors[i] != colors[0]);
        }
    }
    if exists|i: int| 0 <= i < colors.len() && #[trigger] colors[i] != colors[0] {
        let i = choose|i: int| 0 <= i < colors.len() && #[trigger] colors[i] != colors[0];
        assert(colors[i] != colors[0]);
    }
    if colors.len() > 0 && (forall|i: int| 0 <= i < colors.len() ==> colors[i] == e) {
        assert(colors[0] == e);
    }
}

/// `VK_ATTACHMENT_LOAD_OP_LOAD`
pub const ATTACHMENT_LOAD_OP_LOAD: i32 = 0;
/// `VK_ATTACHMENT_LOAD_OP_CLEAR`
pub const ATTACHMENT_LOAD_OP_CLEAR: i32 = 1;

/// An attachment with a clear value is cleared, any other keeps its contents.
pub fn attachment_load_op(has_clear: bool) -> (op: i32)
    ensures
        op == if has_clear { ATTACHMENT_LOAD_OP_CLEAR } else { ATTACHMENT_LOAD_OP_LOAD },
{
    if has_clear { ATTACHMENT_LOAD_OP_CLEAR } else { ATTACHMENT_LOAD_OP_LOAD }
}

/// `VK_INDEX_TYPE_UINT16`
pub const VK_INDEX_TYPE_UINT16: i32 = 0;
/// `VK_INDEX_TYPE_UINT32`
pub const VK_INDEX_TYPE_UINT32: i32 = 1;

pub open spec fn spec_vk_index_type(t: IndexType) -> i32 {
    match t {
        IndexType::U16 => VK_INDEX_TYPE_UINT16,
        IndexType::U32 => VK_INDEX_TYPE_UINT32,
    }
}

/// The raw `VkIndexType` of an index type.
pub fn vk_index_type(t: IndexType) -> (raw: i32)
    ensures
        raw == spec_vk_index_type(t),
{
    match t {
        IndexType::U16 => VK_INDEX_TYPE_UINT16,
        IndexType::U32 => VK_INDEX_TYPE_UINT32,
    }
}

/// The number of values of a range (none when it is empty or reversed).
pub open spec fn range_len(start: u32, end: u32) -> u32 {
    if start < end { (end - start) as u32 } else { 0 }
}

fn range_count(r: &std::ops::Range<u32>) -> (n: u32)
    ensures
        n == range_len(r.start, r.end),
{
    if r.start < r.end { r.end - r.start } else { 0 }
}

/// The parameters of the Vulkan draw command for a dispatch.
#[derive(PartialEq, Eq, Structural, Clone, Copy, Debug)]
pub enum DrawCall {
    Draw { vertex_count: u32, instance_count: u32, first_vertex: u32, first_instance: u32 },
    DrawIndexed {
        index_buffer: BufferOffset,
        index_type: i32,
        index_count: u32,
        instance_count: u32,
        first_index: u32,
        vertex_offset: i32,
        first_instance: u32,
    },
    DrawIndirect { buffer: BufferOffset, draw_count: u32, stride: u32 },
    DrawIndexedIndirect { index_buffer: BufferOffset, index_type: i32, buffer: BufferOffset, draw_count: u32, stride: u32 },
}

/// The draw command for a dispatch.
pub open spec fn spec_draw_call(dispatch: DrawCommandDispatch) -> DrawCall {
    match dispatch {
        DrawCommandDispatch::Draw { vertices, instances } => DrawCall::Draw {
            vertex_count: range_len(vertices.start, vertices.end),
            instance_count: range_len(instances.start, instances.end),
            first_vertex: vertices.start,
            first_instance: instances.start,
        },
        DrawCommandDispatch::DrawIndexed { base_vertex, indices, instances, index_buffer, index_type } => DrawCall::DrawIndexed {
            index_buffer: index_buffer,
            index_type: spec_vk_index_type(index_type),
            index_count: range_len(indices.start, indices.end),
            instance_count: range_len(instances.start, instances.end),
            first_index: indices.start,
            vertex_offset: base_vertex,
            first_instance: instances.start,
        },
        DrawCommandDispatch::DrawIndirect { indirect_buffer, draw_count, stride } => DrawCall::DrawIndirect {
            buffer: indirect_buffer,
            draw_count: draw_count,
            stride: stride,
        },
        DrawCommandDispatch::DrawIndirectIndexed { indirect_buffer, draw_count, stride, index_buffer, index_type } => DrawCall::DrawIndexedIndirect {
            index_buffer: index_buffer,
            index_type: spec_vk_index_type(index_type),
            buffer: indirect_buffer,
            draw_count: draw_count,
            stride: stride,
        },
    }
}

/// A draw covers exactly the ranges of its dispatch: it starts at the first vertex (or
/// index) and instance of the ranges and draws as many as the ranges hold (none for an
/// empty range), so it ends where they end; an indexed draw binds the dispatch's index
/// buffer and offsets vertices by its base vertex; an indirect draw reads the dispatch's
/// buffer with its count and stride; and a draw is indexed exactly when the dispatch is.
pub proof fn lemma_draw_call_covers_dispatch(dispatch: DrawCommandDispatch)
    ensures
        match (dispatch, spec_draw_call(dispatch)) {
            (
                DrawCommandDispatch::Draw { vertices, instances },
                DrawCall::Draw { vertex_count, instance_count, first_vertex, first_instance },
            ) => {
                &&& first_vertex == vertices.start && first_instance == instances.start
                &&& vertices.start <= vertices.end ==> first_vertex + vertex_count == vertices.end
                &&& vertices.start >= vertices.end ==> vertex_count == 0
                &&& instances.start <= instances.end ==> first_instance + instance_count == instances.end
                &&& instances.start >= instances.end ==> instance_count == 0
            },
            (
                DrawCommandDispatch::DrawIndexed { base_vertex, indices, instances, index_buffer, index_type },
                DrawCall::DrawIndexed {
                    index_buffer: bound,
                    index_type: raw_type,
                    index_count,
                    instance_count,
                    first_index,
                    vertex_offset,
                    first_instance,
                },
            ) => {
                &&& bound == index_buffer && vertex_offset == base_vertex
                &&& raw_type == (if index_type is U16 { VK_INDEX_TYPE_UINT16 } else { VK_INDEX_TYPE_UINT32 })
                &&& first_index == indices.start && first_instance == instances.start
                &&& indices.start <= indices.end ==> first_index + index_count == indices.end
                &&& indices.start >= indices.end ==> index_count == 0
                &&& instances.start <= instances.end ==> first_instance + instance_count == instances.end
                &&& instances.start >= instances.end ==> instance_count == 0
            },
            (
                DrawCommandDispatch::DrawIndirect { indirect_buffer, draw_count, stride },
                DrawCall::DrawIndirect { buffer, draw_count: count, stride: step },
            ) => buffer == indirect_buffer && count == draw_count && step == stride,
            (
                DrawCommandDispatch::DrawIndirectIndexed { indirect_buffer, draw_count, stride, index_buffer, index_type },
                DrawCall::DrawIndexedIndirect { index_buffer: bound, index_type: raw_type, buffer, draw_count: count, stride: step },
            ) => {
                &&& bound == index_buffer && buffer == indirect_buffer && count == draw_count && step == stride
                &&& raw_type == (if index_type is U16 { VK_INDEX_TYPE_UINT16 } else { VK_INDEX_TYPE_UINT32 })
            },
            _ => false,
        },
{
}

/// `vkCmdDraw` for the ranges; `vkCmdBindIndexBuffer` then `vkCmdDrawIndexed` for an
/// indexed draw; `vkCmdDrawIndirect`; `vkCmdBindIndexBuffer` then
/// `vkCmdDrawIndexedIndirect` for an indirect indexed draw.
pub fn draw_call(dispatch: &DrawCommandDispatch) -> (call: DrawCall)
    ensures
        call == spec_draw_call(*dispatch),
        call == match dispatch {
            DrawCommandDispatch::Draw { vertices, instances } => DrawCall::Draw {
                vertex_count: range_len(vertices.start, vertices.end),
                instance_count: range_len(instances.start, instances.end),
                first_vertex: vertices.start,
                first_instance: instances.start,
            },
            DrawCommandDispatch::DrawIndexed { base_vertex, indices, instances, index_buffer, index_type } => DrawCall::DrawIndexed {
                index_buffer: *index_buffer,
                index_type: spec_vk_index_type(*index_type),
                index_count: range_len(indices.start, indices.end),
                instance_count: range_len(instances.start, instances.end),
                first_index: indices.start,
                vertex_offset: *base_vertex,
                first_instance: instances.start,
            },
            DrawCommandDispatch::DrawIndirect { indirect_buffer, draw_count, stride } => DrawCall::DrawIndirect {
                buffer: *indirect_buffer,
                draw_count: *draw_count,
                stride: *stride,
            },
            DrawCommandDispatch::DrawIndirectIndexed { indirect_buffer, draw_count, stride, index_buffer, index_type } => DrawCall::DrawIndexedIndirect {
                index_buffer: *index_buffer,
                index_type: spec_vk_index_type(*index_type),
                buffer: *indirect_buffer,
                draw_count: *draw_count,
                stride: *stride,
            },
        },
{
    match dispatch {
        DrawCommandDispatch::Draw { vertices, instances } => DrawCall::Draw {
            vertex_count: range_count(vertices),
            instance_count: range_count(instances),
            first_vertex: vertices.start,
            first_instance: instances.start,
        },
        DrawCommandDispatch::DrawIndexed { base_vertex, indices, instances, index_buffer, index_type } => DrawCall::DrawIndexed {
            index_buffer: *index_buffer,
            index_type: vk_index_type(*index_type),
            index_count: range_count(indices),
            instance_count: range_count(instances),
            first_index: indices.start,
            vertex_offset: *base_vertex,
            first_instance: instances.start,
        },
        DrawCommandDispatch::DrawIndirect { indirect_buffer, draw_count, stride } => DrawCall::DrawIndirect {
            buffer: *indirect_buffer,
            draw_count: *draw_count,
            stride: *stride,
        },
        DrawCommandDispatch::DrawIndirectIndexed { indirect_buffer, draw_count, stride, index_buffer, index_type } => DrawCall::DrawIndexedIndirect {
            index_buffer: *index_buffer,
            index_type: vk_index_type(*index_type),
            buffer: *indirect_buffer,
            draw_count: *draw_count,
            stride: *stride,
        },
    }
}

// ---------------------------------------------------------------------------------------
// Transfer passes

/// The region of a copy between a buffer and an image (`VkBufferImageCopy2`): a missing
/// row length or height is 0 (tightly packed), the image offset is taken as signed, and
/// one layer is copied.
#[derive(PartialEq, Eq, Clone, Copy, Debug)]
pub struct BufferImageCopyRegion {
    pub buffer_offset: u64,
    pub buffer_row_length: u32,
    pub buffer_image_height: u32,
    pub image_offset: [i32; 3],
    pub image_extent: [u32; 3],
}

pub open spec fn spec_buffer_image_copy_region(buffer: ImageCopyBuffer, image: ImageCopyImage, copy_size: [u32; 2]) -> BufferImageCopyRegion {
    BufferImageCopyRegion {
        buffer_offset: buffer.offset,
        buffer_row_length: match buffer.row_length { Some(l) => l, None => 0 },
        buffer_image_height: match buffer.row_height { Some(h) => h, None => 0 },
        image_offset: [image.offset[0] as i32, image.offset[1] as i32, 0],
        image_extent: [copy_size[0], copy_size[1], 1],
    }
}

pub fn buffer_image_copy_region(buffer: &ImageCopyBuffer, image: &ImageCopyImage, copy_size: [u32; 2]) -> (region: BufferImageCopyRegion)
    ensures
        region == spec_buffer_image_copy_region(*buffer, *image, copy_size),
{
    BufferImageCopyRegion {
        buffer_offset: buffer.offset,
        buffer_row_length: match buffer.row_length { Some(l) => l, None => 0 },
        buffer_image_height: match buffer.row_height { Some(h) => h, None => 0 },
        image_offset: [image.offset[0] as i32, image.offset[1] as i32, 0],
        image_extent: [copy_size[0], copy_size[1], 1],
    }
}

// ---------------------------------------------------------------------------------------
// Submission

/// The number of dependencies on other command buffers (not on swapchains).
pub open spec fn command_buffer_dependency_count(deps: Seq<CommandBufferDependency>) -> int
    decreases deps.len(),
{
    if deps.len() == 0 {
        0
    } else {
        command_buffer_dependency_count(deps.drop_last()) + if deps.last() is CommandBuffer { 1int } else { 0 }
    }
}

proof fn lemma_dependency_count_bounded(deps: Seq<CommandBufferDependency>)
    ensures
        0 <= command_buffer_dependency_count(deps) <= deps.len(),
    decreases deps.len(),
{
    if deps.len() > 0 {
        lemma_dependency_count_bounded(deps.drop_last());
    }
}

/// Counts the signal dependencies on other command buffers.
pub fn count_command_buffer_dependencies(deps: &[CommandBufferDependency]) -> (count: u32)
    requires
        deps@.len() <= u32::MAX,
    ensures
        count == command_buffer_dependency_count(deps@),
{
    let mut count: u32 = 0;
    let mut i: usize = 0;
    while i < deps.len()
        invariant
            i <= deps@.len() <= u32::MAX,
            count == command_buffer_dependency_count(deps@.take(i as int)),
        decreases deps@.len() - i,
    {
        assert(deps@.take(i + 1).drop_last() =~= deps@.take(i as int));
        proof {
            lemma_dependency_count_bounded(deps@.take(i as int));
        }
        match &deps[i] {
            CommandBufferDependency::CommandBuffer { .. } => {
                count = count + 1;
            },
            CommandBufferDependency::Swapchain { .. } => {},
        }
        i = i + 1;
    }
    assert(deps@.take(i as int) =~= deps@);
    count
}

/// A command buffer that signals no other command buffer ends a chain: the frame waits on
/// it through a fence.
pub fn needs_done_fence(signal_dependencies: &[CommandBufferDependency]) -> (fence: bool)
    requires
        signal_dependencies@.len() <= u32::MAX,
    ensures
        fence == (command_buffer_dependency_count(signal_dependencies@) == 0),
{
    count_command_buffer_dependencies(signal_dependencies) == 0
}

/// The swapchain images a command buffer hands over for presentation, with the access
/// they were left in.
pub fn swapchain_present_transitions(signal_dependencies: &[CommandBufferDependency]) -> (transitions: Vec<(usize, ImageResourceAccess)>)
    ensures
        transitions@ == swapchain_signals(signal_dependencies@),
{
    let mut transitions: Vec<(usize, ImageResourceAccess)> = Vec::new();
    let mut i: usize = 0;
    while i < signal_dependencies.len()
        invariant
            i <= signal_dependencies@.len(),
            transitions@ == swapchain_signals(signal_dependencies@.take(i as int)),
        decreases signal_dependencies@.len() - i,
    {
        assert(signal_dependencies@.take(i + 1).drop_last() =~= signal_dependencies@.take(i as int));
        match &signal_dependencies[i] {
            CommandBufferDependency::Swapchain { index, access } => {
                transitions.push((*index, *access));
            },
            CommandBufferDependency::CommandBuffer { .. } => {},
        }
        i = i + 1;
    }
    assert(signal_dependencies@.take(i as int) =~= signal_dependencies@);
    transitions
}

/// The swapchain dependencies, in order, as (swapchain index, access).
pub open spec fn swapchain_signals(deps: Seq<CommandBufferDependency>) -> Seq<(usize, ImageResourceAccess)>
    decreases deps.len(),
{
    if deps.len() == 0 {
        Seq::empty()
    } else {
        let prev = swapchain_signals(deps.drop_last());
        match deps.last() {
            CommandBufferDependency::Swapchain { index, access } => prev.push((index, access)),
            _ => prev,
        }
    }
}

/// The semaphore that serves a wait or signal dependency of a command buffer at submission.
#[derive(PartialEq, Eq, Structural, Clone, Copy, Debug)]
pub enum SemaphoreChoice {
    /// The semaphore allocated for signal dependency `dependency_index` of command buffer
    /// `command_buffer_index`, waited on or signalled at `stage_mask`.
    CommandBuffer { command_buffer_index: usize, dependency_index: usize, stage_mask: u64 },
    /// The semaphore signalled once swapchain image `index` is acquired, waited on at the
    /// stages of the image's first access `access`.
    ImageReady { index: usize, access: ImageResourceAccess },
    /// The semaphore that the presentation of swapchain image `index` waits for, signalled
    /// at the stages of the image's last access `access`.
    PresentReady { index: usize, access: ImageResourceAccess },
}

/// The semaphore that serves `dep`: a command buffer dependency uses the semaphore of its
/// slot; a swapchain dependency uses the image's acquire semaphore when waited on and its
/// present semaphore when signalled.
pub open spec fn semaphore_choice(dep: CommandBufferDependency, signal: bool) -> SemaphoreChoice {
    match dep {
        CommandBufferDependency::CommandBuffer { command_buffer_index, dependency_index, stage_mask, .. } =>
            SemaphoreChoice::CommandBuffer { command_buffer_index, dependency_index, stage_mask },
        CommandBufferDependency::Swapchain { index, access } => if signal {
            SemaphoreChoice::PresentReady { index, access }
        } else {
            SemaphoreChoice::ImageReady { index, access }
        },
    }
}

/// The semaphores of the wait (`signal` false) or signal (`signal` true) dependencies of a
/// command buffer, in order.
pub fn choose_semaphores(deps: &[CommandBufferDependency], signal: bool) -> (choices: Vec<SemaphoreChoice>)
    ensures
        choices@.len() == deps@.len(),
        forall|i: int| 0 <= i < deps@.len() ==> choices@[i] == semaphore_choice(#[trigger] deps@[i], signal),
{
    let mut choices: Vec<SemaphoreChoice> = Vec::new();
    let mut i: usize = 0;
    while i < deps.len()
        invariant
            i <= deps@.len(),
            choices@.len() == i,
            forall|j: int| 0 <= j < i ==> choices@[j] == semaphore_choice(#[trigger] deps@[j], signal),
        decreases deps@.len() - i,
    {
        let choice = match &deps[i] {
            CommandBufferDependency::CommandBuffer { command_buffer_index, dependency_index, stage_mask, .. } =>
                SemaphoreChoice::CommandBuffer {
                    command_buffer_index: *command_buffer_index,
                    dependency_index: *dependency_index,
                    stage_mask: *stage_mask,
                },
            CommandBufferDependency::Swapchain { index, access } => if signal {
                SemaphoreChoice::PresentReady { index: *index, access: *access }
            } else {
                SemaphoreChoice::ImageReady { index: *index, access: *access }
            },
        };
        choices.push(choice);
        i = i + 1;
    }
    choices
}

/// How many semaphores each command buffer of the graph needs for its dependencies on
/// other command buffers: one per signal dependency, so that slot `[c][d]` serves signal
/// dependency `d` of command buffer `c`.
pub fn semaphore_counts(command_buffers: &[CommandBuffer]) -> (counts: Vec<usize>)
    ensures
        counts@.len() == command_buffers@.len(),
        forall|i: int| 0 <= i < command_buffers@.len() ==> counts@[i] == (
        #[trigger] command_buffers@[i]).command_buffer_signal_dependencies@.len(),
{
    let mut counts: Vec<usize> = Vec::new();
    let mut i: usize = 0;
    while i < command_buffers.len()
        invariant
            i <= command_buffers@.len(),
            counts@.len() == i,
            forall|j: int| 0 <= j < i ==> counts@[j] == (
            #[trigger] command_buffers@[j]).command_buffer_signal_dependencies@.len(),
        decreases command_buffers@.len() - i,
    {
        counts.push(command_buffers[i].command_buffer_signal_dependencies.len());
        i = i + 1;
    }
    counts
}

// ---------------------------------------------------------------------------------------
// Barriers

/// The buffer, and the accesses that a buffer barrier separates: a barrier at the buffer's
/// first use in the graph starts from its last access in an earlier frame, any other from
/// the access the graph computed.
pub open spec fn buffer_barrier_accesses(
    barrier: BufferBarrier,
    resources: Seq<BufferTempResource>,
) -> (usize, BufferResourceAccess, BufferResourceAccess) {
    let src = match barrier.src {
        BufferBarrierSource::FirstUsage => resources[barrier.index as int].last_access,
        BufferBarrierSource::Precalculated(access) => access,
    };
    (barrier.index, src, barrier.dst)
}

/// The buffer and the source and destination accesses of each buffer barrier, in order.
pub fn resolve_buffer_barriers(
    barriers: &[BufferBarrier],
    resources: &[BufferTempResource],
) -> (accesses: Vec<(usize, BufferResourceAccess, BufferResourceAccess)>)
    requires
        forall|i: int| 0 <= i < barriers@.len() ==> (#[trigger] barriers@[i]).index < resources@.len(),
    ensures
        accesses@.len() == barriers@.len(),
        forall|i: int| 0 <= i < barriers@.len() ==> accesses@[i] == buffer_barrier_accesses(
            #[trigger] barriers@[i],
            resources@,
        ),
{
    let mut accesses: Vec<(usize, BufferResourceAccess, BufferResourceAccess)> = Vec::new();
    let mut i: usize = 0;
    while i < barriers.len()
        invariant
            i <= barriers@.len(),
            forall|j: int| 0 <= j < barriers@.len() ==> (#[trigger] barriers@[j]).index < resources@.len(),
            accesses@.len() == i,
            forall|j: int| 0 <= j < i ==> accesses@[j] == buffer_barrier_accesses(#[trigger] barriers@[j], resources@),
        decreases barriers@.len() - i,
    {
        let barrier = barriers[i];
        let src = match barrier.src {
            BufferBarrierSource::FirstUsage => resources[barrier.index].last_access,
            BufferBarrierSource::Precalculated(access) => access,
        };
        accesses.push((barrier.index, src, barrier.dst));
        i = i + 1;
    }
    accesses
}

/// The image, and the accesses that an image barrier separates: a barrier at the image's
/// first use in the graph starts from its last access in an earlier frame
/// (`last_accesses`, by image index), any other from the access the graph computed.
pub open spec fn image_barrier_accesses(
    barrier: ImageBarrier,
    last_accesses: Seq<ImageResourceAccess>,
) -> (usize, ImageResourceAccess, ImageResourceAccess) {
    let src = match barrier.src {
        ImageBarrierSource::FirstUsage => last_accesses[barrier.index as int],
        ImageBarrierSource::Precalculated(access) => access,
    };
    (barrier.index, src, barrier.dst)
}

/// The image and the source and destination accesses of each image barrier, in order.
pub fn resolve_image_barriers(
    barriers: &[ImageBarrier],
    last_accesses: &[ImageResourceAccess],
) -> (accesses: Vec<(usize, ImageResourceAccess, ImageResourceAccess)>)
    requires
        forall|i: int| 0 <= i < barriers@.len() ==> (#[trigger] barriers@[i]).index < last_accesses@.len(),
    ensures
        accesses@.len() == barriers@.len(),
        forall|i: int| 0 <= i < barriers@.len() ==> accesses@[i] == image_barrier_accesses(
            #[trigger] barriers@[i],
            last_accesses@,
        ),
{
    let mut accesses: Vec<(usize, ImageResourceAccess, ImageResourceAccess)> = Vec::new();
    let mut i: usize = 0;
    while i < barriers.len()
        invariant
            i <= barriers@.len(),
            forall|j: int| 0 <= j < barriers@.len() ==> (#[trigger] barriers@[j]).index < last_accesses@.len(),
            accesses@.len() == i,
            forall|j: int| 0 <= j < i ==> accesses@[j] == image_barrier_accesses(#[trigger] barriers@[j], last_accesses@),
        decreases barriers@.len() - i,
    {
        let barrier = barriers[i];
        let src = match barrier.src {
            ImageBarrierSource::FirstUsage => last_accesses[barrier.index],
            ImageBarrierSource::Precalculated(access) => access,
        };
        accesses.push((barrier.index, src, barrier.dst));
        i = i + 1;
    }
    accesses
}

/// A command buffer ends a chain, and the frame waits on it through a fence, exactly when
/// none of its signal dependencies is on another command buffer (it signals only swapchain
/// images, or nothing); the count of its command-buffer dependencies never exceeds its
/// dependencies.
pub proof fn lemma_done_fence_iff_no_command_buffer_signal(deps: Seq<CommandBufferDependency>)
    ensures
        (command_buffer_dependency_count(deps) == 0) == (forall|i: int| 0 <= i < deps.len() ==> (#[trigger] deps[i]) is Swapchain),
        0 <= command_buffer_dependency_count(deps) <= deps.len(),
    decreases deps.len(),
{
    lemma_dependency_count_bounded(deps);
    if deps.len() > 0 {
        let prev = deps.drop_last();
        lemma_done_fence_iff_no_command_buffer_signal(prev);
        lemma_dependency_count_bounded(prev);
        if forall|i: int| 0 <= i < deps.len() ==> (#[trigger] deps[i]) is Swapchain {
            assert forall|i: int| 0 <= i < prev.len() implies (#[trigger] prev[i]) is Swapchain by {
                assert(prev[i] == deps[i]);
            }
            assert(deps[deps.len() - 1] is Swapchain);
        } else if command_buffer_dependency_count(deps) == 0 {
            let i = choose|i: int| 0 <= i < deps.len() && !((#[trigger] deps[i]) is Swapchain);
            if i < prev.len() {
                assert(prev[i] == deps[i]);
            }
        }
    }
}

/// The wait and the signal of a dependency between two command buffers use the same
/// semaphore, the one of its slot, at its stages; a swapchain image is waited on through
/// its acquire semaphore and signalled through its present semaphore, with the access.
pub proof fn lemma_semaphore_choice_pairs_waits_and_signals(dep: CommandBufferDependency)
    ensures
        semaphore_choice(dep, true) is CommandBuffer || semaphore_choice(dep, true) is PresentReady,
        semaphore_choice(dep, false) is CommandBuffer || semaphore_choice(dep, false) is ImageReady,
        dep is CommandBuffer ==> semaphore_choice(dep, true) == semaphore_choice(dep, false) && semaphore_choice(dep, true)
            == (SemaphoreChoice::CommandBuffer {
            command_buffer_index: dep->command_buffer_index,
            dependency_index: dep->dependency_index,
            stage_mask: dep->stage_mask,
        }),
        dep is Swapchain ==> semaphore_choice(dep, false) == (SemaphoreChoice::ImageReady {
            index: dep->Swapchain_index,
            access: dep->access,
        }) && semaphore_choice(dep, true) == (SemaphoreChoice::PresentReady {
            index: dep->Swapchain_index,
            access: dep->access,
        }),
{
}

} // verus!
