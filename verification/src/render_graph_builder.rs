//! What user code hands to a render graph builder: buffers and images named by handle.
use vstd::prelude::*;
use crate::render_graph::IndexType;
use crate::resource_managers::{BufferResourceAccess, ImageResourceAccess};
use crate::{BufferHandle, ImageHandle, RasterPipelineHandle, SamplerHandle};

verus! {

#[derive(PartialEq, Eq, Structural, Clone, Copy, Debug)]
pub struct BufferOffset {
    pub buffer: BufferHandle,
    pub offset: usize,
}

#[derive(PartialEq, Eq, Structural, Clone, Copy, Debug)]
pub struct ImageCopyBuffer {
    pub buffer: BufferHandle,
    pub offset: u64,
    pub row_length: Option<u32>,
    pub row_height: Option<u32>,
}

#[derive(PartialEq, Eq, Clone, Copy, Debug)]
pub struct ImageCopyImage {
    pub image: ImageHandle,
    pub offset: [u32; 2],
}

#[allow(inconsistent_fields)]
#[derive(PartialEq, Eq, Clone, Copy, Debug)]
pub enum Transfer {
    CopyBufferToBuffer { src: BufferOffset, dst: BufferOffset, copy_size: u64 },
    CopyBufferToImage { src: ImageCopyBuffer, dst: ImageCopyImage, copy_size: [u32; 2] },
    CopyImageToBuffer { src: ImageCopyImage, dst: ImageCopyBuffer, copy_size: [u32; 2] },
    CopyImageToImage { src: ImageCopyImage, dst: ImageCopyImage, copy_size: [u32; 2] },
}

#[derive(PartialEq, Eq, Structural, Clone, Copy, Debug)]
pub enum ShaderResourceUsage {
    StorageBuffer { buffer: BufferHandle, write: bool },
    StorageImage { image: ImageHandle, write: bool },
    SampledImage(ImageHandle),
    Sampler(SamplerHandle),
}

#[derive(PartialEq, Eq, Clone, Copy, Debug)]
pub enum ComputeDispatch {
    Size([u32; 3]),
    Indirect(BufferOffset),
}

/// A color attachment; the clear color is kept as the bit patterns of its `f32` components.
#[derive(PartialEq, Eq, Clone, Copy, Debug)]
pub struct ColorAttachment {
    pub image: ImageHandle,
    pub clear: Option<[u32; 4]>,
}

/// A depth-stencil attachment; the clear depth is kept as the bit pattern of its `f32`.
#[derive(PartialEq, Eq, Clone, Copy, Debug)]
pub struct DepthStencilAttachment {
    pub image: ImageHandle,
    pub clear: Option<(u32, u32)>,
}

#[derive(PartialEq, Eq, Debug)]
pub enum DrawCommandDispatch {
    Draw { vertices: std::ops::Range<u32>, instances: std::ops::Range<u32> },
    DrawIndexed {
        base_vertex: i32,
        indices: std::ops::Range<u32>,
        instances: std::ops::Range<u32>,
        index_buffer: BufferOffset,
        index_type: IndexType,
    },
    DrawIndirect { indirect_buffer: BufferOffset, draw_count: u32, stride: u32 },
    DrawIndirectIndexed {
        indirect_buffer: BufferOffset,
        draw_count: u32,
        stride: u32,
        index_buffer: BufferOffset,
        index_type: IndexType,
    },
}

#[derive(PartialEq, Eq, Debug)]
pub struct RasterDrawCommand {
    pub pipeline: RasterPipelineHandle,
    pub vertex_buffers: Vec<BufferOffset>,
    pub resources: Vec<ShaderResourceUsage>,
    pub dispatch: DrawCommandDispatch,
}

#[derive(PartialEq, Eq, Structural, Clone, Copy, Debug)]
pub struct BufferAccess {
    pub handle: BufferHandle,
    pub usage: BufferResourceAccess,
}

#[derive(PartialEq, Eq, Structural, Clone, Copy, Debug)]
pub struct ImageAccess {
    pub handle: ImageHandle,
    pub usage: ImageResourceAccess,
}


/// The concatenation of `f` applied to each element, in order.
pub open spec fn concat_map<A, B>(s: Seq<A>, f: spec_fn(A) -> Seq<B>) -> Seq<B>
    decreases s.len(),
{
    if s.len() == 0 {
        Seq::empty()
    } else {
        concat_map(s.drop_last(), f) + f(s.last())
    }
}

/// One more element of `s` appends its image under `f`.
pub proof fn lemma_concat_map_take<A, B>(s: Seq<A>, f: spec_fn(A) -> Seq<B>, i: int)
    requires
        0 <= i < s.len(),
    ensures
        concat_map(s.take(i + 1), f) == concat_map(s.take(i), f) + f(s[i]),
{
    assert(s.take(i + 1).drop_last() =~= s.take(i));
}

/// The handles of a sequence of image accesses.
pub open spec fn usage_handles(us: Seq<(ImageHandle, ImageResourceAccess)>) -> Seq<ImageHandle> {
    us.map_values(|u: (ImageHandle, ImageResourceAccess)| u.0)
}

impl Transfer {
    /// The buffers of the transfer, in the order a builder resolves them.
    pub open spec fn buffer_handles(self) -> Seq<BufferHandle> {
        match self {
            Transfer::CopyBufferToBuffer { src, dst, .. } => seq![src.buffer, dst.buffer],
            Transfer::CopyBufferToImage { src, .. } => seq![src.buffer],
            Transfer::CopyImageToBuffer { dst, .. } => seq![dst.buffer],
            Transfer::CopyImageToImage { .. } => Seq::empty(),
        }
    }

    /// The images of the transfer with how it accesses them, in order.
    pub open spec fn image_usages(self) -> Seq<(ImageHandle, ImageResourceAccess)> {
        match self {
            Transfer::CopyBufferToBuffer { .. } => Seq::empty(),
            Transfer::CopyBufferToImage { dst, .. } => seq![(dst.image, ImageResourceAccess::TransferWrite)],
            Transfer::CopyImageToBuffer { src, .. } => seq![(src.image, ImageResourceAccess::TransferRead)],
            Transfer::CopyImageToImage { src, dst, .. } => seq![
                (src.image, ImageResourceAccess::TransferRead),
                (dst.image, ImageResourceAccess::TransferWrite),
            ],
        }
    }
}

impl ShaderResourceUsage {
    pub open spec fn buffer_handles(self) -> Seq<BufferHandle> {
        match self {
            ShaderResourceUsage::StorageBuffer { buffer, .. } => seq![buffer],
            _ => Seq::empty(),
        }
    }

    /// A storage image is written or read as storage, a sampled image is sampled.
    pub open spec fn image_usages(self) -> Seq<(ImageHandle, ImageResourceAccess)> {
        match self {
            ShaderResourceUsage::StorageImage { image, write } => seq![
                (image, if write { ImageResourceAccess::StorageWrite } else { ImageResourceAccess::StorageRead }),
            ],
            ShaderResourceUsage::SampledImage(image) => seq![(image, ImageResourceAccess::SampledRead)],
            _ => Seq::empty(),
        }
    }
}

impl ComputeDispatch {
    pub open spec fn buffer_handles(self) -> Seq<BufferHandle> {
        match self {
            ComputeDispatch::Size(_) => Seq::empty(),
            ComputeDispatch::Indirect(b) => seq![b.buffer],
        }
    }
}

impl DrawCommandDispatch {
    /// The index buffer is resolved before the indirect buffer.
    pub open spec fn buffer_handles(self) -> Seq<BufferHandle> {
        match self {
            DrawCommandDispatch::Draw { .. } => Seq::empty(),
            DrawCommandDispatch::DrawIndexed { index_buffer, .. } => seq![index_buffer.buffer],
            DrawCommandDispatch::DrawIndirect { indirect_buffer, .. } => seq![indirect_buffer.buffer],
            DrawCommandDispatch::DrawIndirectIndexed { indirect_buffer, index_buffer, .. } => seq![
                index_buffer.buffer,
                indirect_buffer.buffer,
            ],
        }
    }
}

pub open spec fn transfers_buffer_handles(ts: Seq<Transfer>) -> Seq<BufferHandle> {
    concat_map(ts, |t: Transfer| t.buffer_handles())
}

pub open spec fn transfers_image_usages(ts: Seq<Transfer>) -> Seq<(ImageHandle, ImageResourceAccess)> {
    concat_map(ts, |t: Transfer| t.image_usages())
}

pub open spec fn resources_buffer_handles(rs: Seq<ShaderResourceUsage>) -> Seq<BufferHandle> {
    concat_map(rs, |r: ShaderResourceUsage| r.buffer_handles())
}

pub open spec fn resources_image_usages(rs: Seq<ShaderResourceUsage>) -> Seq<(ImageHandle, ImageResourceAccess)> {
    concat_map(rs, |r: ShaderResourceUsage| r.image_usages())
}

impl RasterDrawCommand {
    /// Vertex buffers, then storage buffers, then the buffers of the dispatch.
    pub open spec fn buffer_handles(self) -> Seq<BufferHandle> {
        self.vertex_buffers@.map_values(|b: BufferOffset| b.buffer) + resources_buffer_handles(self.resources@)
            + self.dispatch.buffer_handles()
    }

    pub open spec fn image_usages(self) -> Seq<(ImageHandle, ImageResourceAccess)> {
        resources_image_usages(self.resources@)
    }
}

pub open spec fn draws_buffer_handles(ds: Seq<RasterDrawCommand>) -> Seq<BufferHandle> {
    concat_map(ds, |d: RasterDrawCommand| d.buffer_handles())
}

pub open spec fn draws_image_usages(ds: Seq<RasterDrawCommand>) -> Seq<(ImageHandle, ImageResourceAccess)> {
    concat_map(ds, |d: RasterDrawCommand| d.image_usages())
}

/// The attachments of a raster pass are written: color attachments first, then depth.
pub open spec fn attachment_usages(colors: Seq<ColorAttachment>, depth: Option<DepthStencilAttachment>) -> Seq<(ImageHandle, ImageResourceAccess)> {
    colors.map_values(|c: ColorAttachment| (c.image, ImageResourceAccess::AttachmentWrite)) + match depth {
        Some(d) => seq![(d.image, ImageResourceAccess::AttachmentWrite)],
        None => Seq::empty(),
    }
}

/// Each element of `f(s[k])` occurs in `concat_map(s, f)`.
pub proof fn lemma_concat_map_contains<A, B>(s: Seq<A>, f: spec_fn(A) -> Seq<B>, k: int, j: int)
    requires
        0 <= k < s.len(),
        0 <= j < f(s[k]).len(),
    ensures
        concat_map(s, f).contains(f(s[k])[j]),
    decreases s.len(),
{
    let prev = concat_map(s.drop_last(), f);
    if k == s.len() - 1 {
        assert(concat_map(s, f)[prev.len() + j] == f(s[k])[j]);
    } else {
        assert(s.drop_last()[k] == s[k]);
        lemma_concat_map_contains(s.drop_last(), f, k, j);
        let i = choose|i: int| 0 <= i < prev.len() && prev[i] == f(s[k])[j];
        assert(concat_map(s, f)[i] == prev[i]);
    }
}

/// Every element of `concat_map(s, f)` is an element of `f(s[k])` for some `k`.
pub proof fn lemma_concat_map_origin<A, B>(s: Seq<A>, f: spec_fn(A) -> Seq<B>, i: int)
    requires
        0 <= i < concat_map(s, f).len(),
    ensures
        exists|k: int, j: int| 0 <= k < s.len() && 0 <= j < f(s[k]).len() && concat_map(s, f)[i] == #[trigger] f(
            s[k],
        )[j],
    decreases s.len(),
{
    let prev = concat_map(s.drop_last(), f);
    if i < prev.len() {
        lemma_concat_map_origin(s.drop_last(), f, i);
        let (k, j) = choose|k: int, j: int| 0 <= k < s.drop_last().len() && 0 <= j < f(s.drop_last()[k]).len()
            && prev[i] == #[trigger] f(s.drop_last()[k])[j];
        assert(s.drop_last()[k] == s[k]);
        assert(concat_map(s, f)[i] == f(s[k])[j]);
    } else {
        let k = s.len() - 1;
        assert(concat_map(s, f)[i] == f(s[k])[i - prev.len()]);
    }
}

/// The transfer copies out of image `h`.
pub open spec fn copies_from_image(t: Transfer, h: ImageHandle) -> bool {
    match t {
        Transfer::CopyImageToBuffer { src, .. } => src.image == h,
        Transfer::CopyImageToImage { src, .. } => src.image == h,
        _ => false,
    }
}

/// The transfer copies into image `h`.
pub open spec fn copies_into_image(t: Transfer, h: ImageHandle) -> bool {
    match t {
        Transfer::CopyBufferToImage { dst, .. } => dst.image == h,
        Transfer::CopyImageToImage { dst, .. } => dst.image == h,
        _ => false,
    }
}

/// In a transfer pass an image is read by the copies that copy out of it and written by
/// those that copy into it, and by nothing else: every image a copy reads from is accessed
/// as a transfer read and every image a copy writes into as a transfer write; every
/// access of the pass is one of the two, a transfer read only of an image some copy reads
/// from and a transfer write only of one some copy writes into.
pub proof fn lemma_transfer_accesses_follow_copies(ts: Seq<Transfer>)
    ensures
        forall|k: int, h: ImageHandle| 0 <= k < ts.len() && #[trigger] copies_from_image(ts[k], h)
            ==> transfers_image_usages(ts).contains((h, ImageResourceAccess::TransferRead)),
        forall|k: int, h: ImageHandle| 0 <= k < ts.len() && #[trigger] copies_into_image(ts[k], h)
            ==> transfers_image_usages(ts).contains((h, ImageResourceAccess::TransferWrite)),
        forall|i: int| 0 <= i < transfers_image_usages(ts).len() ==> {
            let (h, access) = #[trigger] transfers_image_usages(ts)[i];
            &&& access == ImageResourceAccess::TransferRead || access == ImageResourceAccess::TransferWrite
            &&& access == ImageResourceAccess::TransferRead ==> exists|k: int| 0 <= k < ts.len() && copies_from_image(#[trigger] ts[k], h)
            &&& access == ImageResourceAccess::TransferWrite ==> exists|k: int| 0 <= k < ts.len() && copies_into_image(#[trigger] ts[k], h)
        },
{
    let f = |t: Transfer| t.image_usages();
    assert forall|k: int, h: ImageHandle| 0 <= k < ts.len() && #[trigger] copies_from_image(ts[k], h)
        implies transfers_image_usages(ts).contains((h, ImageResourceAccess::TransferRead)) by {
        assert(f(ts[k])[0] == (h, ImageResourceAccess::TransferRead));
        lemma_concat_map_contains(ts, f, k, 0);
    }
    assert forall|k: int, h: ImageHandle| 0 <= k < ts.len() && #[trigger] copies_into_image(ts[k], h)
        implies transfers_image_usages(ts).contains((h, ImageResourceAccess::TransferWrite)) by {
        let j: int = if ts[k] is CopyImageToImage { 1 } else { 0 };
        assert(f(ts[k])[j] == (h, ImageResourceAccess::TransferWrite));
        lemma_concat_map_contains(ts, f, k, j);
    }
    assert forall|i: int| 0 <= i < transfers_image_usages(ts).len() implies {
        let (h, access) = #[trigger] transfers_image_usages(ts)[i];
        &&& access == ImageResourceAccess::TransferRead || access == ImageResourceAccess::TransferWrite
        &&& access == ImageResourceAccess::TransferRead ==> exists|k: int| 0 <= k < ts.len() && copies_from_image(#[trigger] ts[k], h)
        &&& access == ImageResourceAccess::TransferWrite ==> exists|k: int| 0 <= k < ts.len() && copies_into_image(#[trigger] ts[k], h)
    } by {
        lemma_concat_map_origin(ts, f, i);
        let (k, j) = choose|k: int, j: int| 0 <= k < ts.len() && 0 <= j < f(ts[k]).len()
            && transfers_image_usages(ts)[i] == #[trigger] f(ts[k])[j];
        let (h, access) = transfers_image_usages(ts)[i];
        if access == ImageResourceAccess::TransferRead {
            assert(copies_from_image(ts[k], h));
        }
        if access == ImageResourceAccess::TransferWrite {
            assert(copies_into_image(ts[k], h));
        }
    }
}

/// A shader resource's image is accessed the way the resource says: a storage image that
/// the shader writes is a storage write, one it only reads a storage read, a sampled image
/// a sampled read; every image access of the resources is one of these three, and each
/// comes from a resource that asks for exactly it, so a read-only storage image is never
/// recorded as written.
pub proof fn lemma_resource_accesses_follow_resources(rs: Seq<ShaderResourceUsage>)
    ensures
        forall|k: int| 0 <= k < rs.len() && (#[trigger] rs[k]) is StorageImage && rs[k]->StorageImage_write
            ==> resources_image_usages(rs).contains((rs[k]->StorageImage_image, ImageResourceAccess::StorageWrite)),
        forall|k: int| 0 <= k < rs.len() && (#[trigger] rs[k]) is StorageImage && !rs[k]->StorageImage_write
            ==> resources_image_usages(rs).contains((rs[k]->StorageImage_image, ImageResourceAccess::StorageRead)),
        forall|k: int| 0 <= k < rs.len() && (#[trigger] rs[k]) is SampledImage
            ==> resources_image_usages(rs).contains((rs[k]->SampledImage_0, ImageResourceAccess::SampledRead)),
        forall|i: int| 0 <= i < resources_image_usages(rs).len() ==> {
            let (h, access) = #[trigger] resources_image_usages(rs)[i];
            &&& access == ImageResourceAccess::StorageWrite || access == ImageResourceAccess::StorageRead || access
                == ImageResourceAccess::SampledRead
            &&& access == ImageResourceAccess::StorageWrite ==> exists|k: int| 0 <= k < rs.len() && #[trigger] rs[k]
                == (ShaderResourceUsage::StorageImage { image: h, write: true })
            &&& access == ImageResourceAccess::StorageRead ==> exists|k: int| 0 <= k < rs.len() && #[trigger] rs[k]
                == (ShaderResourceUsage::StorageImage { image: h, write: false })
            &&& access == ImageResourceAccess::SampledRead ==> exists|k: int| 0 <= k < rs.len() && #[trigger] rs[k]
                == ShaderResourceUsage::SampledImage(h)
        },
{
    let f = |r: ShaderResourceUsage| r.image_usages();
    assert forall|k: int| 0 <= k < rs.len() && (#[trigger] rs[k]) is StorageImage && rs[k]->StorageImage_write
        implies resources_image_usages(rs).contains((rs[k]->StorageImage_image, ImageResourceAccess::StorageWrite)) by {
        assert(f(rs[k])[0] == (rs[k]->StorageImage_image, ImageResourceAccess::StorageWrite));
        lemma_concat_map_contains(rs, f, k, 0);
    }
    assert forall|k: int| 0 <= k < rs.len() && (#[trigger] rs[k]) is StorageImage && !rs[k]->StorageImage_write
        implies resources_image_usages(rs).contains((rs[k]->StorageImage_image, ImageResourceAccess::StorageRead)) by {
        assert(f(rs[k])[0] == (rs[k]->StorageImage_image, ImageResourceAccess::StorageRead));
        lemma_concat_map_contains(rs, f, k, 0);
    }
    assert forall|k: int| 0 <= k < rs.len() && (#[trigger] rs[k]) is SampledImage
        implies resources_image_usages(rs).contains((rs[k]->SampledImage_0, ImageResourceAccess::SampledRead)) by {
        assert(f(rs[k])[0] == (rs[k]->SampledImage_0, ImageResourceAccess::SampledRead));
        lemma_concat_map_contains(rs, f, k, 0);
    }
    assert forall|i: int| 0 <= i < resources_image_usages(rs).len() implies {
        let (h, access) = #[trigger] resources_image_usages(rs)[i];
        &&& access == ImageResourceAccess::StorageWrite || access == ImageResourceAccess::StorageRead || access
            == ImageResourceAccess::SampledRead
        &&& access == ImageResourceAccess::StorageWrite ==> exists|k: int| 0 <= k < rs.len() && #[trigger] rs[k]
            == (ShaderResourceUsage::StorageImage { image: h, write: true })
        &&& access == ImageResourceAccess::StorageRead ==> exists|k: int| 0 <= k < rs.len() && #[trigger] rs[k]
            == (ShaderResourceUsage::StorageImage { image: h, write: false })
        &&& access == ImageResourceAccess::SampledRead ==> exists|k: int| 0 <= k < rs.len() && #[trigger] rs[k]
            == ShaderResourceUsage::SampledImage(h)
    } by {
        lemma_concat_map_origin(rs, f, i);
        let (k, j) = choose|k: int, j: int| 0 <= k < rs.len() && 0 <= j < f(rs[k]).len()
            && resources_image_usages(rs)[i] == #[trigger] f(rs[k])[j];
        assert(rs[k] == rs[k]);
    }
}

/// A raster pass writes its attachments and nothing else through them: every color
/// attachment and the depth-stencil attachment, if any, is accessed as an attachment write,
/// and every access of the attachments is an attachment write of one of them.
pub proof fn lemma_attachments_are_written(colors: Seq<ColorAttachment>, depth: Option<DepthStencilAttachment>)
    ensures
        forall|k: int| 0 <= k < colors.len() ==> attachment_usages(colors, depth).contains(
            ((#[trigger] colors[k]).image, ImageResourceAccess::AttachmentWrite),
        ),
        depth is Some ==> attachment_usages(colors, depth).contains(
            (depth->0.image, ImageResourceAccess::AttachmentWrite),
        ),
        attachment_usages(colors, depth).len() == colors.len() + if depth is Some { 1int } else { 0int },
        forall|i: int| 0 <= i < attachment_usages(colors, depth).len() ==> {
            let (h, access) = #[trigger] attachment_usages(colors, depth)[i];
            &&& access == ImageResourceAccess::AttachmentWrite
            &&& (exists|k: int| 0 <= k < colors.len() && (#[trigger] colors[k]).image == h) || (depth is Some
                && depth->0.image == h)
        },
{
    let us = attachment_usages(colors, depth);
    assert forall|k: int| 0 <= k < colors.len() implies us.contains(
        ((#[trigger] colors[k]).image, ImageResourceAccess::AttachmentWrite),
    ) by {
        assert(us[k] == (colors[k].image, ImageResourceAccess::AttachmentWrite));
    }
    if depth is Some {
        assert(us[colors.len() as int] == (depth->0.image, ImageResourceAccess::AttachmentWrite));
    }
    assert forall|i: int| 0 <= i < us.len() implies {
        let (h, access) = #[trigger] us[i];
        &&& access == ImageResourceAccess::AttachmentWrite
        &&& (exists|k: int| 0 <= k < colors.len() && (#[trigger] colors[k]).image == h) || (depth is Some
            && depth->0.image == h)
    } by {
        if i < colors.len() {
            assert(us[i] == (colors[i].image, ImageResourceAccess::AttachmentWrite));
        }
    }
}

} // verus!
