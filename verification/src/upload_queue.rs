//! Copies into persistent resources, queued during a frame and recorded as one transfer
//! pass at its start.
use vstd::prelude::*;
use crate::render_graph::{
    BufferGraphResource, BufferIndex, BufferOffset, BufferResourceDescription, ImageCopyBuffer, ImageCopyImage,
    ImageGraphResource, ImageIndex, ImageResourceDescription, OldRenderPass, QueueType, RenderPassCommand, Transfer,
};
use crate::resource_managers::{BufferResourceAccess, ImageResourceAccess};
use crate::{BufferHandle, ImageHandle};

verus! {

/// The label color of the upload pass, purple (bit patterns of `[0.5, 0.0, 0.5, 1.0]`).
pub const UPLOAD_LABEL_COLOR: [u32; 4] = [0x3f00_0000, 0, 0x3f00_0000, 0x3f80_0000];

/// The resources of the upload pass, by index, and the pass.
pub struct UploadPass {
    pub buffer_resources: Vec<BufferGraphResource>,
    pub image_resources: Vec<ImageGraphResource>,
    pub pass: OldRenderPass,
}

/// Queued copies. Every copy adds a fresh entry for each resource it names, so a
/// resource named twice appears twice.
pub struct UploadQueue {
    buffer_resources: Vec<BufferGraphResource>,
    image_resources: Vec<ImageGraphResource>,
    buffer_access: Vec<(BufferIndex, BufferResourceAccess)>,
    image_access: Vec<(ImageIndex, ImageResourceAccess)>,
    transfers: Vec<Transfer>,
}

/// The buffer entry a copy adds for a persistent buffer.
pub open spec fn upload_buffer(buffer: BufferHandle, access: BufferResourceAccess) -> BufferGraphResource {
    BufferGraphResource {
        description: BufferResourceDescription::Persistent(buffer->Persistent_0),
        last_access: access,
    }
}

/// The image entry a copy adds for a persistent image.
pub open spec fn upload_image(image: ImageHandle, access: ImageResourceAccess) -> ImageGraphResource {
    ImageGraphResource {
        description: ImageResourceDescription::Persistent(image->Persistent_0),
        first_access: None,
        last_access: Some(access),
    }
}

impl UploadQueue {
    pub closed spec fn buffer_resources(&self) -> Seq<BufferGraphResource> {
        self.buffer_resources@
    }

    pub closed spec fn image_resources(&self) -> Seq<ImageGraphResource> {
        self.image_resources@
    }

    pub closed spec fn buffer_access(&self) -> Seq<(BufferIndex, BufferResourceAccess)> {
        self.buffer_access@
    }

    pub closed spec fn image_access(&self) -> Seq<(ImageIndex, ImageResourceAccess)> {
        self.image_access@
    }

    pub closed spec fn transfers(&self) -> Seq<Transfer> {
        self.transfers@
    }

    fn add_buffer(&mut self, buffer: BufferHandle, access: BufferResourceAccess) -> (index: BufferIndex)
        requires
            buffer is Persistent,
        ensures
            index == old(self).buffer_resources().len(),
            final(self).buffer_resources() == old(self).buffer_resources().push(upload_buffer(buffer, access)),
            final(self).buffer_access() == old(self).buffer_access().push((index, access)),
            final(self).image_resources() == old(self).image_resources(),
            final(self).image_access() == old(self).image_access(),
            final(self).transfers() == old(self).transfers(),
    {
        let index = self.buffer_resources.len();
        self.buffer_resources.push(
            BufferGraphResource { description: BufferResourceDescription::Persistent(buffer.as_key()), last_access: access },
        );
        self.buffer_access.push((index, access));
        index
    }

    fn add_image(&mut self, image: ImageHandle, access: ImageResourceAccess) -> (index: ImageIndex)
        requires
            image is Persistent,
        ensures
            index == old(self).image_resources().len(),
            final(self).image_resources() == old(self).image_resources().push(upload_image(image, access)),
            final(self).image_access() == old(self).image_access().push((index, access)),
            final(self).buffer_resources() == old(self).buffer_resources(),
            final(self).buffer_access() == old(self).buffer_access(),
            final(self).transfers() == old(self).transfers(),
    {
        let index = self.image_resources.len();
        self.image_resources.push(
            ImageGraphResource {
                description: ImageResourceDescription::Persistent(image.as_key()),
                first_access: None,
                last_access: Some(access),
            },
        );
        self.image_access.push((index, access));
        index
    }

    /// Queues a copy between two persistent buffers.
    pub fn add_buffer_upload(
        &mut self,
        src: crate::render_graph_builder::BufferOffset,
        dst: crate::render_graph_builder::BufferOffset,
        copy_size: usize,
    )
        requires
            src.buffer is Persistent,
            dst.buffer is Persistent,
        ensures
            ({
                let n = old(self).buffer_resources().len();
                &&& final(self).buffer_resources() == old(self).buffer_resources().push(
                    upload_buffer(src.buffer, BufferResourceAccess::TransferRead),
                ).push(upload_buffer(dst.buffer, BufferResourceAccess::TransferWrite))
                &&& final(self).buffer_access() == old(self).buffer_access().push(
                    (n as usize, BufferResourceAccess::TransferRead),
                ).push(((n + 1) as usize, BufferResourceAccess::TransferWrite))
                &&& final(self).transfers() == old(self).transfers().push(
                    Transfer::BufferToBuffer {
                        src: BufferOffset { buffer: n as usize, offset: src.offset as u64 },
                        dst: BufferOffset { buffer: (n + 1) as usize, offset: dst.offset as u64 },
                        copy_size: copy_size as u64,
                    },
                )
            }),
            final(self).image_resources() == old(self).image_resources(),
            final(self).image_access() == old(self).image_access(),
    {
        let src = BufferOffset {
            buffer: self.add_buffer(src.buffer, BufferResourceAccess::TransferRead),
            offset: src.offset as u64,
        };
        let dst = BufferOffset {
            buffer: self.add_buffer(dst.buffer, BufferResourceAccess::TransferWrite),
            offset: dst.offset as u64,
        };
        self.transfers.push(Transfer::BufferToBuffer { src, dst, copy_size: copy_size as u64 });
    }

    /// Queues a copy from a persistent buffer into a persistent image.
    pub fn add_image_upload(
        &mut self,
        src: crate::render_graph_builder::ImageCopyBuffer,
        dst: crate::render_graph_builder::ImageCopyImage,
        copy_size: [u32; 2],
    )
        requires
            src.buffer is Persistent,
            dst.image is Persistent,
        ensures
            ({
                let n = old(self).buffer_resources().len();
                let m = old(self).image_resources().len();
                &&& final(self).buffer_resources() == old(self).buffer_resources().push(
                    upload_buffer(src.buffer, BufferResourceAccess::TransferRead),
                )
                &&& final(self).buffer_access() == old(self).buffer_access().push(
                    (n as usize, BufferResourceAccess::TransferRead),
                )
                &&& final(self).image_resources() == old(self).image_resources().push(
                    upload_image(dst.image, ImageResourceAccess::TransferWrite),
                )
                &&& final(self).image_access() == old(self).image_access().push(
                    (m as usize, ImageResourceAccess::TransferWrite),
                )
                &&& final(self).transfers() == old(self).transfers().push(
                    Transfer::BufferToImage {
                        src: ImageCopyBuffer {
                            buffer: n as usize,
                            offset: src.offset,
                            row_length: src.row_length,
                            row_height: src.row_height,
                        },
                        dst: ImageCopyImage { image: m as usize, offset: dst.offset },
                        copy_size,
                    },
                )
            }),
    {
        let src = ImageCopyBuffer {
            buffer: self.add_buffer(src.buffer, BufferResourceAccess::TransferRead),
            offset: src.offset,
            row_length: src.row_length,
            row_height: src.row_height,
        };
        let dst = ImageCopyImage { image: self.add_image(dst.image, ImageResourceAccess::TransferWrite), offset: dst.offset };
        self.transfers.push(Transfer::BufferToImage { src, dst, copy_size });
    }

    /// The queued copies as one transfer pass on the graphics queue, emptying the queue;
    /// nothing when no copy is queued.
    pub fn get_pass(&mut self) -> (pass: Option<UploadPass>)
        ensures
            old(self).transfers().len() == 0 ==> pass is None && *final(self) == *old(self),
            old(self).transfers().len() > 0 ==> (pass matches Some(p) && {
                &&& p.buffer_resources@ == old(self).buffer_resources()
                &&& p.image_resources@ == old(self).image_resources()
                &&& p.pass.label_name@ == "Device Upload Pass"@
                &&& p.pass.label_color == UPLOAD_LABEL_COLOR
                &&& p.pass.queue == QueueType::Graphics
                &&& p.pass.buffer_access@ == old(self).buffer_access()
                &&& p.pass.image_access@ == old(self).image_access()
                &&& p.pass.command matches Some(RenderPassCommand::Transfer { transfers: t })
                    && t@ == old(self).transfers()
            }),
            old(self).transfers().len() > 0 ==> final(self).buffer_resources().len() == 0
                && final(self).image_resources().len() == 0 && final(self).buffer_access().len() == 0
                && final(self).image_access().len() == 0 && final(self).transfers().len() == 0,
    {
        if self.transfers.len() == 0 {
            return None;
        }
        let mut buffer_resources: Vec<BufferGraphResource> = Vec::new();
        let mut image_resources: Vec<ImageGraphResource> = Vec::new();
        let mut buffer_access: Vec<(BufferIndex, BufferResourceAccess)> = Vec::new();
        let mut image_access: Vec<(ImageIndex, ImageResourceAccess)> = Vec::new();
        let mut transfers: Vec<Transfer> = Vec::new();
        std::mem::swap(&mut buffer_resources, &mut self.buffer_resources);
        std::mem::swap(&mut image_resources, &mut self.image_resources);
        std::mem::swap(&mut buffer_access, &mut self.buffer_access);
        std::mem::swap(&mut image_access, &mut self.image_access);
        std::mem::swap(&mut transfers, &mut self.transfers);
        Some(
            UploadPass {
                buffer_resources,
                image_resources,
                pass: OldRenderPass {
                    label_name: "Device Upload Pass".to_owned(),
                    label_color: UPLOAD_LABEL_COLOR,
                    queue: QueueType::Graphics,
                    buffer_access,
                    image_access,
                    command: Some(RenderPassCommand::Transfer { transfers }),
                },
            },
        )
    }
}

impl Default for UploadQueue {
    /// An empty queue.
    fn default() -> (q: Self)
        ensures
            q.buffer_resources().len() == 0,
            q.image_resources().len() == 0,
            q.buffer_access().len() == 0,
            q.image_access().len() == 0,
            q.transfers().len() == 0,
    {
        UploadQueue {
            buffer_resources: Vec::new(),
            image_resources: Vec::new(),
            buffer_access: Vec::new(),
            image_access: Vec::new(),
            transfers: Vec::new(),
        }
    }
}

} // verus!
