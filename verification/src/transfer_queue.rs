//! Copies queued between frames and submitted together on a dedicated queue, each batch
//! in the next of a ring of transfer frames.
use vstd::prelude::*;
use crate::render_graph_builder::Transfer;

verus! {

/// The queued copies and the transfer frame the last batch used.
pub struct TransferQueue {
    transfer_frame_index: usize,
    transfer_frame_count: usize,
    transfers: Vec<Transfer>,
}

impl TransferQueue {
    pub closed spec fn frame_index(&self) -> nat {
        self.transfer_frame_index as nat
    }

    pub closed spec fn frame_count(&self) -> nat {
        self.transfer_frame_count as nat
    }

    /// The copies queued since the last submission, in order.
    pub closed spec fn transfers(&self) -> Seq<Transfer> {
        self.transfers@
    }

    pub closed spec fn wf(&self) -> bool {
        self.transfer_frame_count > 0 ==> self.transfer_frame_index < self.transfer_frame_count
    }

    /// A queue with `transfer_frame_count` transfer frames, the first one current.
    pub fn new(transfer_frame_count: usize) -> (queue: Self)
        ensures
            queue.wf(),
            queue.frame_index() == 0,
            queue.frame_count() == transfer_frame_count,
            queue.transfers().len() == 0,
    {
        TransferQueue { transfer_frame_index: 0, transfer_frame_count, transfers: Vec::new() }
    }

    pub fn add_transfer(&mut self, transfer: Transfer)
        requires
            old(self).wf(),
        ensures
            final(self).wf(),
            final(self).transfers() == old(self).transfers().push(transfer),
            final(self).frame_index() == old(self).frame_index(),
            final(self).frame_count() == old(self).frame_count(),
    {
        self.transfers.push(transfer);
    }

    /// With copies queued: moves on to the next transfer frame and hands out that frame's
    /// index with the copies, emptying the queue. With none, does nothing.
    pub fn submit_transfers(&mut self) -> (batch: Option<(usize, Vec<Transfer>)>)
        requires
            old(self).wf(),
            old(self).transfers().len() > 0 ==> old(self).frame_count() > 0,
        ensures
            final(self).wf(),
            final(self).frame_count() == old(self).frame_count(),
            old(self).transfers().len() == 0 ==> batch is None && final(self).frame_index() == old(self).frame_index()
                && final(self).transfers().len() == 0,
            old(self).transfers().len() > 0 ==> (batch matches Some((index, transfers)) && {
                &&& index == (old(self).frame_index() + 1) % old(self).frame_count()
                &&& final(self).frame_index() == index
                &&& transfers@ == old(self).transfers()
                &&& final(self).transfers().len() == 0
            }),
    {
        if self.transfers.len() == 0 {
            return None;
        }
        self.transfer_frame_index = (self.transfer_frame_index + 1) % self.transfer_frame_count;
        let mut transfers: Vec<Transfer> = Vec::new();
        std::mem::swap(&mut transfers, &mut self.transfers);
        Some((self.transfer_frame_index, transfers))
    }
}

} // verus!
