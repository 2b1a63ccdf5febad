//! The per-session outbound delivery queue.
//!
//! Each connected session owns one queue. Broadcasting sessions append text
//! frames to it (multi-producer side) and the session's own outbound pump
//! drains it in FIFO order (single-consumer side). A closed queue accepts no
//! further frames: an enqueue onto it is silently dropped, which is the
//! expected race between a broadcast and a disconnect.

use vstd::prelude::*;

use crate::frame::{FrameModel, OutboundFrame};

verus! {

/// The model of a queue: the pending frames in delivery order, and whether
/// the queue still accepts new frames.
#[verifier::ext_equal]
pub struct QueueModel {
    pub frames: Seq<FrameModel>,
    pub closed: bool,
}

/// What sealing does to a queue's model: the terminal signal is appended
/// (when the queue still accepted frames) and the queue stops accepting.
pub open spec fn seal_model(q: QueueModel) -> QueueModel {
    if q.closed {
        q
    } else {
        QueueModel { frames: q.frames.push(FrameModel::Terminate), closed: true }
    }
}

/// A session's outbound delivery queue.
pub struct OutboundQueue {
    frames: Vec<OutboundFrame>,
    closed: bool,
}

impl View for OutboundQueue {
    type V = QueueModel;

    closed spec fn view(&self) -> QueueModel {
        QueueModel {
            frames: self.frames@.map_values(|f: OutboundFrame| f@),
            closed: self.closed,
        }
    }
}

impl OutboundQueue {
    /// A fresh queue: empty, accepting frames.
    pub fn new() -> (q: OutboundQueue)
        ensures
            q@ == (QueueModel { frames: Seq::<FrameModel>::empty(), closed: false }),
    {
        let q = OutboundQueue { frames: Vec::new(), closed: false };
        proof {
            assert(q@.frames =~= Seq::<FrameModel>::empty());
        }
        q
    }

    pub fn is_closed(&self) -> (r: bool)
        ensures
            r == self@.closed,
    {
        self.closed
    }

    pub fn len(&self) -> (n: usize)
        ensures
            n == self@.frames.len(),
    {
        self.frames.len()
    }

    /// Non-blocking enqueue: appends the frame, unless the queue is closed,
    /// in which case the frame is dropped silently.
    pub fn try_enqueue(&mut self, frame: OutboundFrame)
        ensures
            final(self)@.closed == old(self)@.closed,
            old(self)@.closed ==> final(self)@.frames == old(self)@.frames,
            !old(self)@.closed ==> final(self)@.frames == old(self)@.frames.push(frame@),
    {
        if !self.closed {
            self.frames.push(frame);
            proof {
                assert(self@.frames =~= old(self)@.frames.push(frame@));
            }
        }
    }

    /// Stop accepting frames; already-queued frames stay for the consumer.
    pub fn close(&mut self)
        ensures
            final(self)@.frames == old(self)@.frames,
            final(self)@.closed,
    {
        self.closed = true;
    }

    /// The sending side is going away: append the terminal signal (if the
    /// queue still accepts frames) and close the queue. The consumer drains
    /// the remaining frames and stops at the terminal signal.
    pub fn seal(&mut self)
        ensures
            final(self)@ == seal_model(old(self)@),
    {
        if !self.closed {
            self.frames.push(OutboundFrame::Terminate);
            proof {
                assert(self@.frames =~= old(self)@.frames.push(FrameModel::Terminate));
            }
        }
        self.closed = true;
        proof {
            assert(self@ =~= seal_model(old(self)@));
        }
    }

    /// Dequeue the frame at the head of the queue, if any.
    pub fn pop_front(&mut self) -> (r: Option<OutboundFrame>)
        ensures
            final(self)@.closed == old(self)@.closed,
            old(self)@.frames.len() == 0 ==> r is None && final(self)@.frames == old(
                self,
            )@.frames,
            old(self)@.frames.len() > 0 ==> (r matches Some(f) && f@ == old(self)@.frames.first())
                && final(self)@.frames == old(self)@.frames.drop_first(),
    {
        if self.frames.len() == 0 {
            None
        } else {
            let f = self.frames.remove(0);
            proof {
                assert(self@.frames =~= old(self)@.frames.drop_first());
            }
            Some(f)
        }
    }
}

} // verus!
