//! The per-connection lifecycle: `Connecting -> Active -> Draining -> Closed`.
//!
//! One `Connection` stands for one accepted client. Its owner runs two
//! concurrently scheduled flows for the connection's lifetime: an inbound
//! flow that reads frames from the transport and hands them to
//! [`Connection::handle_inbound`], and an outbound pump that repeatedly
//! calls [`Connection::pump`] and writes the delivered text to the
//! transport. The transport itself (the reads, the writes, the waiting)
//! stays outside; every decision about the hub's state is made here.
//!
//! Any transport-level error on either flow tears down only this one
//! connection: a read error or stream close is a disconnect
//! ([`Connection::disconnect`]), a write error closes this connection's
//! queue ([`Connection::on_write_error`]). Neither ever touches another
//! session's flows.

use vstd::prelude::*;

use crate::frame::{FrameModel, OutboundFrame};
use crate::ids::IdAllocator;
use crate::queue::{seal_model, OutboundQueue, QueueModel};
use crate::registry::{broadcast_model, fresh_queue, Registry};
use crate::tag::spec_tagged;

verus! {

/// Where a connection stands in its life.
#[derive(Clone, Copy, Debug, PartialEq, Eq, Structural)]
pub enum LifecycleState {
    /// Id allocated, handle constructed, registry entry inserted.
    Connecting,
    /// Both flows run; inbound text is broadcast, the pump drains the queue.
    Active,
    /// The inbound flow ended and the session left the registry; the pump
    /// drains the frames that were already queued.
    Draining,
    /// Terminal: resources released, no further observable behavior.
    Closed,
}

/// What the inbound flow read from the transport: one text frame, or a
/// frame of any other kind, which the hub ignores.
pub enum InboundEvent {
    Text(String),
    NonText,
}

/// What one outbound pump step asks the transport layer to do.
#[derive(Debug, PartialEq, Eq)]
pub enum PumpStep {
    /// Write this text frame to the client.
    Deliver(String),
    /// The queue ended; close the transport and release the connection.
    Finished,
    /// Nothing pending; park until a broadcast enqueues more.
    Idle,
}

/// One accepted client connection: its session id, its lifecycle state,
/// and, while draining, the queue it took back from the registry.
pub struct Connection {
    pub id: u64,
    pub state: LifecycleState,
    pub draining: Option<OutboundQueue>,
}

impl Connection {
    /// A connection holds a taken-back queue exactly while it drains.
    pub open spec fn wf(&self) -> bool {
        (self.state is Draining) <==> (self.draining is Some)
    }

    /// Accept one upgraded client: allocate a fresh session id and insert
    /// the registry entry with an empty queue. The new connection is in
    /// `Connecting`; the transition to `Active` is unconditional and
    /// immediate, by [`Connection::activate`].
    pub fn open(alloc: &mut IdAllocator, registry: &mut Registry) -> (c: Connection)
        requires
            old(alloc)@ < u64::MAX,
            old(registry).wf(),
            !old(registry)@.dom().contains(old(alloc)@),
        ensures
            final(alloc)@ == old(alloc)@ + 1,
            final(registry).wf(),
            final(registry)@ == old(registry)@.insert(old(alloc)@, fresh_queue()),
            c.wf(),
            c.id == old(alloc)@,
            c.state is Connecting,
    {
        let id = alloc.next_id();
        registry.register(id);
        Connection { id, state: LifecycleState::Connecting, draining: None }
    }

    /// `Connecting -> Active`.
    pub fn activate(&mut self)
        requires
            old(self).wf(),
            old(self).state is Connecting,
        ensures
            final(self).wf(),
            final(self).state is Active,
            final(self).id == old(self).id,
            final(self).draining is None,
    {
        self.state = LifecycleState::Active;
    }

    /// One step of the active inbound flow: a text frame is broadcast to
    /// every other registered session, tagged with this sender's id; any
    /// other frame is ignored and changes nothing.
    pub fn handle_inbound(&mut self, registry: &mut Registry, event: InboundEvent)
        requires
            old(self).wf(),
            old(self).state is Active,
            old(registry).wf(),
        ensures
            *final(self) == *old(self),
            final(registry).wf(),
            event matches InboundEvent::Text(t) ==> final(registry)@ == broadcast_model(
                old(registry)@,
                old(self).id,
                spec_tagged(old(self).id, t@),
            ),
            event is NonText ==> final(registry)@ == old(registry)@,
    {
        match event {
            InboundEvent::Text(t) => registry.broadcast(self.id, t.as_str()),
            InboundEvent::NonText => {},
        }
    }

    /// The inbound flow ended (read error or stream close): leave the
    /// registry, so that no further broadcast reaches this session, and
    /// keep the sealed queue so the outbound pump can drain what was
    /// already delivered. Disconnecting again later, in whatever state,
    /// repeats the registry removal as a no-op and changes nothing else:
    /// removal is idempotent.
    pub fn disconnect(&mut self, registry: &mut Registry)
        requires
            old(self).wf(),
            !(old(self).state is Connecting),
            old(registry).wf(),
        ensures
            final(self).wf(),
            final(self).id == old(self).id,
            final(registry).wf(),
            final(registry)@ == old(registry)@.remove(old(self).id),
            old(self).state is Active ==> final(self).state is Draining && (final(self).draining matches Some(q) ==> q@ == (if old(registry)@.dom().contains(
                old(self).id,
            ) {
                seal_model(old(registry)@[old(self).id])
            } else {
                seal_model(fresh_queue())
            })),
            !(old(self).state is Active) ==> final(self).state == old(self).state && final(self).draining == old(self).draining,
    {
        let taken = registry.unregister(self.id);
        if matches!(self.state, LifecycleState::Active) {
            let q = match taken {
                Some(q) => q,
                None => {
                    let mut q = OutboundQueue::new();
                    q.seal();
                    q
                },
            };
            self.draining = Some(q);
            self.state = LifecycleState::Draining;
        }
    }

    /// One step of the outbound pump. While `Active` it dequeues from this
    /// session's registry entry; while `Draining` it dequeues from the
    /// taken-back queue. A text frame becomes a `Deliver` step; the
    /// terminal signal, or a drained-dry taken-back queue, closes the
    /// connection.
    pub fn pump(&mut self, registry: &mut Registry) -> (step: PumpStep)
        requires
            old(self).wf(),
            old(self).state is Active || old(self).state is Draining,
            old(registry).wf(),
        ensures
            final(self).wf(),
            final(self).id == old(self).id,
            final(registry).wf(),
            old(self).state is Draining ==> final(registry)@ == old(registry)@,
            old(self).state is Active ==> {
                let m = old(registry)@;
                let id = old(self).id;
                &&& (!m.dom().contains(id) || m[id].frames.len() == 0) ==> step == PumpStep::Idle
                    && *final(self) == *old(self) && final(registry)@ == m
                &&& m.dom().contains(id) && m[id].frames.len() > 0 ==> final(registry)@
                    == m.insert(
                    id,
                    (QueueModel { frames: m[id].frames.drop_first(), closed: m[id].closed }),
                ) && (match m[id].frames.first() {
                    FrameModel::Text(s) => (step matches PumpStep::Deliver(d) && d@ == s)
                        && *final(self) == *old(self),
                    FrameModel::Terminate => step == PumpStep::Finished && final(self).state
                        is Closed && final(self).draining is None,
                })
            },
            old(self).state is Draining ==> {
                let q = old(self).draining->Some_0@;
                &&& q.frames.len() == 0 ==> step == PumpStep::Finished && final(self).state
                    is Closed && final(self).draining is None
                &&& q.frames.len() > 0 ==> match q.frames.first() {
                    FrameModel::Text(s) => (step matches PumpStep::Deliver(d) && d@ == s) && final(self).state is Draining && (final(self).draining matches Some(dq) && dq@
                        == (QueueModel { frames: q.frames.drop_first(), closed: q.closed })),
                    FrameModel::Terminate => step == PumpStep::Finished && final(self).state
                        is Closed && final(self).draining is None,
                }
            },
    {
        let popped: Option<OutboundFrame> = if matches!(self.state, LifecycleState::Active) {
            registry.pop_frame(self.id)
        } else {
            match &mut self.draining {
                Some(q) => q.pop_front(),
                None => None,
            }
        };
        match popped {
            Some(OutboundFrame::Text(s)) => PumpStep::Deliver(s),
            Some(OutboundFrame::Terminate) => {
                self.draining = None;
                self.state = LifecycleState::Closed;
                PumpStep::Finished
            },
            None => {
                if matches!(self.state, LifecycleState::Active) {
                    PumpStep::Idle
                } else {
                    self.draining = None;
                    self.state = LifecycleState::Closed;
                    PumpStep::Finished
                }
            },
        }
    }

    /// The outbound flow hit a transport write error: nothing can be
    /// delivered to this client any more, so the connection closes. While
    /// the session is still registered its queue merely stops accepting
    /// frames — later broadcasts skip it silently — and the registry entry
    /// itself stays until the inbound flow observes the disconnect.
    pub fn on_write_error(&mut self, registry: &mut Registry)
        requires
            old(self).wf(),
            old(self).state is Active || old(self).state is Draining,
            old(registry).wf(),
        ensures
            final(self).wf(),
            final(self).id == old(self).id,
            final(self).state is Closed,
            final(self).draining is None,
            final(registry).wf(),
            old(self).state is Draining ==> final(registry)@ == old(registry)@,
            old(self).state is Active ==> final(registry)@ == (if old(registry)@.dom().contains(old(self).id) {
                old(registry)@.insert(
                    old(self).id,
                    (QueueModel {
                        frames: old(registry)@[old(self).id].frames,
                        closed: true,
                    }),
                )
            } else {
                old(registry)@
            }),
    {
        if matches!(self.state, LifecycleState::Active) {
            registry.close_queue(self.id);
        }
        self.draining = None;
        self.state = LifecycleState::Closed;
    }
}

} // verus!
