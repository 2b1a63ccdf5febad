//! The session registry: the shared directory of live sessions.
//!
//! The registry maps each session id to that session's outbound delivery
//! queue. Insertion happens exactly once per connection, at registration;
//! removal happens exactly once, at disconnection, and removing an absent id
//! is a harmless no-op. A broadcast walks the registered sessions and
//! attempts one non-blocking enqueue per recipient, skipping the sender and
//! swallowing deliveries to queues that no longer accept frames.
//!
//! Callers that share one registry across concurrently scheduled connection
//! handlers put it behind a single mutual-exclusion discipline guarding only
//! the mapping itself, never the per-connection network writes; every
//! operation here is one short critical section.

use vstd::prelude::*;
use vstd::map::*;

use crate::frame::{FrameModel, OutboundFrame};
use crate::queue::{seal_model, OutboundQueue, QueueModel};
use crate::tag::{spec_tagged, tag_message};

verus! {

/// The model of a freshly registered session's queue: empty, accepting.
pub open spec fn fresh_queue() -> QueueModel {
    QueueModel { frames: Seq::<FrameModel>::empty(), closed: false }
}

/// What one delivery attempt does to a recipient's queue: the message is
/// appended while the queue accepts frames, and dropped silently otherwise.
pub open spec fn deliver_to(q: QueueModel, msg: Seq<char>) -> QueueModel {
    if q.closed {
        q
    } else {
        QueueModel { frames: q.frames.push(FrameModel::Text(msg)), closed: false }
    }
}

/// What a broadcast of `msg` from session `from` does to the registry:
/// every registered session except the sender gets one delivery attempt;
/// the key set does not change.
pub open spec fn broadcast_model(m: Map<u64, QueueModel>, from: u64, msg: Seq<char>) -> Map<
    u64,
    QueueModel,
> {
    Map::new(
        |k: u64| m.dom().contains(k),
        |k: u64|
            if k == from {
                m[k]
            } else {
                deliver_to(m[k], msg)
            },
    )
}

/// One registry slot: a session id and that session's queue.
type Entry = (u64, OutboundQueue);

/// No session id appears twice.
spec fn keys_distinct(s: Seq<Entry>) -> bool {
    forall|i: int, j: int| 0 <= i < j < s.len() ==> (#[trigger] s[i]).0 != (#[trigger] s[j]).0
}

/// Some slot carries the id `k`.
spec fn has_key(s: Seq<Entry>, k: u64) -> bool {
    exists|i: int| 0 <= i < s.len() && (#[trigger] s[i]).0 == k
}

/// The mapping the slots stand for.
spec fn entries_map(s: Seq<Entry>) -> Map<u64, QueueModel>
    decreases s.len(),
{
    if s.len() == 0 {
        Map::empty()
    } else {
        entries_map(s.drop_last()).insert(s.last().0, s.last().1@)
    }
}

/// The mapping's key set is finite and holds exactly the ids of the slots.
proof fn lemma_entries_map_dom(s: Seq<Entry>)
    ensures
        entries_map(s).dom().finite(),
        forall|k: u64| #[trigger] entries_map(s).dom().contains(k) <==> has_key(s, k),
    decreases s.len(),
{
    if s.len() == 0 {
        assert(forall|k: u64| !(#[trigger] entries_map(s).dom().contains(k)));
    } else {
        let prefix = s.drop_last();
        lemma_entries_map_dom(prefix);
        assert forall|k: u64| #[trigger] entries_map(s).dom().contains(k) implies has_key(s, k) by {
            if k == s.last().0 {
                assert((s[s.len() - 1]).0 == k);
            } else {
                let i = choose|i: int| 0 <= i < prefix.len() && (#[trigger] prefix[i]).0 == k;
                assert((s[i]).0 == k);
            }
        };
        assert forall|k: u64| has_key(s, k) implies #[trigger] entries_map(s).dom().contains(k) by {
            let i = choose|i: int| 0 <= i < s.len() && (#[trigger] s[i]).0 == k;
            if i < s.len() - 1 {
                assert((prefix[i]).0 == k);
                assert(has_key(prefix, k));
            }
        };
    }
}

/// With distinct ids, the mapping sends each slot's id to that slot's queue.
proof fn lemma_entries_map_vals(s: Seq<Entry>)
    requires
        keys_distinct(s),
    ensures
        forall|i: int|
            0 <= i < s.len() ==> entries_map(s).dom().contains((#[trigger] s[i]).0)
                && entries_map(s)[s[i].0] == s[i].1@,
    decreases s.len(),
{
    if s.len() > 0 {
        let prefix = s.drop_last();
        assert(keys_distinct(prefix));
        lemma_entries_map_vals(prefix);
        assert forall|i: int|
            0 <= i < s.len() implies entries_map(s).dom().contains((#[trigger] s[i]).0)
            && entries_map(s)[s[i].0] == s[i].1@ by {
            if i < s.len() - 1 {
                assert((prefix[i]).0 == s[i].0 && (prefix[i]).1 == s[i].1);
                assert(s[i].0 != s.last().0);
            }
        };
    }
}

/// Replacing the queue of one slot, ids untouched, is one map insertion.
proof fn lemma_entries_map_update(s: Seq<Entry>, t: Seq<Entry>, i: int)
    requires
        keys_distinct(s),
        t.len() == s.len(),
        0 <= i < s.len(),
        forall|j: int| 0 <= j < s.len() ==> (#[trigger] t[j]).0 == s[j].0,
        forall|j: int| 0 <= j < s.len() && j != i ==> (#[trigger] t[j]).1@ == s[j].1@,
    ensures
        keys_distinct(t),
        entries_map(t) == entries_map(s).insert(t[i].0, t[i].1@),
{
    assert(keys_distinct(t));
    lemma_entries_map_dom(s);
    lemma_entries_map_dom(t);
    lemma_entries_map_vals(s);
    lemma_entries_map_vals(t);
    assert_maps_equal!(entries_map(t), entries_map(s).insert(t[i].0, t[i].1@), k => {
        if entries_map(t).dom().contains(k) {
            let a = choose|a: int| 0 <= a < t.len() && (#[trigger] t[a]).0 == k;
            assert(entries_map(t)[k] == t[a].1@);
            assert((s[a]).0 == k);
            if a != i {
                assert(k != t[i].0);
                assert(entries_map(s)[k] == s[a].1@);
            }
        }
        if entries_map(s).insert(t[i].0, t[i].1@).dom().contains(k) {
            if k == t[i].0 {
                assert((t[i]).0 == k);
                assert(entries_map(t).dom().contains(k));
            } else {
                let b = choose|b: int| 0 <= b < s.len() && (#[trigger] s[b]).0 == k;
                assert((t[b]).0 == k);
                assert(b != i);
                assert(entries_map(t).dom().contains(k));
            }
        }
    });
}

/// With distinct ids, the mapping has exactly one key per slot.
proof fn lemma_entries_map_len(s: Seq<Entry>)
    requires
        keys_distinct(s),
    ensures
        entries_map(s).dom().len() == s.len(),
    decreases s.len(),
{
    if s.len() > 0 {
        let prefix = s.drop_last();
        assert(keys_distinct(prefix));
        lemma_entries_map_len(prefix);
        lemma_entries_map_dom(prefix);
        if entries_map(prefix).dom().contains(s.last().0) {
            let i = choose|i: int| 0 <= i < prefix.len() && (#[trigger] prefix[i]).0 == s.last().0;
            assert((s[i]).0 == (s[s.len() - 1]).0);
            assert(false);
        }
    }
}

/// The shared directory of live sessions: session id to outbound queue.
pub struct Registry {
    entries: Vec<Entry>,
}

impl View for Registry {
    type V = Map<u64, QueueModel>;

    closed spec fn view(&self) -> Map<u64, QueueModel> {
        entries_map(self.entries@)
    }
}

impl Registry {
    /// No session id appears twice in the directory.
    pub closed spec fn wf(&self) -> bool {
        keys_distinct(self.entries@)
    }

    /// An empty registry.
    pub fn new() -> (r: Registry)
        ensures
            r.wf(),
            r@ == Map::<u64, QueueModel>::empty(),
    {
        Registry { entries: Vec::new() }
    }

    /// The slot holding `id`, if any.
    fn find_index(&self, id: u64) -> (r: Option<usize>)
        ensures
            r matches Some(i) ==> i < self.entries@.len() && (self.entries@[i as int]).0 == id,
            r is None ==> !has_key(self.entries@, id),
    {
        let n = self.entries.len();
        for i in 0..n
            invariant
                n == self.entries@.len(),
                forall|j: int| 0 <= j < i ==> (#[trigger] self.entries@[j]).0 != id,
        {
            if self.entries[i].0 == id {
                return Some(i);
            }
        }
        None
    }

    /// Whether `id` is currently registered.
    pub fn contains(&self, id: u64) -> (r: bool)
        ensures
            r == self@.dom().contains(id),
    {
        proof {
            lemma_entries_map_dom(self.entries@);
        }
        match self.find_index(id) {
            Some(_) => true,
            None => false,
        }
    }

    /// How many sessions are currently registered.
    pub fn count(&self) -> (n: usize)
        requires
            self.wf(),
        ensures
            n == self@.dom().len(),
    {
        proof {
            lemma_entries_map_len(self.entries@);
        }
        self.entries.len()
    }

    /// Insert the mapping for a newly connected session. The caller owes the
    /// precondition that `id` is not already present, which the id
    /// allocator's uniqueness guarantees.
    pub fn register(&mut self, id: u64)
        requires
            old(self).wf(),
            !old(self)@.dom().contains(id),
        ensures
            final(self).wf(),
            final(self)@ == old(self)@.insert(id, fresh_queue()),
    {
        proof {
            lemma_entries_map_dom(self.entries@);
        }
        let q = OutboundQueue::new();
        self.entries.push((id, q));
        proof {
            let s0 = old(self).entries@;
            let s1 = self.entries@;
            assert(s1.drop_last() =~= s0);
            assert(forall|i: int| 0 <= i < s0.len() ==> (#[trigger] s0[i]).0 != id);
            assert(keys_distinct(s1));
            assert(q@ =~= fresh_queue());
        }
    }

    /// Remove the mapping for `id` and hand back that session's queue,
    /// sealed, so the session's outbound pump can drain the already-queued
    /// frames. Removing an id that is not present is a no-op and no error:
    /// that covers the double-disconnect race where a read error and an
    /// external close both trigger removal.
    pub fn unregister(&mut self, id: u64) -> (r: Option<OutboundQueue>)
        requires
            old(self).wf(),
        ensures
            final(self).wf(),
            final(self)@ == old(self)@.remove(id),
            r is Some <==> old(self)@.dom().contains(id),
            r matches Some(q) ==> q@ == seal_model(old(self)@[id]),
    {
        proof {
            lemma_entries_map_dom(self.entries@);
        }
        match self.find_index(id) {
            None => {
                proof {
                    assert_maps_equal!(entries_map(self.entries@),
                        entries_map(self.entries@).remove(id));
                }
                None
            },
            Some(i) => {
                let ghost s0 = self.entries@;
                let (_, mut q) = self.entries.remove(i);
                let ghost s1 = self.entries@;
                proof {
                    s0.remove_ensures(i as int);
                    lemma_entries_map_dom(s0);
                    lemma_entries_map_vals(s0);
                    assert(forall|a: int|
                        0 <= a < s1.len() ==> s1[a] == s0[if a < i { a } else { a + 1 }]);
                    assert(keys_distinct(s1)) by {
                        assert forall|a: int, b: int| 0 <= a < b < s1.len() implies (
                        #[trigger] s1[a]).0 != (#[trigger] s1[b]).0 by {
                            let a0: int = if a < i { a } else { a + 1 };
                            let b0: int = if b < i { b } else { b + 1 };
                            assert(s1[a] == s0[a0] && s1[b] == s0[b0]);
                        }
                    };
                    lemma_entries_map_dom(s1);
                    lemma_entries_map_vals(s1);
                    assert_maps_equal!(entries_map(s1), entries_map(s0).remove(id), k => {
                        if entries_map(s1).dom().contains(k) {
                            let a = choose|a: int|
                                0 <= a < s1.len() && (#[trigger] s1[a]).0 == k;
                            let a0: int = if a < i { a } else { a + 1 };
                            assert(s1[a] == s0[a0]);
                            assert((s0[a0]).0 == k);
                            assert(a0 != i ==> k != id);
                            assert(a0 != i);
                        }
                        if entries_map(s0).remove(id).dom().contains(k) {
                            let b = choose|b: int|
                                0 <= b < s0.len() && (#[trigger] s0[b]).0 == k;
                            assert(b != i);
                            let a0: int = if b < i { b } else { b - 1 };
                            assert(s1[a0] == s0[b]);
                            assert((s1[a0]).0 == k);
                        }
                    });
                }
                q.seal();
                Some(q)
            },
        }
    }

    /// Stop `id`'s queue from accepting frames, keeping the session
    /// registered and the queued frames in place. Models the receiving side
    /// of the queue going away first, as it does when a session's transport
    /// write fails. Unknown ids are ignored.
    pub fn close_queue(&mut self, id: u64)
        requires
            old(self).wf(),
        ensures
            final(self).wf(),
            !old(self)@.dom().contains(id) ==> final(self)@ == old(self)@,
            old(self)@.dom().contains(id) ==> final(self)@ == old(self)@.insert(
                id,
                (QueueModel { frames: old(self)@[id].frames, closed: true }),
            ),
    {
        proof {
            lemma_entries_map_dom(self.entries@);
            lemma_entries_map_vals(self.entries@);
        }
        match self.find_index(id) {
            None => {
            },
            Some(i) => {
                let ghost s0 = self.entries@;
                let e = &mut self.entries[i];
                e.1.close();
                proof {
                    lemma_entries_map_update(s0, self.entries@, i as int);
                }
            },
        }
    }

    /// Dequeue the next frame of `id`'s queue, if the session is registered
    /// and has one pending. This is the single-consumer side: only `id`'s
    /// own outbound pump calls it.
    pub fn pop_frame(&mut self, id: u64) -> (r: Option<OutboundFrame>)
        requires
            old(self).wf(),
        ensures
            final(self).wf(),
            !old(self)@.dom().contains(id) ==> r is None && final(self)@ == old(self)@,
            old(self)@.dom().contains(id) && old(self)@[id].frames.len() == 0 ==> r is None
                && final(self)@ == old(self)@,
            old(self)@.dom().contains(id) && old(self)@[id].frames.len() > 0 ==> (r matches Some(f)
                && f@ == old(self)@[id].frames.first()) && final(self)@ == old(self)@.insert(
                id,
                (QueueModel {
                    frames: old(self)@[id].frames.drop_first(),
                    closed: old(self)@[id].closed,
                }),
            ),
    {
        proof {
            lemma_entries_map_dom(self.entries@);
            lemma_entries_map_vals(self.entries@);
        }
        match self.find_index(id) {
            None => None,
            Some(i) => {
                let ghost s0 = self.entries@;
                let e = &mut self.entries[i];
                let r = e.1.pop_front();
                proof {
                    lemma_entries_map_update(s0, self.entries@, i as int);
                    if s0[i as int].1@.frames.len() == 0 {
                        assert((self.entries@[i as int]).1@ =~= s0[i as int].1@);
                        assert(old(self)@.insert(id, s0[i as int].1@) =~= old(self)@);
                    } else {
                        assert((self.entries@[i as int]).1@ =~= (QueueModel {
                            frames: old(self)@[id].frames.drop_first(),
                            closed: old(self)@[id].closed,
                        }));
                    }
                }
                r
            },
        }
    }

    /// Deliver `text` from session `from` to every other registered
    /// session: the text is wrapped with the sender's tag, then appended to
    /// each recipient's queue with one non-blocking enqueue. The sender gets
    /// no copy of its own message; a recipient whose queue no longer
    /// accepts frames is skipped silently and never blocks delivery to the
    /// remaining recipients.
    pub fn broadcast(&mut self, from: u64, text: &str)
        requires
            old(self).wf(),
        ensures
            final(self).wf(),
            final(self)@ == broadcast_model(old(self)@, from, spec_tagged(from, text@)),
    {
        let ghost s0 = self.entries@;
        let msg = tag_message(from, text);
        let n = self.entries.len();
        for idx in 0..n
            invariant
                n == self.entries@.len(),
                s0.len() == n,
                msg@ == spec_tagged(from, text@),
                keys_distinct(s0),
                forall|j: int| 0 <= j < s0.len() ==> (#[trigger] self.entries@[j]).0 == s0[j].0,
                forall|j: int|
                    0 <= j < idx ==> (#[trigger] self.entries@[j]).1@ == (if s0[j].0 == from {
                        s0[j].1@
                    } else {
                        deliver_to(s0[j].1@, msg@)
                    }),
                forall|j: int|
                    idx <= j < s0.len() ==> (#[trigger] self.entries@[j]).1@ == s0[j].1@,
        {
            let e = &mut self.entries[idx];
            if e.0 != from {
                e.1.try_enqueue(OutboundFrame::Text(msg.clone()));
            }
        }
        proof {
            let s1 = self.entries@;
            assert(keys_distinct(s1));
            lemma_entries_map_dom(s0);
            lemma_entries_map_vals(s0);
            lemma_entries_map_dom(s1);
            lemma_entries_map_vals(s1);
            assert_maps_equal!(entries_map(s1),
                broadcast_model(entries_map(s0), from, spec_tagged(from, text@)), k => {
                if entries_map(s1).dom().contains(k) {
                    let a = choose|a: int| 0 <= a < s1.len() && (#[trigger] s1[a]).0 == k;
                    assert((s0[a]).0 == k);
                    assert(entries_map(s0)[k] == s0[a].1@);
                }
                if broadcast_model(entries_map(s0), from, spec_tagged(from, text@))
                    .dom().contains(k) {
                    let b = choose|b: int| 0 <= b < s0.len() && (#[trigger] s0[b]).0 == k;
                    assert((s1[b]).0 == k);
                }
            });
        }
    }
}

} // verus!
