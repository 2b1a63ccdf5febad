//! The hub's laws: properties that hold for all inputs, stated over the
//! same models the executable contracts use — the registry as a
//! `Map<u64, QueueModel>` changed by `insert` (register), `remove`
//! (unregister) and [`broadcast_model`] (broadcast) — and proved here.

use vstd::prelude::*;

use crate::frame::FrameModel;
use crate::queue::{seal_model, QueueModel};
use crate::registry::{broadcast_model, deliver_to, fresh_queue};

verus! {

/// The registry after a sequence of registrations, one fresh empty queue
/// inserted per id, in order.
pub open spec fn register_all(m: Map<u64, QueueModel>, ids: Seq<u64>) -> Map<u64, QueueModel>
    decreases ids.len(),
{
    if ids.len() == 0 {
        m
    } else {
        register_all(m, ids.drop_last()).insert(ids.last(), fresh_queue())
    }
}

/// Ids handed out by one allocator are strictly increasing across calls,
/// so any sequence of them holds no duplicate.
pub proof fn lemma_increasing_ids_distinct(ids: Seq<u64>)
    requires
        forall|i: int, j: int| 0 <= i < j < ids.len() ==> ids[i] < ids[j],
    ensures
        ids.no_duplicates(),
{
}

/// No lost inserts, no doubled keys: after any sequence of N registrations
/// with distinct, previously unregistered ids — exactly what N concurrent
/// connection handlers perform under the registry's lock, in whatever
/// order they win it — the key set is the old one plus those N ids, and
/// has grown by exactly N.
pub proof fn lemma_registration_key_set(m: Map<u64, QueueModel>, ids: Seq<u64>)
    requires
        m.dom().finite(),
        ids.no_duplicates(),
        forall|i: int| 0 <= i < ids.len() ==> !m.dom().contains(#[trigger] ids[i]),
    ensures
        register_all(m, ids).dom() == m.dom() + ids.to_set(),
        register_all(m, ids).dom().finite(),
        register_all(m, ids).dom().len() == m.dom().len() + ids.len(),
    decreases ids.len(),
{
    if ids.len() == 0 {
        assert(register_all(m, ids).dom() =~= m.dom() + ids.to_set());
    } else {
        let prefix = ids.drop_last();
        lemma_registration_key_set(m, prefix);
        assert(register_all(m, ids).dom() =~= m.dom() + ids.to_set()) by {
            assert(register_all(m, ids).dom() == register_all(m, prefix).dom().insert(ids.last()));
            assert(forall|k: u64| ids.to_set().contains(k) <==> ids.contains(k));
            assert(forall|k: u64| prefix.to_set().contains(k) <==> prefix.contains(k));
            assert(forall|k: u64| #[trigger] ids.contains(k) <==> (prefix.contains(k) || k
                == ids.last())) by {
                assert forall|k: u64| #[trigger] ids.contains(k) implies (prefix.contains(k) || k
                    == ids.last()) by {
                    let i = choose|i: int| 0 <= i < ids.len() && ids[i] == k;
                    if i < ids.len() - 1 {
                        assert(prefix[i] == k);
                    }
                };
                assert forall|k: u64| (prefix.contains(k) || k == ids.last()) implies #[trigger] ids
                    .contains(k) by {
                    if prefix.contains(k) {
                        let i = choose|i: int| 0 <= i < prefix.len() && prefix[i] == k;
                        assert(ids[i] == k);
                    } else {
                        assert(ids[ids.len() - 1] == k);
                    }
                };
            };
        };
        assert(register_all(m, ids).dom().len() == m.dom().len() + ids.len()) by {
            assert(!register_all(m, prefix).dom().contains(ids.last())) by {
                assert(forall|i: int| 0 <= i < prefix.len() ==> #[trigger] prefix[i] == ids[i]);
                if prefix.to_set().contains(ids.last()) {
                    let i = choose|i: int| 0 <= i < prefix.len() && prefix[i] == ids.last();
                    assert(ids[i] == ids.last());
                    assert(false);
                }
            };
        };
    }
}

/// No use after unregister: once a session has disconnected and left the
/// registry, a later broadcast attempts no delivery to its id — the id is
/// not even in the key set the broadcast walks, and broadcasting never
/// changes the key set.
pub proof fn lemma_no_delivery_after_unregister(
    m: Map<u64, QueueModel>,
    gone: u64,
    from: u64,
    msg: Seq<char>,
)
    ensures
        !m.remove(gone).dom().contains(gone),
        !broadcast_model(m.remove(gone), from, msg).dom().contains(gone),
        broadcast_model(m.remove(gone), from, msg).dom() == m.remove(gone).dom(),
{
    assert(broadcast_model(m.remove(gone), from, msg).dom() =~= m.remove(gone).dom());
}

/// Unregistering twice is the same as unregistering once: the second
/// removal of the same id changes nothing.
pub proof fn lemma_unregister_idempotent(m: Map<u64, QueueModel>, id: u64)
    ensures
        m.remove(id).remove(id) == m.remove(id),
{
    assert(m.remove(id).remove(id) =~= m.remove(id));
}

/// Per-sender order is preserved: when S broadcasts `a` and then `b`
/// while recipient R is still registered with an accepting queue, R's
/// queue holds the tagged `a` before the tagged `b`, right after its
/// previously queued frames — and if R disconnects afterwards, the sealed
/// queue its pump drains still holds them in that order, with only the
/// terminal signal behind them.
pub proof fn lemma_sender_order_preserved(
    m: Map<u64, QueueModel>,
    s: u64,
    a: Seq<char>,
    b: Seq<char>,
    r: u64,
)
    requires
        m.dom().contains(r),
        r != s,
        !m[r].closed,
    ensures
        broadcast_model(broadcast_model(m, s, a), s, b)[r].frames == m[r].frames.push(
            FrameModel::Text(a),
        ).push(FrameModel::Text(b)),
        seal_model(broadcast_model(broadcast_model(m, s, a), s, b)[r]).frames == m[r].frames.push(
            FrameModel::Text(a),
        ).push(FrameModel::Text(b)).push(FrameModel::Terminate),
{
}

/// Exclusion: a broadcast never delivers the sender's message back to the
/// sender; its own queue comes out exactly as it went in.
pub proof fn lemma_sender_excluded(m: Map<u64, QueueModel>, s: u64, msg: Seq<char>)
    requires
        m.dom().contains(s),
    ensures
        broadcast_model(m, s, msg)[s] == m[s],
{
}

/// A recipient whose queue already stopped accepting frames is skipped
/// silently, and its presence never prevents delivery to the remaining
/// recipients: every other registered session with an accepting queue
/// still receives the message.
pub proof fn lemma_closed_recipient_skipped(m: Map<u64, QueueModel>, s: u64, msg: Seq<char>)
    ensures
        forall|r: u64|
            m.dom().contains(r) && m[r].closed ==> #[trigger] broadcast_model(m, s, msg)[r]
                == m[r],
        forall|r: u64|
            m.dom().contains(r) && r != s && !m[r].closed ==> #[trigger] broadcast_model(
                m,
                s,
                msg,
            )[r] == deliver_to(m[r], msg),
{
}

} // verus!
