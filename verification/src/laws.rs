//! The laws of the reassembly engine: what holds of [`step`] across whole
//! deliveries, stated and proved over the registry's mathematical model.

use vstd::prelude::*;

use crate::chunk::ChunkView;
use crate::chunk::path_ok;
use crate::engine::AckView;
use crate::engine::step;
use crate::errors::UploadError;

verus! {

/// The concatenation of all payloads, in index order.
pub open spec fn concat_payloads(payloads: Seq<Seq<u8>>) -> Seq<u8>
    decreases payloads.len(),
{
    if payloads.len() == 0 {
        Seq::empty()
    } else {
        concat_payloads(payloads.drop_last()) + payloads.last()
    }
}

/// The descriptor of chunk `k` of an in-order delivery of `payloads` for
/// file `id`.
pub open spec fn chunk_at(id: Seq<char>, payloads: Seq<Seq<u8>>, k: int) -> ChunkView {
    ChunkView {
        file_id: id,
        chunk_index: k,
        total_chunks: payloads.len() as int,
        payload: payloads[k],
    }
}

/// The registry after the first `k` chunks of an in-order delivery of
/// `payloads` for file `id`, starting from `reg`.
pub open spec fn run_in_order(
    reg: Map<Seq<char>, Seq<u8>>,
    id: Seq<char>,
    payloads: Seq<Seq<u8>>,
    k: int,
) -> Map<Seq<char>, Seq<u8>>
    decreases k,
{
    if k <= 0 {
        reg
    } else {
        step(run_in_order(reg, id, payloads, k - 1), chunk_at(id, payloads, k - 1)).0
    }
}

/// While an in-order delivery is under way (some chunks processed, the
/// final one not yet), the file's session is open and holds exactly the
/// concatenation of the payloads delivered so far.
pub proof fn lemma_run_in_order_open(
    reg: Map<Seq<char>, Seq<u8>>,
    id: Seq<char>,
    payloads: Seq<Seq<u8>>,
    k: int,
)
    requires
        id.len() > 0,
        path_ok(id),
        payloads.len() >= 2,
        1 <= k <= payloads.len() - 1,
    ensures
        run_in_order(reg, id, payloads, k) == reg.insert(id, concat_payloads(payloads.take(k))),
    decreases k,
{
    if k == 1 {
        assert(run_in_order(reg, id, payloads, 0) == reg);
        assert(run_in_order(reg, id, payloads, 1) == step(reg, chunk_at(id, payloads, 0)).0);
        assert(chunk_at(id, payloads, 0).wf());
        assert(payloads.take(1).drop_last() =~= Seq::<Seq<u8>>::empty());
        assert(payloads.take(1).last() == payloads[0]);
        assert(concat_payloads(Seq::<Seq<u8>>::empty()) == Seq::<u8>::empty());
        assert(Seq::<u8>::empty() + payloads[0] =~= payloads[0]);
        assert(concat_payloads(payloads.take(1)) == payloads[0]);
    } else {
        lemma_run_in_order_open(reg, id, payloads, k - 1);
        let prev = run_in_order(reg, id, payloads, k - 1);
        let d = chunk_at(id, payloads, k - 1);
        assert(d.wf());
        assert(prev.contains_key(id));
        assert(prev[id] == concat_payloads(payloads.take(k - 1)));
        assert(payloads.take(k).drop_last() =~= payloads.take(k - 1));
        assert(payloads.take(k).last() == payloads[k - 1]);
        assert(concat_payloads(payloads.take(k)) == concat_payloads(payloads.take(k - 1))
            + payloads[k - 1]);
        assert(run_in_order(reg, id, payloads, k) =~= reg.insert(
            id,
            concat_payloads(payloads.take(k)),
        ));
    }
}

/// Round trip of an in-order delivery: sending every chunk of `payloads`
/// in index order for file `id` ends with a completion answer carrying
/// exactly the concatenation of the payloads, and leaves the registry
/// without a session for `id`.
pub proof fn lemma_in_order_round_trip(
    reg: Map<Seq<char>, Seq<u8>>,
    id: Seq<char>,
    payloads: Seq<Seq<u8>>,
)
    requires
        id.len() > 0,
        path_ok(id),
        payloads.len() >= 1,
    ensures
        ({
            let n = payloads.len() as int;
            let last = step(run_in_order(reg, id, payloads, n - 1), chunk_at(id, payloads, n - 1));
            &&& last.1 == Ok::<AckView, UploadError>(AckView::Complete(id, concat_payloads(payloads)))
            &&& last.0 == reg.remove(id)
            &&& !last.0.contains_key(id)
            &&& run_in_order(reg, id, payloads, n) == last.0
        }),
{
    let n = payloads.len() as int;
    let d = chunk_at(id, payloads, n - 1);
    assert(d.wf());
    if n == 1 {
        assert(payloads.drop_last() =~= Seq::<Seq<u8>>::empty());
        assert(concat_payloads(Seq::<Seq<u8>>::empty()) == Seq::<u8>::empty());
        assert(payloads.last() == payloads[0]);
        assert(Seq::<u8>::empty() + payloads[0] =~= payloads[0]);
        assert(concat_payloads(payloads) == payloads[0]);
    } else {
        lemma_run_in_order_open(reg, id, payloads, n - 1);
        let prev = run_in_order(reg, id, payloads, n - 1);
        assert(prev.contains_key(id));
        assert(payloads.take(n) =~= payloads);
        assert(payloads.take(n).drop_last() =~= payloads.take(n - 1));
        assert(concat_payloads(payloads) == concat_payloads(payloads.take(n - 1)) + payloads[n
            - 1]);
        assert(prev[id] + payloads[n - 1] == concat_payloads(payloads));
        assert(step(prev, d).0 =~= reg.remove(id));
    }
}

/// A chunk zero for a file that already has an open session discards the
/// prior partial content and restarts assembly: the registry afterwards
/// and the answer are exactly those of processing the same chunk with no
/// session open for the file.
pub proof fn lemma_chunk_zero_restarts(reg: Map<Seq<char>, Seq<u8>>, d: ChunkView)
    requires
        d.wf(),
        d.chunk_index == 0,
        path_ok(d.file_id),
    ensures
        step(reg, d).0 == step(reg.remove(d.file_id), d).0,
        step(reg, d).1 == step(reg.remove(d.file_id), d).1,
        d.total_chunks > 1 ==> step(reg, d).0[d.file_id] == d.payload,
        d.total_chunks == 1 ==> !step(reg, d).0.contains_key(d.file_id),
{
    assert(step(reg, d).0 =~= step(reg.remove(d.file_id), d).0);
}

/// A chunk whose index is at or past the total is rejected as malformed,
/// and nothing is created, written or removed.
pub proof fn lemma_index_out_of_range_rejected(reg: Map<Seq<char>, Seq<u8>>, d: ChunkView)
    requires
        d.chunk_index >= d.total_chunks,
    ensures
        step(reg, d).0 == reg,
        step(reg, d).1 == Err::<AckView, UploadError>(UploadError::MalformedRequest),
{
}

/// A chunk with index above zero for a file with no open session fails
/// with `SessionNotFound`, and nothing is created, written or removed.
pub proof fn lemma_missing_session_rejected(reg: Map<Seq<char>, Seq<u8>>, d: ChunkView)
    requires
        d.wf(),
        d.chunk_index > 0,
        !reg.contains_key(d.file_id),
    ensures
        step(reg, d).0 == reg,
        step(reg, d).1 == Err::<AckView, UploadError>(UploadError::SessionNotFound),
{
}

/// Processing the chunk at `total_chunks - 1` releases the session in the
/// same step: whenever that chunk is accepted, the answer is a completion
/// and the file identifier is absent from the registry afterwards.
pub proof fn lemma_final_chunk_releases_session(reg: Map<Seq<char>, Seq<u8>>, d: ChunkView)
    requires
        d.chunk_index == d.total_chunks - 1,
        step(reg, d).1 is Ok,
    ensures
        !step(reg, d).0.contains_key(d.file_id),
        step(reg, d).1 matches Ok(a) && a is Complete,
{
}

} // verus!
