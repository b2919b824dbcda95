//! The reassembly engine: given a decoded chunk and the registry, decides
//! whether to create, append to, or finalize the destination file, and
//! mutates the registry accordingly.
//!
//! The whole behaviour is pinned by the specification function [`step`]:
//! processing a chunk takes the registry from `reg` to `step(reg, d).0`
//! and answers `step(reg, d).1`.

use vstd::prelude::*;

use crate::chunk::ChunkDescriptor;
use crate::chunk::ChunkView;
use crate::chunk::path_ok;
use crate::errors::UploadError;
use crate::registry::UploadState;

verus! {

/// The acknowledgement of one successfully processed chunk.
#[derive(Debug, PartialEq, Eq)]
pub enum Ack {
    /// The chunk was appended to its session; more chunks of this file
    /// are expected.
    ChunkAccepted,
    /// The chunk was the file's last: the session is closed, and these
    /// are the destination file's identifier and its fully assembled
    /// bytes, ready to be persisted.
    FileComplete { file_id: String, content: Vec<u8> },
}

/// The mathematical content of an [`Ack`].
pub enum AckView {
    Accepted,
    Complete(Seq<char>, Seq<u8>),
}

impl View for Ack {
    type V = AckView;

    open spec fn view(&self) -> AckView {
        match self {
            Ack::ChunkAccepted => AckView::Accepted,
            Ack::FileComplete { file_id, content } => AckView::Complete(file_id@, content@),
        }
    }
}

/// What processing chunk `d` does to registry `reg`: the pair of the
/// registry afterwards and the answer to the caller.
///
/// The state machine per file identifier: absent, then open from chunk
/// zero on, then absent again once the chunk at `total_chunks - 1` is
/// processed. A chunk zero always (re)starts the session, discarding any
/// prior content; a later chunk requires an open session; the literal
/// arrival of index `total_chunks - 1` finalizes the session, whether or
/// not every earlier index was seen.
pub open spec fn step(reg: Map<Seq<char>, Seq<u8>>, d: ChunkView) -> (
    Map<Seq<char>, Seq<u8>>,
    Result<AckView, UploadError>,
) {
    if !d.wf() {
        (reg, Err(UploadError::MalformedRequest))
    } else if d.chunk_index == 0 {
        if !path_ok(d.file_id) {
            (reg, Err(UploadError::StorageError))
        } else if d.total_chunks == 1 {
            (reg.remove(d.file_id), Ok(AckView::Complete(d.file_id, d.payload)))
        } else {
            (reg.insert(d.file_id, d.payload), Ok(AckView::Accepted))
        }
    } else if !reg.contains_key(d.file_id) {
        (reg, Err(UploadError::SessionNotFound))
    } else {
        let content = reg[d.file_id] + d.payload;
        if d.chunk_index == d.total_chunks - 1 {
            (reg.remove(d.file_id), Ok(AckView::Complete(d.file_id, content)))
        } else {
            (reg.insert(d.file_id, content), Ok(AckView::Accepted))
        }
    }
}

/// Whether the executable answer `r` is exactly the specified answer `o`.
pub open spec fn answers(r: Result<Ack, UploadError>, o: Result<AckView, UploadError>) -> bool {
    match (r, o) {
        (Ok(a), Ok(av)) => a@ == av,
        (Err(e), Err(ev)) => e == ev,
        _ => false,
    }
}

/// Processes one decoded chunk against the registry.
///
/// Chunk zero opens (or restarts) the session; every other chunk appends
/// to the existing session; the chunk at `total_chunks - 1` finalizes it
/// and returns the assembled file content. Errors leave the registry
/// unchanged.
pub fn process(state: &mut UploadState, desc: &ChunkDescriptor) -> (r: Result<Ack, UploadError>)
    ensures
        final(state)@ == step(old(state)@, desc@).0,
        answers(r, step(old(state)@, desc@).1),
{
    let ghost reg0 = old(state)@;
    if !desc.is_well_formed() {
        return Err(UploadError::MalformedRequest);
    }
    if desc.chunk_index == 0 {
        match state.begin(&desc.file_id) {
            Err(e) => {
                return Err(e);
            },
            Ok(()) => {},
        }
        match state.append(&desc.file_id, &desc.payload) {
            Err(e) => {
                return Err(e);
            },
            Ok(()) => {},
        }
        proof {
            assert(Seq::<u8>::empty() + desc.payload@ =~= desc.payload@);
            assert(state@ =~= reg0.insert(desc.file_id@, desc.payload@));
        }
    } else {
        match state.append(&desc.file_id, &desc.payload) {
            Err(e) => {
                return Err(e);
            },
            Ok(()) => {},
        }
    }
    if desc.chunk_index == desc.total_chunks - 1 {
        match state.finalize(&desc.file_id) {
            Some(content) => {
                proof {
                    assert(state@ =~= step(reg0, desc@).0);
                }
                Ok(Ack::FileComplete { file_id: desc.file_id.clone(), content })
            },
            None => Err(UploadError::SessionNotFound),
        }
    } else {
        Ok(Ack::ChunkAccepted)
    }
}

} // verus!
