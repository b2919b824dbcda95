//! The chunk descriptor: one decoded fragment of a file under reassembly,
//! and the rules on destination file identifiers.

use vstd::prelude::*;

verus! {

/// One chunk of a file, as decoded from a single upload request.
///
/// A file of `total_chunks` fragments is delivered one fragment per
/// request; `chunk_index` is the zero-based position of this fragment and
/// `file_id` names the destination file. `total_chunks` is constant across
/// all chunks of one file.
#[derive(Debug, PartialEq, Eq)]
pub struct ChunkDescriptor {
    pub file_id: String,
    pub chunk_index: usize,
    pub total_chunks: usize,
    pub payload: Vec<u8>,
}

/// The mathematical content of a [`ChunkDescriptor`].
pub struct ChunkView {
    pub file_id: Seq<char>,
    pub chunk_index: int,
    pub total_chunks: int,
    pub payload: Seq<u8>,
}

impl View for ChunkDescriptor {
    type V = ChunkView;

    open spec fn view(&self) -> ChunkView {
        ChunkView {
            file_id: self.file_id@,
            chunk_index: self.chunk_index as int,
            total_chunks: self.total_chunks as int,
            payload: self.payload@,
        }
    }
}

impl ChunkView {
    /// A descriptor the protocol allows: a named file, a positive chunk
    /// total, and an index below the total.
    pub open spec fn wf(self) -> bool {
        &&& self.file_id.len() > 0
        &&& 0 < self.total_chunks
        &&& 0 <= self.chunk_index < self.total_chunks
    }
}

impl ChunkDescriptor {
    /// Decides whether this descriptor is one the protocol allows.
    pub fn is_well_formed(&self) -> (r: bool)
        ensures
            r == self@.wf(),
    {
        !self.file_id.as_str().is_empty() && self.total_chunks > 0
            && self.chunk_index < self.total_chunks
    }
}

/// Characters that may not appear in a destination file identifier: path
/// separators and the NUL byte, which would let the identifier escape the
/// upload directory or truncate the path.
pub open spec fn path_char_ok(c: char) -> bool {
    c != '/' && c != '\\' && c != '\0'
}

/// A destination file identifier that names a file inside the upload
/// directory: it holds no path separator or NUL, and is not the parent
/// directory `..`.
pub open spec fn path_ok(id: Seq<char>) -> bool {
    &&& forall|i: int| 0 <= i < id.len() ==> path_char_ok(#[trigger] id[i])
    &&& id != seq!['.', '.']
}

/// Decides [`path_ok`] on a file identifier.
pub fn check_path(id: &str) -> (r: bool)
    ensures
        r == path_ok(id@),
{
    let n = id.unicode_len();
    if n == 2 {
        let c0 = id.get_char(0);
        let c1 = id.get_char(1);
        if c0 == '.' && c1 == '.' {
            proof {
                assert(id@ =~= seq!['.', '.']);
            }
            return false;
        }
        assert(id@ != seq!['.', '.']);
    } else {
        assert(seq!['.', '.'].len() == 2);
        assert(id@ != seq!['.', '.']);
    }
    let mut i: usize = 0;
    while i < n
        invariant
            n == id@.len(),
            i <= n,
            forall|j: int| 0 <= j < i ==> path_char_ok(#[trigger] id@[j]),
        decreases n - i,
    {
        let c = id.get_char(i);
        if c == '/' || c == '\\' || c == '\0' {
            assert(!path_char_ok(id@[i as int]));
            return false;
        }
        i += 1;
    }
    true
}

} // verus!
