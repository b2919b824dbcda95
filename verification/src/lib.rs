//! Chunked-upload reassembly: the verified core of a student-records HTTP
//! service. A large file arrives as a sequence of independently delivered
//! chunks; the library decodes each chunk request, tracks per-file
//! sessions in a registry, and reassembles the original byte stream,
//! releasing the session exactly once when the final chunk arrives.
//!
//! The HTTP, filesystem and database edges live outside the library and
//! hand it plain values: the parts of a multipart body come in as
//! [`MultipartField`]s, and a finished file's bytes go back out with
//! [`Ack::FileComplete`], ready to be persisted.

use vstd::prelude::*;

mod bytes;
mod chunk;
mod decoder;
mod engine;
mod errors;
mod laws;
mod registry;
mod student;

pub use chunk::ChunkDescriptor;
pub use chunk::ChunkView;
pub use chunk::check_path;
pub use chunk::path_ok;
pub use decoder::FieldView;
pub use decoder::MultipartField;
pub use decoder::decode;
pub use decoder::decode_fields;
pub use decoder::field_views;
pub use decoder::parse_sidecar;
pub use decoder::parse_usize;
pub use engine::Ack;
pub use engine::AckView;
pub use engine::answers;
pub use engine::process;
pub use engine::step;
pub use errors::UploadError;
pub use laws::chunk_at;
pub use laws::concat_payloads;
pub use laws::lemma_chunk_zero_restarts;
pub use laws::lemma_final_chunk_releases_session;
pub use laws::lemma_in_order_round_trip;
pub use laws::lemma_index_out_of_range_rejected;
pub use laws::lemma_missing_session_rejected;
pub use laws::lemma_run_in_order_open;
pub use laws::run_in_order;
pub use registry::UploadState;
pub use student::DatabaseResponse;
pub use student::DeleteStudentParams;
pub use student::SetStudentParams;
pub use student::Student;

verus! {

/// Handles one upload request, already split into its multipart parts:
/// decodes the parts into a chunk descriptor and processes it against
/// the registry.
///
/// On a decoding failure the registry is untouched and the decoder's
/// error is returned; otherwise the registry moves exactly as
/// [`step`] specifies for the decoded chunk.
pub fn handle_upload(state: &mut UploadState, fields: &Vec<MultipartField>) -> (r: Result<
    Ack,
    UploadError,
>)
    ensures
        match decode_fields(field_views(fields@)) {
            Err(e) => r == Err::<Ack, UploadError>(e) && final(state)@ == old(state)@,
            Ok(dv) => final(state)@ == step(old(state)@, dv).0 && answers(
                r,
                step(old(state)@, dv).1,
            ),
        },
{
    let desc = match decode(fields) {
        Err(e) => {
            return Err(e);
        },
        Ok(d) => d,
    };
    process(state, &desc)
}

} // verus!
