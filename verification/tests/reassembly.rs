//! End-to-end tests of the registry and the reassembly engine.

use upload_reassembly::Ack;
use upload_reassembly::ChunkDescriptor;
use upload_reassembly::UploadError;
use upload_reassembly::UploadState;
use upload_reassembly::process;

fn descriptor(file_id: &str, chunk_index: usize, total_chunks: usize, payload: &[u8]) -> ChunkDescriptor {
    ChunkDescriptor {
        file_id: file_id.to_string(),
        chunk_index,
        total_chunks,
        payload: payload.to_vec(),
    }
}

#[test]
fn three_chunks_in_order() {
    let mut state = UploadState::new();
    let r0 = process(&mut state, &descriptor("x.bin", 0, 3, b"AA"));
    assert!(matches!(r0, Ok(Ack::ChunkAccepted)));
    let r1 = process(&mut state, &descriptor("x.bin", 1, 3, b"BB"));
    assert!(matches!(r1, Ok(Ack::ChunkAccepted)));
    let r2 = process(&mut state, &descriptor("x.bin", 2, 3, b"CC"));
    match r2 {
        Ok(Ack::FileComplete { file_id, content }) => {
            assert_eq!(file_id, "x.bin");
            assert_eq!(content, b"AABBCC".to_vec());
        },
        _ => panic!("expected completion"),
    }
    assert_eq!(state.session_count(), 0);
}

#[test]
fn single_chunk_file() {
    let mut state = UploadState::new();
    let r = process(&mut state, &descriptor("one.txt", 0, 1, b"Z"));
    match r {
        Ok(Ack::FileComplete { content, .. }) => assert_eq!(content, b"Z".to_vec()),
        _ => panic!("expected completion"),
    }
    assert_eq!(state.session_count(), 0);
}

#[test]
fn index_at_total_rejected() {
    let mut state = UploadState::new();
    let r = process(&mut state, &descriptor("x.bin", 2, 2, b"ZZ"));
    assert_eq!(r, Err(UploadError::MalformedRequest));
    assert_eq!(state.session_count(), 0);
    assert!(!state.contains(&"x.bin".to_string()));
}

#[test]
fn chunk_without_session_rejected() {
    let mut state = UploadState::new();
    let r = process(&mut state, &descriptor("x.bin", 1, 3, b"BB"));
    assert_eq!(r, Err(UploadError::SessionNotFound));
    assert_eq!(state.session_count(), 0);
}

#[test]
fn chunk_after_finalize_rejected() {
    let mut state = UploadState::new();
    let _ = process(&mut state, &descriptor("x.bin", 0, 2, b"AA"));
    let _ = process(&mut state, &descriptor("x.bin", 1, 2, b"BB"));
    let r = process(&mut state, &descriptor("x.bin", 1, 2, b"BB"));
    assert_eq!(r, Err(UploadError::SessionNotFound));
}

#[test]
fn chunk_zero_restarts_upload() {
    let mut state = UploadState::new();
    let _ = process(&mut state, &descriptor("x.bin", 0, 3, b"OLD"));
    let _ = process(&mut state, &descriptor("x.bin", 1, 3, b"OLD"));
    let r0 = process(&mut state, &descriptor("x.bin", 0, 2, b"NEW"));
    assert!(matches!(r0, Ok(Ack::ChunkAccepted)));
    let r1 = process(&mut state, &descriptor("x.bin", 1, 2, b"!"));
    match r1 {
        Ok(Ack::FileComplete { content, .. }) => assert_eq!(content, b"NEW!".to_vec()),
        _ => panic!("expected completion"),
    }
    assert_eq!(state.session_count(), 0);
}

#[test]
fn traversal_file_id_rejected() {
    let mut state = UploadState::new();
    let r = process(&mut state, &descriptor("../escape", 0, 2, b"AA"));
    assert_eq!(r, Err(UploadError::StorageError));
    assert_eq!(state.session_count(), 0);
    let r2 = process(&mut state, &descriptor("..", 0, 2, b"AA"));
    assert_eq!(r2, Err(UploadError::StorageError));
    let r3 = process(&mut state, &descriptor("a\\b", 0, 2, b"AA"));
    assert_eq!(r3, Err(UploadError::StorageError));
}

#[test]
fn concurrent_files_are_independent() {
    let mut state = UploadState::new();
    let _ = process(&mut state, &descriptor("a.bin", 0, 2, b"A0"));
    let _ = process(&mut state, &descriptor("b.bin", 0, 2, b"B0"));
    assert_eq!(state.session_count(), 2);
    let ra = process(&mut state, &descriptor("a.bin", 1, 2, b"A1"));
    match ra {
        Ok(Ack::FileComplete { content, .. }) => assert_eq!(content, b"A0A1".to_vec()),
        _ => panic!("expected completion"),
    }
    assert_eq!(state.session_count(), 1);
    let rb = process(&mut state, &descriptor("b.bin", 1, 2, b"B1"));
    match rb {
        Ok(Ack::FileComplete { content, .. }) => assert_eq!(content, b"B0B1".to_vec()),
        _ => panic!("expected completion"),
    }
    assert_eq!(state.session_count(), 0);
}

#[test]
fn empty_payload_chunks() {
    let mut state = UploadState::new();
    let _ = process(&mut state, &descriptor("e.bin", 0, 2, b""));
    let r = process(&mut state, &descriptor("e.bin", 1, 2, b""));
    match r {
        Ok(Ack::FileComplete { content, .. }) => assert_eq!(content, Vec::<u8>::new()),
        _ => panic!("expected completion"),
    }
}

#[test]
fn final_chunk_arrives_early() {
    // The engine finalizes on the literal arrival of the last index, even
    // when intermediate indices were never seen.
    let mut state = UploadState::new();
    let _ = process(&mut state, &descriptor("w.bin", 0, 3, b"AA"));
    let r = process(&mut state, &descriptor("w.bin", 2, 3, b"CC"));
    match r {
        Ok(Ack::FileComplete { content, .. }) => assert_eq!(content, b"AACC".to_vec()),
        _ => panic!("expected completion"),
    }
    assert_eq!(state.session_count(), 0);
}

#[test]
fn registry_operations_direct() {
    let mut state = UploadState::new();
    let id = "direct.bin".to_string();
    assert_eq!(state.append(&id, &b"x".to_vec()), Err(UploadError::SessionNotFound));
    assert!(state.finalize(&id).is_none());
    assert_eq!(state.begin(&id), Ok(()));
    assert!(state.contains(&id));
    assert_eq!(state.append(&id, &b"he".to_vec()), Ok(()));
    assert_eq!(state.append(&id, &b"llo".to_vec()), Ok(()));
    let content = state.finalize(&id).expect("session should be open");
    assert_eq!(content, b"hello".to_vec());
    assert!(!state.contains(&id));
}

#[test]
fn begin_restarts_existing_session() {
    let mut state = UploadState::new();
    let id = "r.bin".to_string();
    assert_eq!(state.begin(&id), Ok(()));
    assert_eq!(state.append(&id, &b"stale".to_vec()), Ok(()));
    assert_eq!(state.begin(&id), Ok(()));
    let content = state.finalize(&id).expect("session should be open");
    assert_eq!(content, Vec::<u8>::new());
}

#[test]
fn error_messages() {
    assert_eq!(UploadError::MalformedRequest.message(), "malformed upload request");
    assert_eq!(UploadError::SessionNotFound.message(), "no open upload session for this file");
    assert_eq!(UploadError::StorageError.message(), "invalid destination for upload");
}
