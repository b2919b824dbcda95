//! Tests of the chunk decoder: both metadata encodings, the number
//! parser, the path check, and the decoder's rejections.

use upload_reassembly::Ack;
use upload_reassembly::MultipartField;
use upload_reassembly::UploadError;
use upload_reassembly::UploadState;
use upload_reassembly::check_path;
use upload_reassembly::decode;
use upload_reassembly::handle_upload;
use upload_reassembly::parse_sidecar;
use upload_reassembly::parse_usize;

fn file_part(file_name: &str, data: &[u8]) -> MultipartField {
    MultipartField {
        name: "file".to_string(),
        file_name: file_name.to_string(),
        data: data.to_vec(),
    }
}

fn text_part(name: &str, text: &str) -> MultipartField {
    MultipartField {
        name: name.to_string(),
        file_name: String::new(),
        data: text.as_bytes().to_vec(),
    }
}

#[test]
fn decode_separate_fields() {
    let fields = vec![
        file_part("x.bin", b"PAYLOAD"),
        text_part("chunkIndex", "1"),
        text_part("totalChunks", "3"),
    ];
    let d = decode(&fields).expect("well-formed request");
    assert_eq!(d.file_id, "x.bin");
    assert_eq!(d.chunk_index, 1);
    assert_eq!(d.total_chunks, 3);
    assert_eq!(d.payload, b"PAYLOAD".to_vec());
}

#[test]
fn decode_sidecar_encoding() {
    let fields = vec![file_part("x.bin", b"{\"chunk\": 1, \"chunks\": 3}PAYLOAD")];
    let d = decode(&fields).expect("well-formed request");
    assert_eq!(d.file_id, "x.bin");
    assert_eq!(d.chunk_index, 1);
    assert_eq!(d.total_chunks, 3);
    assert_eq!(d.payload, b"PAYLOAD".to_vec());
}

#[test]
fn decode_sidecar_whitespace_variants() {
    let fields = vec![file_part("x.bin", b"  {  \"chunk\"\t:\t0 ,\n\"chunks\" : 2 }\x01\x02")];
    let d = decode(&fields).expect("well-formed request");
    assert_eq!(d.chunk_index, 0);
    assert_eq!(d.total_chunks, 2);
    assert_eq!(d.payload, vec![1u8, 2u8]);
}

#[test]
fn decode_last_part_wins() {
    let fields = vec![
        text_part("chunkIndex", "9"),
        text_part("totalChunks", "10"),
        file_part("old.bin", b"OLD"),
        file_part("new.bin", b"NEW"),
        text_part("chunkIndex", "0"),
        text_part("totalChunks", "1"),
    ];
    let d = decode(&fields).expect("well-formed request");
    assert_eq!(d.file_id, "new.bin");
    assert_eq!(d.chunk_index, 0);
    assert_eq!(d.total_chunks, 1);
    assert_eq!(d.payload, b"NEW".to_vec());
}

#[test]
fn decode_missing_file_part() {
    let fields = vec![text_part("chunkIndex", "0"), text_part("totalChunks", "1")];
    assert_eq!(decode(&fields), Err(UploadError::MalformedRequest));
}

#[test]
fn decode_empty_file_name() {
    let fields = vec![
        file_part("", b"DATA"),
        text_part("chunkIndex", "0"),
        text_part("totalChunks", "1"),
    ];
    assert_eq!(decode(&fields), Err(UploadError::MalformedRequest));
}

#[test]
fn decode_missing_metadata() {
    let fields = vec![file_part("x.bin", b"no sidecar here")];
    assert_eq!(decode(&fields), Err(UploadError::MalformedRequest));
}

#[test]
fn decode_non_numeric_metadata() {
    let fields = vec![
        file_part("x.bin", b"DATA"),
        text_part("chunkIndex", "zero"),
        text_part("totalChunks", "1"),
    ];
    assert_eq!(decode(&fields), Err(UploadError::MalformedRequest));
}

#[test]
fn decode_zero_total() {
    let fields = vec![
        file_part("x.bin", b"DATA"),
        text_part("chunkIndex", "0"),
        text_part("totalChunks", "0"),
    ];
    assert_eq!(decode(&fields), Err(UploadError::MalformedRequest));
}

#[test]
fn decode_index_at_total() {
    let fields = vec![
        file_part("x.bin", b"DATA"),
        text_part("chunkIndex", "2"),
        text_part("totalChunks", "2"),
    ];
    assert_eq!(decode(&fields), Err(UploadError::MalformedRequest));
}

#[test]
fn decode_overflowing_number() {
    let fields = vec![
        file_part("x.bin", b"DATA"),
        text_part("chunkIndex", "0"),
        text_part("totalChunks", "99999999999999999999999999999999"),
    ];
    assert_eq!(decode(&fields), Err(UploadError::MalformedRequest));
}

#[test]
fn decode_one_field_missing_falls_back_to_sidecar() {
    // Only one of the two metadata parts is present, so the decoder looks
    // for the sidecar object, which this body does not carry.
    let fields = vec![file_part("x.bin", b"DATA"), text_part("chunkIndex", "0")];
    assert_eq!(decode(&fields), Err(UploadError::MalformedRequest));
}

#[test]
fn parse_usize_values() {
    assert_eq!(parse_usize(&b"0".to_vec()), Some(0));
    assert_eq!(parse_usize(&b"123".to_vec()), Some(123));
    assert_eq!(parse_usize(&b"007".to_vec()), Some(7));
    assert_eq!(parse_usize(&b"".to_vec()), None);
    assert_eq!(parse_usize(&b"12a".to_vec()), None);
    assert_eq!(parse_usize(&b"-1".to_vec()), None);
    assert_eq!(parse_usize(&b" 1".to_vec()), None);
    assert_eq!(parse_usize(&b"99999999999999999999999999999999".to_vec()), None);
}

#[test]
fn parse_sidecar_values() {
    let r = parse_sidecar(&b"{\"chunk\": 4, \"chunks\": 9}rest".to_vec());
    let (chunk, chunks, payload) = r.expect("valid sidecar");
    assert_eq!(chunk, 4);
    assert_eq!(chunks, 9);
    assert_eq!(payload, b"rest".to_vec());

    assert!(parse_sidecar(&b"plain body".to_vec()).is_none());
    assert!(parse_sidecar(&b"{\"chunk\": 4 \"chunks\": 9}".to_vec()).is_none());
    assert!(parse_sidecar(&b"{\"chunks\": 9, \"chunk\": 4}x".to_vec()).is_none());
    assert!(parse_sidecar(&b"{\"chunk\": , \"chunks\": 9}".to_vec()).is_none());
    assert!(parse_sidecar(&b"{\"chunk\": 4, \"chunks\": 9".to_vec()).is_none());
}

#[test]
fn check_path_values() {
    assert!(check_path("ok.bin"));
    assert!(check_path("name with spaces"));
    assert!(check_path("..."));
    assert!(!check_path("a/b"));
    assert!(!check_path("a\\b"));
    assert!(!check_path(".."));
    assert!(!check_path("nul\0byte"));
}

#[test]
fn handle_upload_end_to_end() {
    let mut state = UploadState::new();
    let first = vec![
        file_part("f.bin", b"AB"),
        text_part("chunkIndex", "0"),
        text_part("totalChunks", "2"),
    ];
    assert!(matches!(handle_upload(&mut state, &first), Ok(Ack::ChunkAccepted)));
    let second = vec![file_part("f.bin", b"{\"chunk\": 1, \"chunks\": 2}CD")];
    match handle_upload(&mut state, &second) {
        Ok(Ack::FileComplete { content, .. }) => assert_eq!(content, b"ABCD".to_vec()),
        _ => panic!("expected completion"),
    }
    assert_eq!(state.session_count(), 0);
}

#[test]
fn handle_upload_malformed_leaves_registry_unchanged() {
    let mut state = UploadState::new();
    let first = vec![
        file_part("f.bin", b"AB"),
        text_part("chunkIndex", "0"),
        text_part("totalChunks", "3"),
    ];
    assert!(matches!(handle_upload(&mut state, &first), Ok(Ack::ChunkAccepted)));
    let bad = vec![file_part("f.bin", b"no metadata")];
    assert_eq!(handle_upload(&mut state, &bad), Err(UploadError::MalformedRequest));
    assert_eq!(state.session_count(), 1);
    assert!(state.contains(&"f.bin".to_string()));
}
