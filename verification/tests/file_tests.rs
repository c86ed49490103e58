use cryprq::file_transfer::{
    create_end_packet, is_end_packet, ChunkOutcome, DataChunk, FileMetadata, FileReceiveState,
    FileTransferError, FileTransferManager, Received, CHUNK_SIZE,
};
use sha2::{Digest, Sha256};

fn sha256(data: &[u8]) -> [u8; 32] {
    Sha256::digest(data).into()
}

#[test]
fn metadata_layout_and_round_trip() {
    let meta = FileMetadata::new("x".to_string(), 131072, [0xAB; 32]);
    let bytes = meta.serialize();
    let mut expected = vec![0, 0, 0, 0, 0, 0, 0, 1, b'x', 0, 0, 0, 0, 0, 2, 0, 0];
    expected.extend_from_slice(&[0xAB; 32]);
    assert_eq!(bytes, expected);
    let back = FileMetadata::deserialize(&bytes).unwrap();
    assert_eq!(back.filename, "x");
    assert_eq!(back.size, 131072);
    assert_eq!(back.hash, [0xAB; 32]);
}

#[test]
fn metadata_with_a_multibyte_name_round_trips() {
    let meta = FileMetadata::new("r\u{e9}sum\u{e9} \u{1F600}.txt".to_string(), u64::MAX, [1; 32]);
    let bytes = meta.serialize();
    assert_eq!(&bytes[4..8], &[0, 0, 0, 17]);
    let back = FileMetadata::deserialize(&bytes).unwrap();
    assert_eq!(back.filename, meta.filename);
    assert_eq!(back.size, u64::MAX);
    let mut trailing = bytes.clone();
    trailing.extend_from_slice(&[1, 2, 3]);
    assert_eq!(FileMetadata::deserialize(&trailing).unwrap().filename, meta.filename);
}

#[test]
fn metadata_decoding_errors() {
    let bytes = FileMetadata::new("name".to_string(), 7, [2; 32]).serialize();
    assert_eq!(bytes.len(), 4 + 4 + 4 + 8 + 32);
    for cut in [0usize, 3, 4, 7, 8, 11, 12, 19, 20, 51] {
        assert_eq!(
            FileMetadata::deserialize(&bytes[..cut]).unwrap_err(),
            FileTransferError::PacketTooShort,
            "cut at {cut}"
        );
    }
    let mut wrong_type = bytes.clone();
    wrong_type[3] = 1;
    assert_eq!(
        FileMetadata::deserialize(&wrong_type).unwrap_err(),
        FileTransferError::InvalidPacketType
    );
    assert_eq!(
        FileMetadata::deserialize(&wrong_type[..4]).unwrap_err(),
        FileTransferError::InvalidPacketType
    );
    let mut not_utf8 = bytes.clone();
    not_utf8[8] = 0xFF;
    assert_eq!(
        FileMetadata::deserialize(&not_utf8).unwrap_err(),
        FileTransferError::InvalidFilename
    );
    // The name is looked at before the fields after it are missed.
    assert_eq!(
        FileMetadata::deserialize(&not_utf8[..12]).unwrap_err(),
        FileTransferError::InvalidFilename
    );
    let mut huge_name = bytes.clone();
    huge_name[4] = 0xFF;
    assert_eq!(
        FileMetadata::deserialize(&huge_name).unwrap_err(),
        FileTransferError::PacketTooShort
    );
}

#[test]
fn data_chunk_layout_and_round_trip() {
    let chunk = DataChunk { chunk_id: 0x0102_0304, data: vec![9, 8, 7] };
    let bytes = chunk.serialize();
    assert_eq!(bytes, vec![0, 0, 0, 1, 1, 2, 3, 4, 0, 0, 0, 3, 9, 8, 7]);
    let back = DataChunk::deserialize(&bytes).unwrap();
    assert_eq!(back.chunk_id, 0x0102_0304);
    assert_eq!(back.data, vec![9, 8, 7]);
    assert_eq!(
        DataChunk::deserialize(&bytes[..14]).unwrap_err(),
        FileTransferError::PacketTooShort
    );
    assert_eq!(
        DataChunk::deserialize(&bytes[..11]).unwrap_err(),
        FileTransferError::PacketTooShort
    );
    let mut wrong_type = bytes.clone();
    wrong_type[3] = 0;
    assert_eq!(
        DataChunk::deserialize(&wrong_type).unwrap_err(),
        FileTransferError::InvalidPacketType
    );
    let empty = DataChunk { chunk_id: 0, data: Vec::new() };
    assert_eq!(DataChunk::deserialize(&empty.serialize()).unwrap().data, Vec::<u8>::new());
}

#[test]
fn end_packet_is_recognised() {
    assert_eq!(create_end_packet(), vec![0, 0, 0, 2]);
    assert!(is_end_packet(&create_end_packet()));
    assert!(is_end_packet(&[0, 0, 0, 2, 5]));
    assert!(!is_end_packet(&[0, 0, 0, 1]));
    assert!(!is_end_packet(&[0, 0, 2]));
    assert!(!is_end_packet(&[]));
}

#[test]
fn manager_hands_out_stream_ids_from_two() {
    let mut manager = FileTransferManager::new();
    assert_eq!(manager.alloc_stream_id(), 2);
    assert_eq!(manager.alloc_stream_id(), 3);
    assert_eq!(manager.alloc_stream_id(), 4);
}

#[test]
fn transfer_completes_when_the_hash_matches() {
    let content: Vec<u8> = (0..2 * CHUNK_SIZE).map(|i| (i % 253) as u8).collect();
    let mut manager = FileTransferManager::new();
    manager.start_incoming_transfer(
        2,
        FileMetadata::new("x".to_string(), content.len() as u64, sha256(&content)),
    );
    assert_eq!(manager.write_chunk(2, &content[..CHUNK_SIZE]), Ok(ChunkOutcome::Appended));
    assert_eq!(manager.write_chunk(2, &content[CHUNK_SIZE..]), Ok(ChunkOutcome::Completed));
    // What arrives after completion is no part of the file.
    assert_eq!(manager.write_chunk(2, &[1, 2, 3]), Ok(ChunkOutcome::Ignored));
}

#[test]
fn transfer_fails_when_a_byte_was_flipped() {
    let content: Vec<u8> = (0..2 * CHUNK_SIZE).map(|i| (i % 253) as u8).collect();
    let mut manager = FileTransferManager::new();
    manager.start_incoming_transfer(
        2,
        FileMetadata::new("x".to_string(), content.len() as u64, sha256(&content)),
    );
    let mut second = content[CHUNK_SIZE..].to_vec();
    second[100] ^= 0x01;
    assert_eq!(manager.write_chunk(2, &content[..CHUNK_SIZE]), Ok(ChunkOutcome::Appended));
    assert_eq!(manager.write_chunk(2, &second), Err(FileTransferError::HashMismatch));
    assert_eq!(manager.write_chunk(2, &second), Ok(ChunkOutcome::Ignored));
}

#[test]
fn transfers_are_kept_apart_by_stream() {
    let mut manager = FileTransferManager::new();
    assert_eq!(manager.write_chunk(5, b"early"), Err(FileTransferError::UnknownStream));
    manager.start_incoming_transfer(5, FileMetadata::new("a".to_string(), 4, sha256(b"abcd")));
    manager.start_incoming_transfer(6, FileMetadata::new("b".to_string(), 2, sha256(b"xy")));
    assert_eq!(manager.write_chunk(5, b"ab"), Ok(ChunkOutcome::Appended));
    assert_eq!(manager.write_chunk(6, b"xy"), Ok(ChunkOutcome::Completed));
    assert_eq!(manager.write_chunk(5, b"cd"), Ok(ChunkOutcome::Completed));
    assert_eq!(manager.write_chunk(7, b"zz"), Err(FileTransferError::UnknownStream));
    // Opening a stream again starts it over.
    manager.start_incoming_transfer(5, FileMetadata::new("a".to_string(), 4, sha256(b"abcd")));
    assert_eq!(manager.write_chunk(5, b"abcd"), Ok(ChunkOutcome::Completed));
}

#[test]
fn empty_file_and_overlong_content() {
    let mut manager = FileTransferManager::new();
    manager.start_incoming_transfer(2, FileMetadata::new("e".to_string(), 0, sha256(b"")));
    assert_eq!(manager.write_chunk(2, b""), Ok(ChunkOutcome::Completed));
    manager.start_incoming_transfer(3, FileMetadata::new("f".to_string(), 3, sha256(b"abc")));
    assert_eq!(manager.write_chunk(3, b"abcd"), Err(FileTransferError::HashMismatch));
    manager.start_incoming_transfer(4, FileMetadata::new("g".to_string(), 3, sha256(b"abcd")));
    assert_eq!(manager.write_chunk(4, b"abcd"), Ok(ChunkOutcome::Completed));
}

#[test]
fn acknowledgments_and_control_messages_are_taken() {
    let mut manager = FileTransferManager::new();
    assert!(manager.handle_ack(2, b"ack").is_ok());
    assert!(manager.handle_control(2, &create_end_packet()).is_ok());
    manager.register_outgoing(
        2,
        FileMetadata::new("out".to_string(), 65537, [0; 32]),
        "/tmp/out".to_string(),
    );
    assert_eq!(manager.alloc_stream_id(), 2);
}

#[test]
fn receiver_assembles_chunks_by_their_numbers() {
    let content: Vec<u8> = (0..CHUNK_SIZE + 10).map(|i| (i % 251) as u8).collect();
    let meta = FileMetadata::new("big.bin".to_string(), content.len() as u64, sha256(&content));
    let mut receiver = FileReceiveState::new();
    assert!(matches!(receiver.handle_packet(&meta.serialize()), Ok(Received::MetadataStored)));
    // The chunks may arrive in any order, and a chunk may arrive twice.
    let second = DataChunk { chunk_id: 1, data: content[CHUNK_SIZE..].to_vec() };
    let first = DataChunk { chunk_id: 0, data: content[..CHUNK_SIZE].to_vec() };
    let stale = DataChunk { chunk_id: 0, data: vec![0xFF; 3] };
    assert!(matches!(receiver.handle_packet(&second.serialize()), Ok(Received::ChunkStored)));
    assert_eq!(
        receiver.handle_packet(&create_end_packet()).unwrap_err(),
        FileTransferError::MissingChunk(0)
    );
    assert!(matches!(receiver.handle_packet(&stale.serialize()), Ok(Received::ChunkStored)));
    assert_eq!(
        receiver.handle_packet(&create_end_packet()).unwrap_err(),
        FileTransferError::HashMismatch
    );
    assert!(matches!(receiver.handle_packet(&first.serialize()), Ok(Received::ChunkStored)));
    match receiver.handle_packet(&create_end_packet()).unwrap() {
        Received::Complete(file) => {
            assert_eq!(file.metadata.filename, "big.bin");
            assert_eq!(file.content, content);
        }
        other => panic!("unexpected outcome {other:?}"),
    }
    // The receiver holds nothing again.
    assert_eq!(
        receiver.handle_packet(&create_end_packet()).unwrap_err(),
        FileTransferError::MissingMetadata
    );
}

#[test]
fn receiver_refuses_what_it_cannot_read() {
    let mut receiver = FileReceiveState::new();
    assert_eq!(receiver.handle_packet(&[0, 0]).unwrap_err(), FileTransferError::PacketTooShort);
    assert_eq!(
        receiver.handle_packet(&[0, 0, 0, 3]).unwrap_err(),
        FileTransferError::UnknownPacketType
    );
    assert_eq!(
        receiver.handle_packet(&[0, 0, 0, 0, 0]).unwrap_err(),
        FileTransferError::PacketTooShort
    );
    assert_eq!(
        receiver.handle_packet(&[0, 0, 0, 1, 0, 0]).unwrap_err(),
        FileTransferError::PacketTooShort
    );
    assert_eq!(
        receiver.handle_packet(&create_end_packet()).unwrap_err(),
        FileTransferError::MissingMetadata
    );
    // An empty file takes no chunk.
    let meta = FileMetadata::new("empty".to_string(), 0, sha256(b""));
    assert!(receiver.handle_packet(&meta.serialize()).is_ok());
    assert!(matches!(
        receiver.handle_packet(&create_end_packet()),
        Ok(Received::Complete(file)) if file.content.is_empty()
    ));
    // A file of one byte more than a chunk takes two.
    let meta = FileMetadata::new("two".to_string(), 65537, [0; 32]);
    assert!(receiver.handle_packet(&meta.serialize()).is_ok());
    let chunk = DataChunk { chunk_id: 0, data: vec![1] };
    assert!(receiver.handle_packet(&chunk.serialize()).is_ok());
    assert_eq!(
        receiver.handle_packet(&create_end_packet()).unwrap_err(),
        FileTransferError::MissingChunk(1)
    );
}
