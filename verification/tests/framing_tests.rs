use cryprq::device_id::{keyburn_digest, AnonId};
use cryprq::error::P2PError;
use cryprq::file_transfer::FileHasher;
use cryprq::framing::{FileTransferCodec, FrameError, PacketCodec};
use cryprq::ppk::{derive_and_store_ppk, get_ppk_for_peer, PPKStore, PostQuantumPSK};
use cryprq::rotation::KeyRotation;
use sha2::{Digest, Sha256};

#[test]
fn frames_are_length_prefixed() {
    let codec = PacketCodec;
    let mut out = vec![0xEE];
    codec.write_request(&mut out, b"abc");
    codec.write_response(&mut out, b"");
    assert_eq!(out, vec![0xEE, 0, 0, 0, 3, b'a', b'b', b'c', 0, 0, 0, 0]);
    assert_eq!(codec.read_request(&out[1..]), Ok((b"abc".to_vec(), 7)));
    assert_eq!(codec.read_response(&out[8..]), Ok((Vec::new(), 4)));
    assert_eq!(codec.read_request(&out[1..7]), Err(FrameError::UnexpectedEof));
    assert_eq!(codec.read_request(&out[1..4]), Err(FrameError::UnexpectedEof));
    assert_eq!(codec.read_request(&[]), Err(FrameError::UnexpectedEof));
}

#[test]
fn frames_have_their_limits() {
    let packets = PacketCodec;
    let files = FileTransferCodec;
    let at_limit = [0u8, 0, 0xFF, 0xFF];
    let over_limit = [0u8, 1, 0, 0];
    assert_eq!(packets.read_request(&over_limit), Err(FrameError::TooLarge));
    assert_eq!(packets.read_response(&over_limit), Err(FrameError::TooLarge));
    assert_eq!(packets.read_request(&at_limit), Err(FrameError::UnexpectedEof));
    let mut frame = Vec::new();
    packets.write_request(&mut frame, &vec![7u8; 65535]);
    assert_eq!(packets.read_request(&frame), Ok((vec![7u8; 65535], 65539)));

    // Requests of a file transfer go up to 10 MiB, responses to 1024 bytes.
    assert_eq!(files.read_request(&[0, 0xA0, 0, 1]), Err(FrameError::TooLarge));
    assert_eq!(files.read_request(&[0, 0xA0, 0, 0]), Err(FrameError::UnexpectedEof));
    assert_eq!(files.read_response(&[0, 0, 4, 1]), Err(FrameError::TooLarge));
    assert_eq!(files.read_response(&[0, 0, 4, 0]), Err(FrameError::UnexpectedEof));
    let mut frame = Vec::new();
    files.write_response(&mut frame, b"OK");
    files.write_request(&mut frame, b"more");
    assert_eq!(files.read_response(&frame), Ok((b"OK".to_vec(), 6)));
    assert_eq!(files.read_request(&frame[6..]), Ok((b"more".to_vec(), 8)));
}

#[test]
fn test_get_current_pk() {
    let rotation = KeyRotation::new();
    let result = rotation.get_current_pk();
    assert!(
        matches!(result, Err(P2PError::NotInitialized)),
        "Uninitialized key store should return NotInitialized"
    );
}

#[test]
fn rotation_draws_a_key_pair_and_drops_expired_keys() {
    let mut rotation = KeyRotation::new();
    let mut store = PPKStore::new();
    store.store(PostQuantumPSK::derive(&[1; 32], &[2; 32], &[0; 16], 10, 0));
    store.store(PostQuantumPSK::derive(&[1; 32], &[3; 32], &[0; 16], 100, 0));
    assert_eq!(rotation.rotate_once(&mut store, 50), 1);
    let first = rotation.get_current_pk().unwrap().clone();
    assert_eq!(first.len(), 1184);
    assert!(store.get(&[2; 32], 0).is_none());
    assert!(store.get(&[3; 32], 50).is_some());
    assert_eq!(rotation.rotate_once(&mut store, 50), 2);
    assert_ne!(rotation.get_current_pk().unwrap(), &first);
}

#[test]
fn pre_shared_keys_are_derived_with_a_fresh_salt() {
    let mut store = PPKStore::new();
    let peer = [5u8; 32];
    derive_and_store_ppk(&mut store, &[9; 32], &peer, 300, 1_000);
    let first = get_ppk_for_peer(&store, &peer, 1_000).unwrap();
    assert_eq!(first.peer_id(), &peer);
    assert_eq!(first.expires_in_at(1_000), 300);
    derive_and_store_ppk(&mut store, &[9; 32], &peer, 300, 1_000);
    let second = get_ppk_for_peer(&store, &peer, 1_000).unwrap();
    assert_ne!(first.key(), second.key());
    assert!(get_ppk_for_peer(&store, &peer, 1_300).is_none());
    assert!(get_ppk_for_peer(&store, &[6u8; 32], 1_000).is_none());
}

#[test]
fn keyburn_digest_hashes_key_and_time() {
    let pk = [42u8; 32];
    let mut input = pk.to_vec();
    input.extend_from_slice(&0x0102_0304u32.to_le_bytes());
    assert_eq!(keyburn_digest(&pk, 0x0102_0304), *blake3::hash(&input).as_bytes());
    assert_ne!(keyburn_digest(&pk, 1), keyburn_digest(&pk, 302));
    let _ = AnonId::from_pk(&pk);
}

#[test]
fn file_hasher_hashes_the_chunks_in_order() {
    let mut hasher = FileHasher::new();
    hasher.update(b"hello ");
    hasher.update(b"");
    hasher.update(b"world");
    let expected: [u8; 32] = Sha256::digest(b"hello world").into();
    assert_eq!(hasher.finalize(), expected);
    let empty: [u8; 32] = Sha256::digest(b"").into();
    assert_eq!(FileHasher::new().finalize(), empty);
}
