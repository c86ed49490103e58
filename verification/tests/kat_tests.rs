use chacha20poly1305::aead::{Aead, KeyInit, Payload};
use chacha20poly1305::{ChaCha20Poly1305, Nonce};
use cryprq::epoch::Epoch;
use cryprq::record::{Record, RecordError, RecordHeader, MSG_TYPE_DATA, MSG_TYPE_VPN_PACKET};
use cryprq::record_layer::{recv_record, send_record, DirectionKeys};

/// One known-answer vector of the KEM.
#[derive(Debug, Clone)]
pub struct KatVector {
    pub count: usize,
    pub seed: Vec<u8>,
    pub pk: Vec<u8>,
    pub sk: Vec<u8>,
    pub ct: Vec<u8>,
    pub ss: Vec<u8>,
}

/// Loads known-answer vectors; no vector file is shipped.
pub fn load_kat_vectors(_path: &str) -> Result<Vec<KatVector>, String> {
    Ok(Vec::new())
}

#[test]
fn test_kat_loader_structure() {
    // Verify loader structure exists
    let vectors = load_kat_vectors("crypto/tests/kat_vectors/PQCkemKAT_2400.rsp").unwrap();
    assert_eq!(vectors.len(), 0, "Vectors will be loaded when official files are available");
}

#[test]
fn test_chacha20poly1305_kat_placeholder() {
    // The AEAD is held to a direct call of the cipher in
    // `record_is_the_aead_of_the_payload_under_the_header`.
    assert!(true, "RFC 8439 KAT infrastructure ready");
}

#[test]
fn test_send_recv_record_roundtrip() {
    let epoch = Epoch::initial();
    let stream_id = 1;
    let seq = 1;
    let plaintext = b"Hello, CrypRQ!";
    let keys = DirectionKeys { key: [0x42; 32], iv: [0x24; 12] };

    // Send
    let encoded = send_record(epoch, stream_id, seq, MSG_TYPE_DATA, 0, plaintext, &keys)
        .expect("send_record should not fail in test");

    // Receive
    let (header, decrypted) =
        recv_record(&encoded, &keys).expect("recv_record should not fail in test");

    assert_eq!(header.message_type, MSG_TYPE_DATA);
    assert_eq!(header.stream_id, stream_id);
    assert_eq!(header.sequence_number, seq);
    assert_eq!(decrypted, plaintext);
}

#[test]
fn record_is_the_aead_of_the_payload_under_the_header() {
    let keys = DirectionKeys { key: [0x42; 32], iv: [0x24; 12] };
    let seq = 0x0102_0304_0506_0708u64;
    let encoded =
        send_record(Epoch(3), 7, seq, MSG_TYPE_VPN_PACKET, 0, b"packet", &keys).unwrap();
    let header = RecordHeader::new(MSG_TYPE_VPN_PACKET, 0, 3, 7, seq, 6 + 16);
    assert_eq!(&encoded[..20], &header.to_bytes());

    let mut nonce = keys.iv;
    for (i, b) in seq.to_be_bytes().iter().enumerate() {
        nonce[4 + i] ^= b;
    }
    let cipher = ChaCha20Poly1305::new((&keys.key).into());
    let expected = cipher
        .encrypt(Nonce::from_slice(&nonce), Payload { msg: b"packet", aad: &header.to_bytes() })
        .unwrap();
    assert_eq!(&encoded[20..], &expected[..]);
}

#[test]
fn record_round_trip_over_payload_sizes() {
    let key = [0x07u8; 32];
    let iv = [0x09u8; 12];
    for len in [0usize, 1, 15, 16, 17, 63, 64, 65, 1400, 65515] {
        let payload: Vec<u8> = (0..len).map(|i| (i % 251) as u8).collect();
        let record =
            Record::encrypt(1, MSG_TYPE_DATA, 0x80, 200, 5, len as u64, &payload, &key, &iv)
                .unwrap();
        assert_eq!(record.header.ciphertext_length as usize, len + 16);
        assert_eq!(record.header.flags, 0x80);
        assert_eq!(record.header.epoch, 200);
        assert_eq!(record.header.stream_id, 5);
        assert_eq!(record.header.sequence_number, len as u64);
        let decoded = Record::from_bytes(&record.to_bytes()).unwrap();
        assert_eq!(decoded.decrypt(&key, &iv).unwrap(), payload);
    }
}

#[test]
fn flipping_any_header_bit_breaks_the_record() {
    let keys = DirectionKeys { key: [0x42; 32], iv: [0x24; 12] };
    let encoded =
        send_record(Epoch(0), 1, 9, MSG_TYPE_DATA, 0, &[0x01, 0x02, 0x03], &keys).unwrap();
    for bit in 0..160 {
        let mut tampered = encoded.clone();
        tampered[bit / 8] ^= 1 << (bit % 8);
        let expected = if bit / 8 == 0 {
            RecordError::InvalidProtocolVersion(tampered[0])
        } else if bit / 8 >= 16 {
            RecordError::InvalidRecord
        } else {
            RecordError::DecryptFailed
        };
        assert_eq!(recv_record(&tampered, &keys).unwrap_err(), expected, "bit {bit}");
    }
}

#[test]
fn tampered_flags_fail_decryption() {
    let keys = DirectionKeys { key: [0x42; 32], iv: [0x24; 12] };
    let mut encoded =
        send_record(Epoch(0), 1, 0, MSG_TYPE_VPN_PACKET, 0, &[0x01, 0x02, 0x03], &keys).unwrap();
    encoded[2] ^= 0x01;
    assert_eq!(recv_record(&encoded, &keys).unwrap_err(), RecordError::DecryptFailed);
}

#[test]
fn wrong_key_iv_or_ciphertext_fails_decryption() {
    let keys = DirectionKeys { key: [0x42; 32], iv: [0x24; 12] };
    let encoded = send_record(Epoch(0), 1, 0, MSG_TYPE_DATA, 0, b"secret", &keys).unwrap();
    let other_key = DirectionKeys { key: [0x43; 32], iv: [0x24; 12] };
    assert_eq!(recv_record(&encoded, &other_key).unwrap_err(), RecordError::DecryptFailed);
    let other_iv = DirectionKeys { key: [0x42; 32], iv: [0x25; 12] };
    assert_eq!(recv_record(&encoded, &other_iv).unwrap_err(), RecordError::DecryptFailed);
    let mut body = encoded.clone();
    body[20] ^= 0x80;
    assert_eq!(recv_record(&body, &keys).unwrap_err(), RecordError::DecryptFailed);
    let mut tag = encoded.clone();
    let last = tag.len() - 1;
    tag[last] ^= 0x01;
    assert_eq!(recv_record(&tag, &keys).unwrap_err(), RecordError::DecryptFailed);
}

#[test]
fn record_decoding_errors() {
    let record = Record::new(MSG_TYPE_DATA, 0, 0, 1, 42, vec![1, 2, 3, 4]);
    let bytes = record.to_bytes();
    assert_eq!(Record::from_bytes(&bytes[..23]).unwrap_err(), RecordError::InvalidRecord);
    assert_eq!(Record::from_bytes(&bytes[..10]).unwrap_err(), RecordError::InvalidRecord);
    let mut longer = bytes.clone();
    longer.push(0);
    assert_eq!(Record::from_bytes(&longer).unwrap_err(), RecordError::InvalidRecord);
    let (read, taken) = Record::read_from(&longer).unwrap();
    assert_eq!(taken, 24);
    assert_eq!(read.ciphertext, vec![1, 2, 3, 4]);
    assert_eq!(Record::read_from(&bytes[..23]).unwrap_err(), RecordError::InvalidRecord);
    let (header, taken) = RecordHeader::read_from(&bytes).unwrap();
    assert_eq!((header, taken), (record.header, 20));
    let mut out = vec![0xAA];
    record.write_to(&mut out);
    assert_eq!(&out[1..], &bytes[..]);
    let mut out = vec![0xBB];
    record.header.write_to(&mut out);
    assert_eq!(&out[1..], &bytes[..20]);
}
