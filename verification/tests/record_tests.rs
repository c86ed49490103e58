use cryprq::record::{
    Record, RecordError, RecordHeader, MSG_TYPE_DATA, PROTOCOL_VERSION, RECORD_HEADER_SIZE,
};

#[test]
fn test_header_serialization() {
    let header = RecordHeader::new(MSG_TYPE_DATA, 0x00, 0, 1, 42, 100);

    let bytes = header.to_bytes();
    assert_eq!(bytes.len(), RECORD_HEADER_SIZE);
    assert_eq!(bytes[0], PROTOCOL_VERSION);
    assert_eq!(bytes[1], MSG_TYPE_DATA);
    assert_eq!(bytes[3], 0); // epoch

    let deserialized = RecordHeader::from_bytes(&bytes).unwrap();
    assert_eq!(header, deserialized);
}

#[test]
fn test_record_serialization() {
    let ciphertext = vec![0x01, 0x02, 0x03, 0x04];
    let record = Record::new(MSG_TYPE_DATA, 0x00, 0, 1, 42, ciphertext.clone());

    let bytes = record.to_bytes();
    assert_eq!(bytes.len(), RECORD_HEADER_SIZE + ciphertext.len());

    let deserialized = Record::from_bytes(&bytes).unwrap();
    assert_eq!(record.header, deserialized.header);
    assert_eq!(record.ciphertext, deserialized.ciphertext);
}

#[test]
fn record_test_epoch_wrapping() {
    // Test that epoch is 8-bit
    let header = RecordHeader::new(MSG_TYPE_DATA, 0, 255, 1, 0, 0);
    let bytes = header.to_bytes();
    assert_eq!(bytes[3], 255);

    let header2 = RecordHeader::new(MSG_TYPE_DATA, 0, 0, 1, 0, 0);
    let bytes2 = header2.to_bytes();
    assert_eq!(bytes2[3], 0);
}

#[test]
fn header_layout_is_big_endian() {
    let header = RecordHeader::new(0x05, 0x00, 7, 0x0102_0304, 0x1122_3344_5566_7788, 0x0a0b_0c0d);
    assert_eq!(
        header.to_bytes(),
        [
            0x01, 0x05, 0x00, 0x07, 0x01, 0x02, 0x03, 0x04, 0x11, 0x22, 0x33, 0x44, 0x55, 0x66,
            0x77, 0x88, 0x0a, 0x0b, 0x0c, 0x0d
        ]
    );
}

#[test]
fn header_rejects_wrong_version_and_short_input() {
    let mut bytes = RecordHeader::new(MSG_TYPE_DATA, 0, 0, 1, 0, 0).to_bytes();
    bytes[0] = 0x02;
    assert_eq!(
        RecordHeader::from_bytes(&bytes),
        Err(RecordError::InvalidProtocolVersion(0x02))
    );
    assert_eq!(RecordHeader::from_bytes(&bytes[..19]), Err(RecordError::InvalidRecord));
}

#[test]
fn record_encrypt_decrypt_round_trip() {
    let key = [0x42u8; 32];
    let iv = [0x24u8; 12];
    let record =
        Record::encrypt(PROTOCOL_VERSION, MSG_TYPE_DATA, 0, 3, 9, 77, b"payload", &key, &iv)
            .unwrap();
    assert_eq!(record.header.ciphertext_length, 7 + 16);
    assert_eq!(record.ciphertext.len(), 7 + 16);
    assert_ne!(&record.ciphertext[..7], b"payload");
    assert_eq!(record.decrypt(&key, &iv).unwrap(), b"payload".to_vec());
}
