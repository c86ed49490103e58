use cryprq::padding::{pad_packet, pad_to_1480, unpad, unpad_packet, PaddingConfig, OUTER_LEN};
use rand::Rng;

#[test]
fn test_pad_packet() {
    let config = PaddingConfig::default();
    let data = vec![1u8; 100];
    let padded = pad_packet(&data, &config);

    assert_eq!(padded.len(), config.target_packet_size);
    assert_eq!(&padded[..100], &data);
}

#[test]
fn test_unpad_packet() {
    let padded = vec![1u8, 2u8, 3u8, 4u8, 5u8];
    let unpadded = unpad_packet(&padded, 3);

    assert_eq!(unpadded.len(), 3);
    assert_eq!(unpadded, vec![1u8, 2u8, 3u8]);
}

#[test]
fn round_trip_random_slices() {
    let mut rng = rand::thread_rng();
    for len in 1..OUTER_LEN {
        let data: Vec<u8> = (0..len).map(|_| rng.gen_range(1..=255)).collect();
        let padded = pad_to_1480(&data);
        let unpadded = unpad(&padded).unwrap();
        assert_eq!(data, unpadded, "Failed at len={}", len);
    }
}

#[test]
fn padding_defaults() {
    let config = PaddingConfig::default();
    assert_eq!(config.min_packet_size, 64);
    assert_eq!(config.max_packet_size, 1500);
    assert_eq!(config.target_packet_size, 512);
    assert!(!config.constant_rate);
    assert_eq!(config.constant_rate_interval_ms, 100);
}

#[test]
fn pad_packet_edges() {
    let config = PaddingConfig::default();
    let at_target = vec![7u8; 512];
    assert_eq!(pad_packet(&at_target, &config), at_target);
    let at_max = vec![7u8; 1500];
    assert_eq!(pad_packet(&at_max, &config), at_max);
    let over_max = vec![9u8; 1600];
    assert_eq!(pad_packet(&over_max, &config), vec![9u8; 1500]);
    assert_eq!(pad_packet(&[], &config).len(), 512);
}

#[test]
fn unpad_packet_with_a_length_past_the_end() {
    let padded = vec![1u8, 2, 3];
    assert_eq!(unpad_packet(&padded, 4), padded);
    assert_eq!(unpad_packet(&padded, 3), padded);
    assert_eq!(unpad_packet(&padded, 0), Vec::<u8>::new());
}

#[test]
fn zero_padding_edges() {
    assert_eq!(unpad(&pad_to_1480(&[])), None);
    assert_eq!(unpad(&pad_to_1480(&[0, 1, 2])), None);
    assert_eq!(unpad(&pad_to_1480(&[1, 2, 0, 3])), Some(vec![1, 2]));
    let full = vec![5u8; OUTER_LEN];
    assert_eq!(unpad(&pad_to_1480(&full)), Some(full.clone()));
    let long = vec![5u8; OUTER_LEN + 20];
    assert_eq!(unpad(&pad_to_1480(&long)), Some(full));
    let padded = pad_to_1480(&[9, 8]);
    assert_eq!(padded.len(), 1480);
    assert_eq!(&padded[..3], &[9, 8, 0]);
}
