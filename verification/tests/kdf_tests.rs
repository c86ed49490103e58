use cryprq::kdf::{derive_epoch_keys, derive_handshake_keys, derive_traffic_keys};
use cryprq::nonce::make_nonce;
use hkdf::Hkdf;
use sha2::Sha256;

#[test]
fn test_derive_handshake_keys() {
    let ss_kem = [0x01u8; 32];
    let ss_x = [0x02u8; 32];

    let (hs_auth_key, master_secret) = derive_handshake_keys(&ss_kem, &ss_x);

    assert_eq!(hs_auth_key.len(), 32);
    assert_eq!(master_secret.len(), 32);
    assert_ne!(hs_auth_key, master_secret);
}

#[test]
fn test_derive_traffic_keys() {
    let master_secret = [0x42u8; 32];
    let (key_ir, iv_ir, key_ri, iv_ri) = derive_traffic_keys(&master_secret, 32, 12);

    assert_eq!(key_ir.len(), 32);
    assert_eq!(iv_ir.len(), 12);
    assert_eq!(key_ri.len(), 32);
    assert_eq!(iv_ri.len(), 12);
    assert_ne!(key_ir, key_ri);
    assert_ne!(iv_ir, iv_ri);
}

#[test]
fn test_derive_epoch_keys() {
    let master_secret = [0x42u8; 32];
    let (key_ir_0, iv_ir_0, key_ri_0, iv_ri_0) = derive_epoch_keys(&master_secret, 0, 32, 12);
    let (key_ir_1, iv_ir_1, key_ri_1, iv_ri_1) = derive_epoch_keys(&master_secret, 1, 32, 12);

    // Different epochs should produce different keys
    assert_ne!(key_ir_0, key_ir_1);
    assert_ne!(iv_ir_0, iv_ir_1);
    assert_ne!(key_ri_0, key_ri_1);
    assert_ne!(iv_ri_0, iv_ri_1);
}

fn expand(salt: Option<&[u8]>, ikm: &[u8], info: &[u8], len: usize) -> Vec<u8> {
    let mut out = vec![0u8; len];
    Hkdf::<Sha256>::new(salt, ikm).expand(info, &mut out).unwrap();
    out
}

#[test]
fn handshake_keys_follow_the_labels() {
    let ss_kem = [0x11u8; 32];
    let ss_x = [0x22u8; 32];
    let mut ikm = ss_kem.to_vec();
    ikm.extend_from_slice(&ss_x);
    let (hs_auth_key, master_secret) = derive_handshake_keys(&ss_kem, &ss_x);
    let salt: &[u8] = b"cryp-rq v1.0 hs";
    assert_eq!(hs_auth_key.to_vec(), expand(Some(salt), &ikm, b"cryp-rq hs auth", 32));
    assert_eq!(master_secret.to_vec(), expand(Some(salt), &ikm, b"cryp-rq master secret", 32));
}

#[test]
fn traffic_keys_follow_the_labels() {
    let master = [0x42u8; 32];
    let (key_ir, iv_ir, key_ri, iv_ri) = derive_traffic_keys(&master, 32, 12);
    assert_eq!(key_ir, expand(None, &master, b"cryp-rq ir key", 32));
    assert_eq!(iv_ir, expand(None, &master, b"cryp-rq ir iv", 12));
    assert_eq!(key_ri, expand(None, &master, b"cryp-rq ri key", 32));
    assert_eq!(iv_ri, expand(None, &master, b"cryp-rq ri iv", 12));
}

#[test]
fn epoch_keys_follow_the_labels() {
    let master = [0x42u8; 32];
    for epoch in [0u8, 1, 0x3d, 255] {
        let (key_ir, iv_ir, key_ri, iv_ri) = derive_epoch_keys(&master, epoch, 32, 12);
        let label = |base: &[u8]| {
            let mut l = base.to_vec();
            l.extend_from_slice(b" epoch=");
            l.push(epoch);
            l
        };
        assert_eq!(key_ir, expand(None, &master, &label(b"cryp-rq ir key"), 32));
        assert_eq!(iv_ir, expand(None, &master, &label(b"cryp-rq ir iv"), 12));
        assert_eq!(key_ri, expand(None, &master, &label(b"cryp-rq ri key"), 32));
        assert_eq!(iv_ri, expand(None, &master, &label(b"cryp-rq ri iv"), 12));
    }
}

#[test]
fn epoch_keys_of_the_longest_length() {
    let master = [0x01u8; 32];
    let (key_ir, iv_ir, _, _) = derive_epoch_keys(&master, 9, 8160, 0);
    assert_eq!(key_ir.len(), 8160);
    assert!(iv_ir.is_empty());
}

#[test]
fn test_nonce_construction() {
    let static_iv = [0x01, 0x02, 0x03, 0x04, 0x05, 0x06, 0x07, 0x08, 0x09, 0x0A, 0x0B, 0x0C];
    let seq1 = 1u64;
    let seq2 = 2u64;

    let nonce1 = make_nonce(static_iv, seq1);
    let nonce2 = make_nonce(static_iv, seq2);

    // Same IV + same seq = same nonce
    let nonce1_again = make_nonce(static_iv, seq1);
    assert_eq!(&nonce1[..], &nonce1_again[..]);

    // Same IV + different seq = different nonce
    assert_ne!(&nonce1[..], &nonce2[..]);

    // First 4 bytes should be unchanged (not XORed)
    assert_eq!(&nonce1[0..4], &static_iv[0..4]);
    assert_eq!(&nonce2[0..4], &static_iv[0..4]);
}

#[test]
fn test_nonce_deterministic() {
    let static_iv = [0xFF; 12];
    let seq = 0x1234567890ABCDEFu64;

    let nonce1 = make_nonce(static_iv, seq);
    let nonce2 = make_nonce(static_iv, seq);

    assert_eq!(&nonce1[..], &nonce2[..]);
}

#[test]
fn nonce_is_iv_xor_sequence() {
    let static_iv = [0x01, 0x02, 0x03, 0x04, 0x05, 0x06, 0x07, 0x08, 0x09, 0x0A, 0x0B, 0x0C];
    assert_eq!(make_nonce(static_iv, 0), static_iv);
    assert_eq!(
        make_nonce(static_iv, 0x1122_3344_5566_7788),
        [0x01, 0x02, 0x03, 0x04, 0x14, 0x24, 0x34, 0x4c, 0x5c, 0x6c, 0x7c, 0x84]
    );
    assert_eq!(
        make_nonce([0xFF; 12], 0x1234_5678_90AB_CDEF),
        [0xFF, 0xFF, 0xFF, 0xFF, 0xED, 0xCB, 0xA9, 0x87, 0x6F, 0x54, 0x32, 0x10]
    );
}
