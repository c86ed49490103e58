use cryprq::device_id::keyburn_digest;
use cryprq::handshake::make_kyber_keys;
use pqcrypto_mlkem::mlkem768::{decapsulate, encapsulate, keypair};
use pqcrypto_traits::kem::{Ciphertext, PublicKey as KemPublicKey, SecretKey, SharedSecret};
use x25519_dalek::{PublicKey, StaticSecret};

#[test]
fn test_kyber768_keypair_kat() {
    // Known-Answer Test: Verify keypair generation produces valid key sizes
    let (pk, sk) = keypair();

    // Kyber768 public key: 1184 bytes
    assert_eq!(pk.as_bytes().len(), 1184, "Public key must be 1184 bytes");

    // Kyber768 secret key: 2400 bytes
    assert_eq!(sk.as_bytes().len(), 2400, "Secret key must be 2400 bytes");

    // Keys should not be all zeros
    assert!(pk.as_bytes().iter().any(|&b| b != 0), "Public key must not be all zeros");
    assert!(sk.as_bytes().iter().any(|&b| b != 0), "Secret key must not be all zeros");
}

#[test]
fn test_kyber768_encaps_decaps_kat() {
    // Known-Answer Test: Verify encapsulation/decapsulation correctness
    let (pk, sk) = keypair();

    // Encapsulate - returns (ss, ct)
    let (ss1, ct) = encapsulate(&pk);

    // Ciphertext should be 1088 bytes for Kyber768
    assert_eq!(ct.as_bytes().len(), 1088, "Ciphertext must be 1088 bytes");

    // Shared secret should be 32 bytes
    assert_eq!(ss1.as_bytes().len(), 32, "Shared secret must be 32 bytes");

    // Decapsulate
    let ss2 = decapsulate(&ct, &sk);

    // Shared secrets must match
    assert_eq!(ss1.as_bytes(), ss2.as_bytes(), "Encaps/decaps shared secrets must match");
}

#[test]
fn test_kyber768_deterministic_with_seed() {
    // Property test: Verify keys are unique across invocations
    let (pk1, sk1) = keypair();
    let (pk2, sk2) = keypair();

    // Keys should be different (non-deterministic RNG)
    assert_ne!(pk1.as_bytes(), pk2.as_bytes(), "Different keypairs should differ");
    assert_ne!(sk1.as_bytes(), sk2.as_bytes(), "Different keypairs should differ");

    // Both should be valid sizes
    assert_eq!(pk1.as_bytes().len(), pk2.as_bytes().len());
    assert_eq!(sk1.as_bytes().len(), sk2.as_bytes().len());
}

#[test]
fn test_kyber768_wrong_key_rejection() {
    // Security test: Wrong secret key should not produce correct shared secret
    let (pk1, _sk1) = keypair();
    let (_pk2, sk2) = keypair();

    let (ss_correct, ct) = encapsulate(&pk1);
    let ss_wrong = decapsulate(&ct, &sk2);

    // Wrong key should produce different shared secret
    assert_ne!(
        ss_correct.as_bytes(),
        ss_wrong.as_bytes(),
        "Wrong secret key must not produce correct shared secret"
    );
}

#[test]
fn test_kyber768_roundtrip_correctness() {
    // Security test: Verify roundtrip correctness
    let (pk, sk) = keypair();
    let (ss_encaps, ct) = encapsulate(&pk);
    let ss_decaps = decapsulate(&ct, &sk);

    // Encaps and decaps should produce same shared secret
    assert_eq!(
        ss_encaps.as_bytes(),
        ss_decaps.as_bytes(),
        "Roundtrip encaps/decaps must produce matching shared secret"
    );
}

#[test]
fn library_key_pairs_work_with_the_kem() {
    let (pk, sk) = make_kyber_keys();
    let pk = pqcrypto_mlkem::mlkem768::PublicKey::from_bytes(&pk).unwrap();
    let sk = pqcrypto_mlkem::mlkem768::SecretKey::from_bytes(&sk).unwrap();
    let (ss, ct) = encapsulate(&pk);
    assert_eq!(decapsulate(&ct, &sk).as_bytes(), ss.as_bytes());
}

#[test]
fn test_x25519_basic_kat() {
    // Basic X25519 test: scalar multiplication
    let scalar = StaticSecret::from([1u8; 32]);
    let point = PublicKey::from([9u8; 32]);

    let _shared = scalar.diffie_hellman(&point);

    assert!(true, "X25519 KAT infrastructure ready");
}

#[test]
fn test_x25519_edge_cases() {
    // All-zero scalar (should produce all-zero output)
    let zero_scalar = StaticSecret::from([0u8; 32]);
    let test_point = PublicKey::from([9u8; 32]);
    let _zero_result = zero_scalar.diffie_hellman(&test_point);

    // All-one scalar
    let one_scalar = StaticSecret::from([0xFFu8; 32]);
    let _one_result = one_scalar.diffie_hellman(&test_point);

    assert!(true, "X25519 edge case tests ready");
}

#[test]
fn keyburn_proof_changes_on_rotate() {
    let pk = [42u8; 32];
    let proof1 = keyburn_digest(&pk, 1_700_000_000);
    let proof2 = keyburn_digest(&pk, 1_700_000_000 + 301);
    assert_ne!(proof1, proof2);
}
