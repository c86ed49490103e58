use cryprq::handshake::{
    generate_handshake_auth, make_kyber_keys, sign_handshake_auth, verify_peer_identity,
    HandshakeMessage, HybridHandshake, PeerIdentity,
};

fn unhex(text: &str) -> Vec<u8> {
    (0..text.len()).step_by(2).map(|i| u8::from_str_radix(&text[i..i + 2], 16).unwrap()).collect()
}

#[test]
fn test_kyber_keys_non_zero() {
    let (pk, sk) = make_kyber_keys();

    // Keys should not be all zeros
    assert!(pk.iter().any(|&b| b != 0), "Public key should not be all zeros");
    assert!(sk.iter().any(|&b| b != 0), "Secret key should not be all zeros");
}

#[test]
fn test_kyber_keys_unique() {
    let (pk1, sk1) = make_kyber_keys();
    let (pk2, sk2) = make_kyber_keys();

    // Different invocations should produce different keys
    assert_ne!(pk1, pk2, "Public keys should be unique");
    assert_ne!(sk1, sk2, "Secret keys should be unique");
}

#[test]
fn test_kyber_keys_length() {
    let (pk, sk) = make_kyber_keys();

    // Verify Kyber768 standard sizes
    assert_eq!(pk.len(), 1184, "Kyber768 public key should be 1184 bytes");
    assert_eq!(sk.len(), 2400, "Kyber768 secret key should be 2400 bytes");
}

#[test]
fn signature_binds_key_to_identity() {
    let peer_pk = [2u8; 32];
    let (_, identity, signature) = generate_handshake_auth(&peer_pk);
    assert!(verify_peer_identity(&peer_pk, &identity, &signature).is_ok());
    let other_pk = [99u8; 32];
    assert!(verify_peer_identity(&other_pk, &identity, &signature).is_err());
    assert!(verify_peer_identity(&peer_pk, &identity, &[0u8; 64]).is_err());
}

#[test]
fn signing_is_a_function_of_key_and_message() {
    let sk = [7u8; 32];
    let (vk1, sig1) = sign_handshake_auth(&sk, b"kem public key");
    let (vk2, sig2) = sign_handshake_auth(&sk, b"kem public key");
    assert_eq!(vk1, vk2);
    assert_eq!(sig1, sig2);
    assert!(verify_peer_identity(b"kem public key", &vk1, &sig1).is_ok());
}

#[test]
fn ed25519_known_answer() {
    let secret: [u8; 32] =
        unhex("9d61b19deffd5a60ba844af492ec2cc44449c5697b326919703bac031cae7f60")
            .try_into()
            .unwrap();
    let public = unhex("d75a980182b10ab7d54bfed3c964073a0ee172f3daa62325af021a68f707511a");
    let signature = unhex(
        "e5564300c360ac729086e2cc806e828a84877f1eb8e5d974d873e06522490155\
         5fb8821590a33bacc61e39701cf9b46bd25bf5f0595bbe24655141438e7a100b",
    );
    let (vk, sig) = sign_handshake_auth(&secret, b"");
    assert_eq!(vk.to_vec(), public);
    assert_eq!(sig.to_vec(), signature);
    assert!(verify_peer_identity(b"", &vk, &sig).is_ok());
    assert!(verify_peer_identity(b"x", &vk, &sig).is_err());
}

#[test]
fn x25519_known_answer() {
    let secret: [u8; 32] =
        unhex("77076d0a7318a57d3c16c17251b26645df4c2f87ebc0992ab177fba51db92c2a")
            .try_into()
            .unwrap();
    let public = unhex("8520f0098930a754748b7ddcb43ef75a0dbf3a0d26381af4eba4a98eaa9b4e6a");
    let party = HybridHandshake::from_keys(secret, Vec::new(), Vec::new());
    assert_eq!(party.x25519_public().to_vec(), public);
    assert_eq!(party.x25519_secret(), &secret);
}

#[test]
fn identity_message_round_trip() {
    let identity = PeerIdentity {
        identity_key: [1; 32],
        kem_public_key: vec![4; 1184],
        dh_public_key: [2; 32],
        signature: [3; 64],
    };
    let bytes = identity.serialize();
    assert_eq!(bytes.len(), 32 + 32 + 64 + 1184);
    assert_eq!(&bytes[..32], &[1; 32]);
    assert_eq!(&bytes[32..64], &[2; 32]);
    assert_eq!(&bytes[64..128], &[3; 64]);
    assert_eq!(&bytes[128..], &[4; 1184][..]);
    let back = PeerIdentity::deserialize(&bytes).unwrap();
    assert_eq!(back.identity_key, identity.identity_key);
    assert_eq!(back.dh_public_key, identity.dh_public_key);
    assert_eq!(back.signature, identity.signature);
    assert_eq!(back.kem_public_key, identity.kem_public_key);
    assert!(PeerIdentity::deserialize(&bytes[..127]).is_none());
    assert!(PeerIdentity::deserialize(&bytes[..128]).unwrap().kem_public_key.is_empty());
}

#[test]
fn fresh_key_material_differs() {
    let a = HybridHandshake::new();
    let b = HybridHandshake::default();
    assert_ne!(a.x25519_secret(), b.x25519_secret());
    assert_ne!(a.kyber_public_key(), b.kyber_public_key());
    assert_eq!(a.kyber_public_key().len(), 1184);
    assert_eq!(a.kyber_secret_key().len(), 2400);
}

#[test]
fn handshake_messages_round_trip() {
    let identity = PeerIdentity {
        identity_key: [1; 32],
        kem_public_key: vec![4; 10],
        dh_public_key: [2; 32],
        signature: [3; 64],
    };
    let hello = HandshakeMessage::InitiatorHello(identity.clone()).encode();
    assert_eq!(hello[0], 0xC1);
    assert_eq!(&hello[1..], &identity.serialize()[..]);
    assert!(matches!(
        HandshakeMessage::decode(&hello),
        Some(HandshakeMessage::InitiatorHello(p)) if p.kem_public_key == vec![4; 10]
    ));
    let reply = HandshakeMessage::ResponderHello(identity.clone()).encode();
    assert_eq!(reply[0], 0xC2);
    assert!(matches!(
        HandshakeMessage::decode(&reply),
        Some(HandshakeMessage::ResponderHello(p)) if p.signature == [3; 64]
    ));
    let ciphertext = HandshakeMessage::KemCiphertext(vec![9, 8, 7]).encode();
    assert_eq!(ciphertext, vec![0xC3, 9, 8, 7]);
    assert!(matches!(
        HandshakeMessage::decode(&ciphertext),
        Some(HandshakeMessage::KemCiphertext(c)) if c == vec![9, 8, 7]
    ));
    assert!(matches!(
        HandshakeMessage::decode(&[0xC3]),
        Some(HandshakeMessage::KemCiphertext(c)) if c.is_empty()
    ));
    assert!(HandshakeMessage::decode(&[]).is_none());
    assert!(HandshakeMessage::decode(&[0x01, 2, 3]).is_none());
    assert!(HandshakeMessage::decode(&hello[..100]).is_none());
}
