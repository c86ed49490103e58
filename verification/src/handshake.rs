//! The parties of a handshake: local key material, the identity a peer presents, and the
//! check that binds a peer's KEM key to its identity.

use crate::dh::x25519_public_key;
use crate::error::TunnelError;
use crate::util::{concat3, to_array};
use crate::wipe::{zeroize_array, zeroize_vec};
use crate::kem::{is_key_pair, KEM_PUBLIC_KEY_SIZE, KEM_SECRET_KEY_SIZE};
use crate::random::random_bytes;
use crate::signature::{ed25519_public_key, ed25519_signature, ed25519_verifies};
use vstd::prelude::*;
use vstd::slice::{slice_subrange, slice_to_vec};

verus! {

/// Which side of the handshake a party is on.
#[derive(Debug, Clone, Copy, PartialEq, Eq, Structural)]
pub enum Role {
    /// The side that encapsulates to the peer's KEM key.
    Initiator,
    /// The side that decapsulates with its own KEM key.
    Responder,
}

/// A 32-byte shared secret.
pub struct SharedSecret32(pub [u8; 32]);

/// The local key material of the hybrid handshake: an X25519 secret and an ML-KEM-768 key
/// pair.
pub struct HybridHandshake {
    x25519: [u8; 32],
    kyber_pk: Vec<u8>,
    kyber_sk: Vec<u8>,
}

/// A fresh ML-KEM-768 key pair: the public key of 1184 bytes and the secret key of 2400 that
/// key generation makes of the bytes it draws.
pub fn make_kyber_keys() -> (keys: (Vec<u8>, Vec<u8>))
    ensures
        keys.0@.len() == KEM_PUBLIC_KEY_SIZE,
        keys.1@.len() == KEM_SECRET_KEY_SIZE,
        is_key_pair(keys.0@, keys.1@),
{
    crate::kem::keypair()
}

impl HybridHandshake {
    /// The X25519 secret key.
    pub closed spec fn spec_x25519_secret(&self) -> Seq<u8> {
        self.x25519@
    }

    /// The ML-KEM-768 public key.
    pub closed spec fn spec_kyber_public_key(&self) -> Seq<u8> {
        self.kyber_pk@
    }

    /// The ML-KEM-768 secret key.
    pub closed spec fn spec_kyber_secret_key(&self) -> Seq<u8> {
        self.kyber_sk@
    }

    /// The KEM keys have the lengths of ML-KEM-768.
    pub open spec fn wf(&self) -> bool {
        &&& self.spec_kyber_public_key().len() == KEM_PUBLIC_KEY_SIZE
        &&& self.spec_kyber_secret_key().len() == KEM_SECRET_KEY_SIZE
    }

    /// Draws fresh key material: an X25519 secret, and a KEM key pair that belongs together.
    pub fn new() -> (h: Self)
        ensures
            h.wf(),
            is_key_pair(h.spec_kyber_public_key(), h.spec_kyber_secret_key()),
    {
        let secret = random_bytes(32);
        let (pk, sk) = make_kyber_keys();
        Self { x25519: to_array(secret.as_slice()), kyber_pk: pk, kyber_sk: sk }
    }

    /// Key material from keys that are already at hand.
    pub fn from_keys(x25519: [u8; 32], kyber_pk: Vec<u8>, kyber_sk: Vec<u8>) -> (h: Self)
        ensures
            h.spec_x25519_secret() == x25519@,
            h.spec_kyber_public_key() == kyber_pk@,
            h.spec_kyber_secret_key() == kyber_sk@,
    {
        Self { x25519, kyber_pk, kyber_sk }
    }

    /// The X25519 secret key.
    pub fn x25519_secret(&self) -> (key: &[u8; 32])
        ensures
            key@ == self.spec_x25519_secret(),
    {
        &self.x25519
    }

    /// The X25519 public key that belongs to the secret key.
    pub fn x25519_public(&self) -> (key: [u8; 32])
        ensures
            key@ == x25519_public_key(self.spec_x25519_secret()),
    {
        crate::dh::public_key(&self.x25519)
    }

    /// The ML-KEM-768 public key.
    pub fn kyber_public_key(&self) -> (key: &Vec<u8>)
        ensures
            key@ == self.spec_kyber_public_key(),
    {
        &self.kyber_pk
    }

    /// The ML-KEM-768 secret key.
    pub fn kyber_secret_key(&self) -> (key: &Vec<u8>)
        ensures
            key@ == self.spec_kyber_secret_key(),
    {
        &self.kyber_sk
    }
}

impl Drop for HybridHandshake {
    /// Wipes the secret keys when the key material goes out of use.
    fn drop(&mut self)
        opens_invariants none
        no_unwind
    {
        zeroize_array(&mut self.x25519);
        zeroize_vec(&mut self.kyber_sk);
    }
}

impl Default for HybridHandshake {
    fn default() -> (h: Self)
        ensures
            h.wf(),
            is_key_pair(h.spec_kyber_public_key(), h.spec_kyber_secret_key()),
    {
        Self::new()
    }
}

/// What a peer presents: its long-term Ed25519 identity key, its KEM and DH public keys, and
/// its signature over the KEM public key.
#[derive(Debug, Clone)]
pub struct PeerIdentity {
    pub identity_key: [u8; 32],
    pub kem_public_key: Vec<u8>,
    pub dh_public_key: [u8; 32],
    pub signature: [u8; 64],
}

/// What a peer presents, as a mathematical value.
pub struct IdentityModel {
    pub identity_key: Seq<u8>,
    pub kem_public_key: Seq<u8>,
    pub dh_public_key: Seq<u8>,
    pub signature: Seq<u8>,
}

/// The message that presents an identity: the identity key, the DH public key, the
/// signature, and then the KEM public key to the end.
pub open spec fn identity_bytes(p: IdentityModel) -> Seq<u8> {
    p.identity_key + p.dh_public_key + p.signature + p.kem_public_key
}

/// The identity that a message of at least 128 bytes presents.
pub open spec fn parse_identity(data: Seq<u8>) -> Option<IdentityModel> {
    if data.len() < 128 {
        None
    } else {
        Some(
            IdentityModel {
                identity_key: data.subrange(0, 32),
                dh_public_key: data.subrange(32, 64),
                signature: data.subrange(64, 128),
                kem_public_key: data.subrange(128, data.len() as int),
            },
        )
    }
}

/// An identity comes back from its message as it went in.
pub proof fn lemma_identity_roundtrip(p: IdentityModel)
    requires
        p.identity_key.len() == 32,
        p.dh_public_key.len() == 32,
        p.signature.len() == 64,
    ensures
        parse_identity(identity_bytes(p)) == Some(p),
{
    let data = identity_bytes(p);
    assert(data.subrange(0, 32) =~= p.identity_key);
    assert(data.subrange(32, 64) =~= p.dh_public_key);
    assert(data.subrange(64, 128) =~= p.signature);
    assert(data.subrange(128, data.len() as int) =~= p.kem_public_key);
}

impl View for PeerIdentity {
    type V = IdentityModel;

    open spec fn view(&self) -> IdentityModel {
        IdentityModel {
            identity_key: self.identity_key@,
            kem_public_key: self.kem_public_key@,
            dh_public_key: self.dh_public_key@,
            signature: self.signature@,
        }
    }
}

impl PeerIdentity {
    /// Whether the signature verifies under the identity key over the KEM public key.
    pub open spec fn is_bound(&self) -> bool {
        ed25519_verifies(self.identity_key@, self.kem_public_key@, self.signature@)
    }

    /// Encodes the message that presents this identity.
    pub fn serialize(&self) -> (data: Vec<u8>)
        ensures
            data@ == identity_bytes(self@),
    {
        let mut data = concat3(
            self.identity_key.as_slice(),
            self.dh_public_key.as_slice(),
            self.signature.as_slice(),
        );
        data.extend_from_slice(self.kem_public_key.as_slice());
        data
    }

    /// Decodes the message that presents an identity; nothing where it has fewer than 128
    /// bytes.
    pub fn deserialize(data: &[u8]) -> (res: Option<Self>)
        ensures
            match parse_identity(data@) {
                Some(p) => res is Some && res.unwrap()@ == p,
                None => res is None,
            },
    {
        if data.len() < 128 {
            return None;
        }
        Some(
            Self {
                identity_key: to_array(slice_subrange(data, 0, 32)),
                dh_public_key: to_array(slice_subrange(data, 32, 64)),
                signature: to_array(slice_subrange(data, 64, 128)),
                kem_public_key: slice_to_vec(slice_subrange(data, 128, data.len())),
            },
        )
    }
}

/// Tag of the message by which the initiator presents its identity.
pub const TAG_INITIATOR_HELLO: u8 = 0xC1;

/// Tag of the message by which the responder presents its identity.
pub const TAG_RESPONDER_HELLO: u8 = 0xC2;

/// Tag of the message that carries the KEM ciphertext to the responder.
pub const TAG_KEM_CIPHERTEXT: u8 = 0xC3;

/// A message of the handshake.
#[derive(Debug, Clone)]
pub enum HandshakeMessage {
    /// The initiator presents its identity.
    InitiatorHello(PeerIdentity),
    /// The responder presents its identity.
    ResponderHello(PeerIdentity),
    /// The initiator hands over the KEM ciphertext.
    KemCiphertext(Vec<u8>),
}

/// A message of the handshake as a mathematical value.
pub enum MessageModel {
    InitiatorHello(IdentityModel),
    ResponderHello(IdentityModel),
    KemCiphertext(Seq<u8>),
}

impl View for HandshakeMessage {
    type V = MessageModel;

    open spec fn view(&self) -> MessageModel {
        match *self {
            HandshakeMessage::InitiatorHello(p) => MessageModel::InitiatorHello(p@),
            HandshakeMessage::ResponderHello(p) => MessageModel::ResponderHello(p@),
            HandshakeMessage::KemCiphertext(c) => MessageModel::KemCiphertext(c@),
        }
    }
}

/// A handshake message on the wire: its tag, then its body.
pub open spec fn message_bytes(m: MessageModel) -> Seq<u8> {
    match m {
        MessageModel::InitiatorHello(p) => seq![TAG_INITIATOR_HELLO] + identity_bytes(p),
        MessageModel::ResponderHello(p) => seq![TAG_RESPONDER_HELLO] + identity_bytes(p),
        MessageModel::KemCiphertext(c) => seq![TAG_KEM_CIPHERTEXT] + c,
    }
}

/// The handshake message that `data` holds, if its tag is known and its body is complete.
pub open spec fn parse_message(data: Seq<u8>) -> Option<MessageModel> {
    if data.len() == 0 {
        None
    } else {
        let body = data.subrange(1, data.len() as int);
        if data[0] == TAG_INITIATOR_HELLO {
            match parse_identity(body) {
                Some(p) => Some(MessageModel::InitiatorHello(p)),
                None => None,
            }
        } else if data[0] == TAG_RESPONDER_HELLO {
            match parse_identity(body) {
                Some(p) => Some(MessageModel::ResponderHello(p)),
                None => None,
            }
        } else if data[0] == TAG_KEM_CIPHERTEXT {
            Some(MessageModel::KemCiphertext(body))
        } else {
            None
        }
    }
}

/// A handshake message comes back from the wire as it went out.
pub proof fn lemma_message_roundtrip(m: MessageModel)
    requires
        m matches MessageModel::InitiatorHello(p) ==> p.identity_key.len() == 32
            && p.dh_public_key.len() == 32 && p.signature.len() == 64,
        m matches MessageModel::ResponderHello(p) ==> p.identity_key.len() == 32
            && p.dh_public_key.len() == 32 && p.signature.len() == 64,
    ensures
        parse_message(message_bytes(m)) == Some(m),
{
    let data = message_bytes(m);
    match m {
        MessageModel::InitiatorHello(p) => {
            lemma_identity_roundtrip(p);
            assert(data.subrange(1, data.len() as int) =~= identity_bytes(p));
        },
        MessageModel::ResponderHello(p) => {
            lemma_identity_roundtrip(p);
            assert(data.subrange(1, data.len() as int) =~= identity_bytes(p));
        },
        MessageModel::KemCiphertext(c) => {
            assert(data.subrange(1, data.len() as int) =~= c);
        },
    }
}

impl HandshakeMessage {
    /// Encodes the message.
    pub fn encode(&self) -> (data: Vec<u8>)
        ensures
            data@ == message_bytes(self@),
    {
        let mut data: Vec<u8> = Vec::new();
        match self {
            HandshakeMessage::InitiatorHello(p) => {
                data.push(TAG_INITIATOR_HELLO);
                let body = p.serialize();
                data.extend_from_slice(body.as_slice());
            },
            HandshakeMessage::ResponderHello(p) => {
                data.push(TAG_RESPONDER_HELLO);
                let body = p.serialize();
                data.extend_from_slice(body.as_slice());
            },
            HandshakeMessage::KemCiphertext(c) => {
                data.push(TAG_KEM_CIPHERTEXT);
                data.extend_from_slice(c.as_slice());
            },
        }
        assert(data@ =~= message_bytes(self@));
        data
    }

    /// Decodes a message; nothing where the tag is unknown or an identity is cut short.
    pub fn decode(data: &[u8]) -> (res: Option<Self>)
        ensures
            match parse_message(data@) {
                Some(m) => res is Some && res.unwrap()@ == m,
                None => res is None,
            },
    {
        if data.len() == 0 {
            return None;
        }
        let body = slice_subrange(data, 1, data.len());
        let tag = data[0];
        if tag == TAG_INITIATOR_HELLO {
            match PeerIdentity::deserialize(body) {
                Some(p) => Some(HandshakeMessage::InitiatorHello(p)),
                None => None,
            }
        } else if tag == TAG_RESPONDER_HELLO {
            match PeerIdentity::deserialize(body) {
                Some(p) => Some(HandshakeMessage::ResponderHello(p)),
                None => None,
            }
        } else if tag == TAG_KEM_CIPHERTEXT {
            Some(HandshakeMessage::KemCiphertext(slice_to_vec(body)))
        } else {
            None
        }
    }
}

/// Checks that `signature` is the peer's signature over `peer_pk` under its identity key.
///
/// Fails with `InvalidPeerIdentity` exactly where the signature does not verify. No key is
/// exempt from verification.
pub fn verify_peer_identity(peer_pk: &[u8], peer_identity_key: &[u8; 32], signature: &[u8; 64]) -> (res:
    Result<(), TunnelError>)
    ensures
        res is Ok <==> ed25519_verifies(peer_identity_key@, peer_pk@, signature@),
        res is Err ==> res->Err_0 == TunnelError::InvalidPeerIdentity,
{
    if crate::signature::verify(peer_identity_key, peer_pk, signature) {
        Ok(())
    } else {
        Err(TunnelError::InvalidPeerIdentity)
    }
}

/// Signs `peer_pk` under the identity key `secret_key`: the verifying key and the signature,
/// which `verify_peer_identity` accepts for `peer_pk`.
pub fn sign_handshake_auth(secret_key: &[u8; 32], peer_pk: &[u8]) -> (auth: ([u8; 32], [u8; 64]))
    ensures
        auth.0@ == ed25519_public_key(secret_key@),
        auth.1@ == ed25519_signature(secret_key@, peer_pk@),
        ed25519_verifies(auth.0@, peer_pk@, auth.1@),
{
    (crate::signature::public_key(secret_key), crate::signature::sign(secret_key, peer_pk))
}

/// Draws a fresh identity key and signs `peer_pk` under it: the secret key, the verifying
/// key and the signature, which `verify_peer_identity` accepts for `peer_pk`.
pub fn generate_handshake_auth(peer_pk: &[u8]) -> (auth: ([u8; 32], [u8; 32], [u8; 64]))
    ensures
        auth.1@ == ed25519_public_key(auth.0@),
        auth.2@ == ed25519_signature(auth.0@, peer_pk@),
        ed25519_verifies(auth.1@, peer_pk@, auth.2@),
{
    let secret = random_bytes(32);
    let secret_key: [u8; 32] = to_array(secret.as_slice());
    let (verifying_key, signature) = sign_handshake_auth(&secret_key, peer_pk);
    (secret_key, verifying_key, signature)
}

} // verus!
