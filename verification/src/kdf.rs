//! The key schedule: HKDF-SHA256 derivation of handshake keys and directional traffic keys.

use crate::util::to_array;
use crate::wipe::zeroize_array;
use hkdf::Hkdf;
use sha2::Sha256;
use vstd::prelude::*;
use vstd::string::StringSliceAdditionalSpecFns;

verus! {

/// Salt of the handshake extraction.
pub const SALT_HS: &'static str = "cryp-rq v1.0 hs";

/// Label of the handshake authentication key.
pub const LABEL_HS_AUTH: &'static str = "cryp-rq hs auth";

/// Label of the master secret.
pub const LABEL_MASTER_SECRET: &'static str = "cryp-rq master secret";

/// Label of the initiator-to-responder key.
pub const LABEL_IR_KEY: &'static str = "cryp-rq ir key";

/// Label of the initiator-to-responder IV.
pub const LABEL_IR_IV: &'static str = "cryp-rq ir iv";

/// Label of the responder-to-initiator key.
pub const LABEL_RI_KEY: &'static str = "cryp-rq ri key";

/// Label of the responder-to-initiator IV.
pub const LABEL_RI_IV: &'static str = "cryp-rq ri iv";

/// What follows a label's base in its epoch-scoped form, before the epoch byte.
pub const EPOCH_INFIX: &'static str = " epoch=";

/// The longest output that one HKDF-SHA256 expansion gives: 255 blocks of 32 bytes.
pub const MAX_EXPAND_LEN: usize = 8160;

/// The pseudorandom key that HKDF-SHA256 extracts from `ikm` under `salt`; no salt stands for
/// 32 zero bytes.
pub uninterp spec fn hkdf_sha256_extract(salt: Option<Seq<u8>>, ikm: Seq<u8>) -> Seq<u8>;

/// The `len` bytes that HKDF-SHA256 expands from the pseudorandom key `prk` under `info`.
pub uninterp spec fn hkdf_sha256_expand(prk: Seq<u8>, info: Seq<u8>, len: nat) -> Seq<u8>;

/// The salt of a call as a plain value.
pub open spec fn salt_view(salt: Option<&[u8]>) -> Option<Seq<u8>> {
    match salt {
        Some(s) => Some(s@),
        None => None,
    }
}

/// Calls `Hkdf::<Sha256>::extract`.
///
/// Trusted: the call returns the named 32-byte pseudorandom key.
#[verifier::external_body]
pub(crate) fn extract(salt: Option<&[u8]>, ikm: &[u8]) -> (prk: [u8; 32])
    ensures
        prk@ == hkdf_sha256_extract(salt_view(salt), ikm@),
{
    let (prk, _) = Hkdf::<Sha256>::extract(salt, ikm);
    prk.into()
}

/// Calls `Hkdf::<Sha256>::expand` on the key schedule that `prk` starts.
///
/// Trusted: for a length of at most 8160 the call succeeds and fills `len` bytes with the
/// named output.
#[verifier::external_body]
pub(crate) fn expand(prk: &[u8; 32], info: &[u8], len: usize) -> (okm: Vec<u8>)
    requires
        len <= MAX_EXPAND_LEN,
    ensures
        okm@ == hkdf_sha256_expand(prk@, info@, len as nat),
        okm@.len() == len,
{
    let mut okm = vec![0u8; len];
    if let Ok(hk) = Hkdf::<Sha256>::from_prk(prk) {
        let _ = hk.expand(info, &mut okm);
    }
    okm
}

/// The input keying material of the handshake: the KEM secret followed by the DH secret.
pub open spec fn handshake_ikm(ss_kem: Seq<u8>, ss_x: Seq<u8>) -> Seq<u8> {
    ss_kem + ss_x
}

/// The handshake authentication key and the master secret that belong to two shared secrets.
pub open spec fn spec_handshake_keys(ss_kem: Seq<u8>, ss_x: Seq<u8>) -> (Seq<u8>, Seq<u8>) {
    let prk = hkdf_sha256_extract(Some(SALT_HS.spec_bytes()), handshake_ikm(ss_kem, ss_x));
    (
        hkdf_sha256_expand(prk, LABEL_HS_AUTH.spec_bytes(), 32),
        hkdf_sha256_expand(prk, LABEL_MASTER_SECRET.spec_bytes(), 32),
    )
}

/// The four directional traffic secrets that belong to a master secret, without epoch scope:
/// key and IV from initiator to responder, then key and IV from responder to initiator.
pub open spec fn spec_traffic_keys(master_secret: Seq<u8>, key_len: nat, iv_len: nat) -> (
    Seq<u8>,
    Seq<u8>,
    Seq<u8>,
    Seq<u8>,
) {
    let prk = hkdf_sha256_extract(None, master_secret);
    (
        hkdf_sha256_expand(prk, LABEL_IR_KEY.spec_bytes(), key_len),
        hkdf_sha256_expand(prk, LABEL_IR_IV.spec_bytes(), iv_len),
        hkdf_sha256_expand(prk, LABEL_RI_KEY.spec_bytes(), key_len),
        hkdf_sha256_expand(prk, LABEL_RI_IV.spec_bytes(), iv_len),
    )
}

/// The epoch-scoped form of a label: the base, then `" epoch="`, then the epoch byte.
pub open spec fn epoch_label(base: Seq<u8>, epoch: u8) -> Seq<u8> {
    base + EPOCH_INFIX.spec_bytes() + seq![epoch]
}

/// The four directional traffic secrets of an epoch: key and IV from initiator to responder,
/// then key and IV from responder to initiator.
pub open spec fn spec_epoch_keys(master_secret: Seq<u8>, epoch: u8, key_len: nat, iv_len: nat) -> (
    Seq<u8>,
    Seq<u8>,
    Seq<u8>,
    Seq<u8>,
) {
    let prk = hkdf_sha256_extract(None, master_secret);
    (
        hkdf_sha256_expand(prk, epoch_label(LABEL_IR_KEY.spec_bytes(), epoch), key_len),
        hkdf_sha256_expand(prk, epoch_label(LABEL_IR_IV.spec_bytes(), epoch), iv_len),
        hkdf_sha256_expand(prk, epoch_label(LABEL_RI_KEY.spec_bytes(), epoch), key_len),
        hkdf_sha256_expand(prk, epoch_label(LABEL_RI_IV.spec_bytes(), epoch), iv_len),
    )
}

/// Labels of two different epochs differ, whatever their common base.
pub proof fn lemma_epoch_labels_distinct(base: Seq<u8>, e1: u8, e2: u8)
    requires
        e1 != e2,
    ensures
        epoch_label(base, e1) != epoch_label(base, e2),
{
    let l1 = epoch_label(base, e1);
    let l2 = epoch_label(base, e2);
    assert(l1.last() == e1);
    assert(l2.last() == e2);
}

/// The four labels of an epoch differ from one another: the two directions, and key and IV
/// within a direction, are derived under separate labels.
pub proof fn lemma_direction_labels_distinct(epoch: u8)
    ensures
        epoch_label(LABEL_IR_KEY.spec_bytes(), epoch) != epoch_label(
            LABEL_RI_KEY.spec_bytes(),
            epoch,
        ),
        epoch_label(LABEL_IR_IV.spec_bytes(), epoch) != epoch_label(LABEL_RI_IV.spec_bytes(), epoch),
        epoch_label(LABEL_IR_KEY.spec_bytes(), epoch) != epoch_label(
            LABEL_IR_IV.spec_bytes(),
            epoch,
        ),
        epoch_label(LABEL_RI_KEY.spec_bytes(), epoch) != epoch_label(
            LABEL_RI_IV.spec_bytes(),
            epoch,
        ),
        epoch_label(LABEL_IR_KEY.spec_bytes(), epoch) != epoch_label(
            LABEL_RI_IV.spec_bytes(),
            epoch,
        ),
        epoch_label(LABEL_RI_KEY.spec_bytes(), epoch) != epoch_label(
            LABEL_IR_IV.spec_bytes(),
            epoch,
        ),
{
    broadcast use vstd::string::is_ascii_spec_bytes;

    reveal_strlit("cryp-rq ir key");
    reveal_strlit("cryp-rq ir iv");
    reveal_strlit("cryp-rq ri key");
    reveal_strlit("cryp-rq ri iv");
    let ir_key = LABEL_IR_KEY.spec_bytes();
    let ir_iv = LABEL_IR_IV.spec_bytes();
    let ri_key = LABEL_RI_KEY.spec_bytes();
    let ri_iv = LABEL_RI_IV.spec_bytes();
    assert(vstd::string::is_ascii(LABEL_IR_KEY));
    assert(vstd::string::is_ascii(LABEL_IR_IV));
    assert(vstd::string::is_ascii(LABEL_RI_KEY));
    assert(vstd::string::is_ascii(LABEL_RI_IV));
    assert(ir_key.len() == 14 && ri_key.len() == 14 && ir_iv.len() == 13 && ri_iv.len() == 13);
    assert(ir_key[8] == 0x69 && ri_key[8] == 0x72 && ir_iv[8] == 0x69 && ri_iv[8] == 0x72);
    assert(epoch_label(ir_key, epoch)[8] == ir_key[8]);
    assert(epoch_label(ri_key, epoch)[8] == ri_key[8]);
    assert(epoch_label(ir_iv, epoch)[8] == ir_iv[8]);
    assert(epoch_label(ri_iv, epoch)[8] == ri_iv[8]);
    assert(epoch_label(ir_key, epoch).len() == ir_key.len() + EPOCH_INFIX.spec_bytes().len() + 1);
    assert(epoch_label(ir_iv, epoch).len() == ir_iv.len() + EPOCH_INFIX.spec_bytes().len() + 1);
    assert(epoch_label(ri_key, epoch).len() == ri_key.len() + EPOCH_INFIX.spec_bytes().len() + 1);
    assert(epoch_label(ri_iv, epoch).len() == ri_iv.len() + EPOCH_INFIX.spec_bytes().len() + 1);
}

/// Derives the handshake authentication key and the master secret from the KEM and DH
/// shared secrets, and wipes the concatenated input afterwards.
pub fn derive_handshake_keys(ss_kem: &[u8; 32], ss_x: &[u8; 32]) -> (keys: ([u8; 32], [u8; 32]))
    ensures
        (keys.0@, keys.1@) == spec_handshake_keys(ss_kem@, ss_x@),
{
    let mut ikm = [0u8; 64];
    let mut i: usize = 0;
    while i < 32
        invariant
            i <= 32,
            forall|j: int| 0 <= j < i ==> ikm@[j] == ss_kem@[j],
            forall|j: int| 0 <= j < i ==> ikm@[32 + j] == ss_x@[j],
        decreases 32 - i,
    {
        ikm[i] = ss_kem[i];
        ikm[32 + i] = ss_x[i];
        i += 1;
    }
    assert(ikm@ =~= handshake_ikm(ss_kem@, ss_x@));
    let prk = extract(Some(SALT_HS.as_bytes()), ikm.as_slice());
    let hs_auth = expand(&prk, LABEL_HS_AUTH.as_bytes(), 32);
    let master = expand(&prk, LABEL_MASTER_SECRET.as_bytes(), 32);
    zeroize_array(&mut ikm);
    (to_array(hs_auth.as_slice()), to_array(master.as_slice()))
}

/// Derives the directional traffic secrets of a master secret, without epoch scope.
pub fn derive_traffic_keys(master_secret: &[u8; 32], key_len: usize, iv_len: usize) -> (keys: (
    Vec<u8>,
    Vec<u8>,
    Vec<u8>,
    Vec<u8>,
))
    requires
        key_len <= MAX_EXPAND_LEN,
        iv_len <= MAX_EXPAND_LEN,
    ensures
        (keys.0@, keys.1@, keys.2@, keys.3@) == spec_traffic_keys(
            master_secret@,
            key_len as nat,
            iv_len as nat,
        ),
        keys.0@.len() == key_len,
        keys.1@.len() == iv_len,
        keys.2@.len() == key_len,
        keys.3@.len() == iv_len,
{
    let prk = extract(None, master_secret.as_slice());
    let key_ir = expand(&prk, LABEL_IR_KEY.as_bytes(), key_len);
    let iv_ir = expand(&prk, LABEL_IR_IV.as_bytes(), iv_len);
    let key_ri = expand(&prk, LABEL_RI_KEY.as_bytes(), key_len);
    let iv_ri = expand(&prk, LABEL_RI_IV.as_bytes(), iv_len);
    (key_ir, iv_ir, key_ri, iv_ri)
}

/// Builds the epoch-scoped form of a label.
fn build_epoch_label(base: &str, epoch: u8) -> (label: Vec<u8>)
    ensures
        label@ == epoch_label(base.spec_bytes(), epoch),
{
    let mut label: Vec<u8> = Vec::new();
    label.extend_from_slice(base.as_bytes());
    label.extend_from_slice(EPOCH_INFIX.as_bytes());
    label.push(epoch);
    assert(label@ =~= epoch_label(base.spec_bytes(), epoch));
    label
}

/// Derives the directional traffic secrets of an epoch from the master secret.
pub fn derive_epoch_keys(master_secret: &[u8; 32], epoch: u8, key_len: usize, iv_len: usize) -> (keys: (
    Vec<u8>,
    Vec<u8>,
    Vec<u8>,
    Vec<u8>,
))
    requires
        key_len <= MAX_EXPAND_LEN,
        iv_len <= MAX_EXPAND_LEN,
    ensures
        (keys.0@, keys.1@, keys.2@, keys.3@) == spec_epoch_keys(
            master_secret@,
            epoch,
            key_len as nat,
            iv_len as nat,
        ),
        keys.0@.len() == key_len,
        keys.1@.len() == iv_len,
        keys.2@.len() == key_len,
        keys.3@.len() == iv_len,
{
    let prk = extract(None, master_secret.as_slice());
    let label_ir_key = build_epoch_label(LABEL_IR_KEY, epoch);
    let label_ir_iv = build_epoch_label(LABEL_IR_IV, epoch);
    let label_ri_key = build_epoch_label(LABEL_RI_KEY, epoch);
    let label_ri_iv = build_epoch_label(LABEL_RI_IV, epoch);
    let key_ir = expand(&prk, label_ir_key.as_slice(), key_len);
    let iv_ir = expand(&prk, label_ir_iv.as_slice(), iv_len);
    let key_ri = expand(&prk, label_ri_key.as_slice(), key_len);
    let iv_ri = expand(&prk, label_ri_iv.as_slice(), iv_len);
    (key_ir, iv_ir, key_ri, iv_ri)
}

} // verus!
