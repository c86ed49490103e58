//! Sending and receiving at the record boundary: one record per datagram, sealed under the
//! keys of one direction.

use crate::epoch::Epoch;
use crate::record::{
    lemma_encoding_decodes, opened_payload, sealed_header, sealed_payload, spec_decode, Record,
    RecordError, RecordHeader, PROTOCOL_VERSION,
};
use crate::wipe::{zeroize_array, zeros};
use vstd::prelude::*;

verus! {

/// Stream id of VPN traffic.
pub const VPN_STREAM_ID: u32 = 1;

/// The first stream id that is handed out; 0 is reserved and 1 carries VPN traffic.
pub const FIRST_STREAM_ID: u32 = 2;

/// The AEAD key and static IV of one direction.
#[derive(Clone, Debug)]
pub struct DirectionKeys {
    pub key: [u8; 32],
    pub iv: [u8; 12],
}

impl DirectionKeys {
    /// Whether every byte of the key and of the IV is zero.
    pub open spec fn is_wiped(self) -> bool {
        self.key@ == zeros(32) && self.iv@ == zeros(12)
    }

    /// Overwrites the key and the IV with zeros, in place.
    pub fn zeroize(&mut self)
        ensures
            final(self).is_wiped(),
    {
        zeroize_array(&mut self.key);
        zeroize_array(&mut self.iv);
    }
}

impl Drop for DirectionKeys {
    /// Wipes the key and the IV when the keys go out of use.
    fn drop(&mut self)
        opens_invariants none
        no_unwind
    {
        zeroize_array(&mut self.key);
        zeroize_array(&mut self.iv);
    }
}

/// The datagram that carries `plaintext`: the serialized header, then the sealed payload.
pub open spec fn sealed_record_bytes(
    epoch: u8,
    stream_id: u32,
    sequence_number: u64,
    message_type: u8,
    flags: u8,
    plaintext: Seq<u8>,
    key: Seq<u8>,
    static_iv: Seq<u8>,
) -> Seq<u8> {
    let h = sealed_header(
        message_type,
        flags,
        epoch,
        stream_id,
        sequence_number,
        plaintext.len(),
    );
    h.spec_bytes() + sealed_payload(h, plaintext, key, static_iv)
}

/// What receiving the datagram `buf` under a key and IV yields: the decoded header and the
/// opened payload, the decoding error, or `DecryptFailed`.
pub open spec fn spec_recv_record(buf: Seq<u8>, key: Seq<u8>, static_iv: Seq<u8>) -> Result<
    (RecordHeader, Seq<u8>),
    RecordError,
> {
    match spec_decode(buf) {
        Err(e) => Err(e),
        Ok((h, c)) => match opened_payload(h, c, key, static_iv) {
            Some(p) => Ok((h, p)),
            None => Err(RecordError::DecryptFailed),
        },
    }
}

/// Builds, encrypts and encodes one record.
///
/// Fails with `EncryptFailed` exactly where the plaintext and its tag do not fit the
/// header's 32-bit length.
pub fn send_record(
    epoch: Epoch,
    stream_id: u32,
    sequence_number: u64,
    message_type: u8,
    flags: u8,
    plaintext: &[u8],
    keys: &DirectionKeys,
) -> (res: Result<Vec<u8>, RecordError>)
    ensures
        plaintext@.len() + 16 > u32::MAX ==> res is Err && res->Err_0
            == RecordError::EncryptFailed,
        plaintext@.len() + 16 <= u32::MAX ==> res is Ok && res.unwrap()@ == sealed_record_bytes(
            epoch.0,
            stream_id,
            sequence_number,
            message_type,
            flags,
            plaintext@,
            keys.key@,
            keys.iv@,
        ) && res.unwrap()@.len() == 36 + plaintext@.len(),
{
    let record = match Record::encrypt(
        PROTOCOL_VERSION,
        message_type,
        flags,
        epoch.value(),
        stream_id,
        sequence_number,
        plaintext,
        &keys.key,
        &keys.iv,
    ) {
        Ok(r) => r,
        Err(e) => { return Err(e); },
    };
    Ok(record.to_bytes())
}

/// Decodes and decrypts one datagram.
///
/// A datagram that `send_record` made from a plaintext under the same keys yields the header
/// it was sent with and that plaintext.
pub fn recv_record(buf: &[u8], keys: &DirectionKeys) -> (res: Result<
    (RecordHeader, Vec<u8>),
    RecordError,
>)
    ensures
        match spec_recv_record(buf@, keys.key@, keys.iv@) {
            Ok((h, p)) => res is Ok && res.unwrap().0 == h && res.unwrap().1@ == p,
            Err(e) => res is Err && res->Err_0 == e,
        },
        forall|
            epoch: u8,
            stream_id: u32,
            sequence_number: u64,
            message_type: u8,
            flags: u8,
            m: Seq<u8>,
        |
            m.len() + 16 <= u32::MAX && buf@.len() == 36 + m.len() && buf@
                == #[trigger] sealed_record_bytes(
                epoch,
                stream_id,
                sequence_number,
                message_type,
                flags,
                m,
                keys.key@,
                keys.iv@,
            ) ==> res is Ok && res.unwrap().0 == sealed_header(
                message_type,
                flags,
                epoch,
                stream_id,
                sequence_number,
                m.len(),
            ) && res.unwrap().1@ == m,
{
    proof {
        assert forall|
            epoch: u8,
            stream_id: u32,
            sequence_number: u64,
            message_type: u8,
            flags: u8,
            m: Seq<u8>,
        |
            m.len() + 16 <= u32::MAX && buf@.len() == 36 + m.len() && buf@
                == #[trigger] sealed_record_bytes(
                epoch,
                stream_id,
                sequence_number,
                message_type,
                flags,
                m,
                keys.key@,
                keys.iv@,
            ) implies spec_decode(buf@) == Ok::<(RecordHeader, Seq<u8>), RecordError>(
            (
                sealed_header(message_type, flags, epoch, stream_id, sequence_number, m.len()),
                sealed_payload(
                    sealed_header(message_type, flags, epoch, stream_id, sequence_number, m.len()),
                    m,
                    keys.key@,
                    keys.iv@,
                ),
            ),
        ) by {
            let h = sealed_header(message_type, flags, epoch, stream_id, sequence_number, m.len());
            let c = sealed_payload(h, m, keys.key@, keys.iv@);
            crate::record::lemma_header_roundtrip(h);
            lemma_encoding_decodes(h, c);
        }
    }
    let record = match Record::from_bytes(buf) {
        Ok(r) => r,
        Err(e) => { return Err(e); },
    };
    match record.decrypt(&keys.key, &keys.iv) {
        Ok(plaintext) => Ok((record.header, plaintext)),
        Err(e) => Err(e),
    }
}

/// Hands out the next stream id and advances the counter, which wraps at 2^32.
pub fn alloc_stream_id(next: &mut u32) -> (id: u32)
    ensures
        id == *old(next),
        *final(next) == if *old(next) == u32::MAX {
            0u32
        } else {
            (*old(next) + 1) as u32
        },
{
    let id = *next;
    *next = id.wrapping_add(1);
    id
}

} // verus!
