//! The record: a 20-byte header followed by AEAD output, and its codec.

use crate::aead::{chacha20poly1305_open, chacha20poly1305_seal, open, seal};
use crate::endian::{
    lemma_u32_be_bytes_roundtrip, lemma_u32_be_roundtrip, lemma_u64_be_bytes_roundtrip,
    lemma_u64_be_roundtrip, read_u32_be, read_u64_be, u32_be_bytes, u32_from_be_bytes, u32_to_be,
    u64_be_bytes, u64_from_be_bytes, u64_to_be,
};
use crate::nonce::{make_nonce, nonce_bytes};
use vstd::prelude::*;
use vstd::slice::{slice_subrange, slice_to_vec};

verus! {

/// The only protocol version.
pub const PROTOCOL_VERSION: u8 = 0x01;

/// Length in bytes of a serialized header.
pub const RECORD_HEADER_SIZE: usize = 20;

/// Message type: generic stream data.
pub const MSG_TYPE_DATA: u8 = 0x01;

/// Message type: file metadata.
pub const MSG_TYPE_FILE_META: u8 = 0x02;

/// Message type: file chunk.
pub const MSG_TYPE_FILE_CHUNK: u8 = 0x03;

/// Message type: file acknowledgment.
pub const MSG_TYPE_FILE_ACK: u8 = 0x04;

/// Message type: VPN packet.
pub const MSG_TYPE_VPN_PACKET: u8 = 0x05;

/// Message type: control message.
pub const MSG_TYPE_CONTROL: u8 = 0x10;

/// Why a record was not encoded or decoded.
#[derive(Debug, Clone, Copy, PartialEq, Eq, Structural)]
pub enum RecordError {
    /// The version byte is not `PROTOCOL_VERSION`; holds the byte found.
    InvalidProtocolVersion(u8),
    /// The bytes are too few for a header, or the ciphertext is not as long as the header says.
    InvalidRecord,
    /// The plaintext is too long for a record, or the AEAD refused it.
    EncryptFailed,
    /// AEAD authentication failed.
    DecryptFailed,
}

/// The fixed-layout header that precedes every ciphertext.
#[derive(Debug, Clone, Copy, PartialEq, Eq, Structural)]
pub struct RecordHeader {
    pub version: u8,
    pub message_type: u8,
    pub flags: u8,
    pub epoch: u8,
    pub stream_id: u32,
    pub sequence_number: u64,
    pub ciphertext_length: u32,
}

impl RecordHeader {
    /// The 20 bytes of the header on the wire; multi-byte fields are big-endian.
    pub open spec fn spec_bytes(self) -> Seq<u8> {
        seq![self.version, self.message_type, self.flags, self.epoch] + u32_be_bytes(
            self.stream_id,
        ) + u64_be_bytes(self.sequence_number) + u32_be_bytes(self.ciphertext_length)
    }

    /// The header that the first 20 bytes of `b` spell.
    pub open spec fn parse(b: Seq<u8>) -> RecordHeader
        recommends
            b.len() >= 20,
    {
        RecordHeader {
            version: b[0],
            message_type: b[1],
            flags: b[2],
            epoch: b[3],
            stream_id: u32_from_be_bytes(b.subrange(4, 8)),
            sequence_number: u64_from_be_bytes(b.subrange(8, 16)),
            ciphertext_length: u32_from_be_bytes(b.subrange(16, 20)),
        }
    }

    /// What decoding a header from `b` yields.
    pub open spec fn spec_from_bytes(b: Seq<u8>) -> Result<RecordHeader, RecordError> {
        if b.len() < 20 {
            Err(RecordError::InvalidRecord)
        } else if b[0] != PROTOCOL_VERSION {
            Err(RecordError::InvalidProtocolVersion(b[0]))
        } else {
            Ok(Self::parse(b))
        }
    }

    /// A header of the current protocol version.
    pub fn new(
        message_type: u8,
        flags: u8,
        epoch: u8,
        stream_id: u32,
        sequence_number: u64,
        ciphertext_length: u32,
    ) -> (h: Self)
        ensures
            h == (RecordHeader {
                version: PROTOCOL_VERSION,
                message_type,
                flags,
                epoch,
                stream_id,
                sequence_number,
                ciphertext_length,
            }),
    {
        Self {
            version: PROTOCOL_VERSION,
            message_type,
            flags,
            epoch,
            stream_id,
            sequence_number,
            ciphertext_length,
        }
    }

    /// Serializes the header.
    pub fn to_bytes(&self) -> (b: [u8; 20])
        ensures
            b@ == self.spec_bytes(),
    {
        let s = u32_to_be(self.stream_id);
        let q = u64_to_be(self.sequence_number);
        let c = u32_to_be(self.ciphertext_length);
        let b = [
            self.version,
            self.message_type,
            self.flags,
            self.epoch,
            s[0],
            s[1],
            s[2],
            s[3],
            q[0],
            q[1],
            q[2],
            q[3],
            q[4],
            q[5],
            q[6],
            q[7],
            c[0],
            c[1],
            c[2],
            c[3],
        ];
        assert(b@ =~= self.spec_bytes());
        b
    }

    /// Decodes a header from the first 20 bytes of `buf`.
    ///
    /// Fails with `InvalidRecord` on fewer than 20 bytes and with `InvalidProtocolVersion` on
    /// a version byte other than `PROTOCOL_VERSION`.
    pub fn from_bytes(buf: &[u8]) -> (res: Result<Self, RecordError>)
        ensures
            res == Self::spec_from_bytes(buf@),
    {
        if buf.len() < RECORD_HEADER_SIZE {
            return Err(RecordError::InvalidRecord);
        }
        let version = buf[0];
        if version != PROTOCOL_VERSION {
            return Err(RecordError::InvalidProtocolVersion(version));
        }
        Ok(
            Self {
                version,
                message_type: buf[1],
                flags: buf[2],
                epoch: buf[3],
                stream_id: read_u32_be(buf, 4),
                sequence_number: read_u64_be(buf, 8),
                ciphertext_length: read_u32_be(buf, 16),
            },
        )
    }

    /// Decodes a header from the front of `reader`, and says how many bytes it took.
    pub fn read_from(reader: &[u8]) -> (res: Result<(Self, usize), RecordError>)
        ensures
            match Self::spec_from_bytes(reader@) {
                Ok(h) => res == Ok::<(Self, usize), RecordError>((h, 20)),
                Err(e) => res == Err::<(Self, usize), RecordError>(e),
            },
    {
        match Self::from_bytes(reader) {
            Ok(h) => Ok((h, RECORD_HEADER_SIZE)),
            Err(e) => Err(e),
        }
    }

    /// Appends the serialized header to `writer`.
    pub fn write_to(&self, writer: &mut Vec<u8>)
        ensures
            final(writer)@ == old(writer)@ + self.spec_bytes(),
    {
        let b = self.to_bytes();
        writer.extend_from_slice(b.as_slice());
    }
}

/// A serialized header parses back to the header it came from.
pub proof fn lemma_header_roundtrip(h: RecordHeader)
    ensures
        h.spec_bytes().len() == 20,
        RecordHeader::parse(h.spec_bytes()) == h,
        h.version == PROTOCOL_VERSION ==> RecordHeader::spec_from_bytes(h.spec_bytes()) == Ok::<
            RecordHeader,
            RecordError,
        >(h),
{
    let b = h.spec_bytes();
    lemma_u32_be_roundtrip(h.stream_id);
    lemma_u64_be_roundtrip(h.sequence_number);
    lemma_u32_be_roundtrip(h.ciphertext_length);
    assert(b.subrange(4, 8) =~= u32_be_bytes(h.stream_id));
    assert(b.subrange(8, 16) =~= u64_be_bytes(h.sequence_number));
    assert(b.subrange(16, 20) =~= u32_be_bytes(h.ciphertext_length));
}

/// The header parsed from 20 bytes serializes to those bytes.
pub proof fn lemma_header_bytes_roundtrip(b: Seq<u8>)
    requires
        b.len() >= 20,
    ensures
        RecordHeader::parse(b).spec_bytes() == b.subrange(0, 20),
{
    lemma_u32_be_bytes_roundtrip(b.subrange(4, 8));
    lemma_u64_be_bytes_roundtrip(b.subrange(8, 16));
    lemma_u32_be_bytes_roundtrip(b.subrange(16, 20));
    assert(RecordHeader::parse(b).spec_bytes() =~= b.subrange(0, 20));
}

/// Two headers that serialize to the same bytes are the same header: the associated data of
/// a record determines every header field.
pub proof fn lemma_header_bytes_injective(h1: RecordHeader, h2: RecordHeader)
    requires
        h1.spec_bytes() == h2.spec_bytes(),
    ensures
        h1 == h2,
{
    lemma_header_roundtrip(h1);
    lemma_header_roundtrip(h2);
}


/// Two different strings of 20 bytes spell two different headers: whoever changes a bit of a
/// serialized header changes the header that is decoded, and with it the associated data
/// under which the record is opened.
pub proof fn lemma_distinct_bytes_distinct_headers(b1: Seq<u8>, b2: Seq<u8>)
    requires
        b1.len() == 20,
        b2.len() == 20,
        b1 != b2,
    ensures
        RecordHeader::parse(b1) != RecordHeader::parse(b2),
        RecordHeader::parse(b1).spec_bytes() != RecordHeader::parse(b2).spec_bytes(),
{
    lemma_header_bytes_roundtrip(b1);
    lemma_header_bytes_roundtrip(b2);
    assert(b1.subrange(0, 20) =~= b1);
    assert(b2.subrange(0, 20) =~= b2);
}

/// A complete record: the header and the AEAD output it announces.
#[derive(Debug, Clone)]
pub struct Record {
    pub header: RecordHeader,
    pub ciphertext: Vec<u8>,
}

/// The header of a record that carries `plaintext_len` bytes of plaintext.
pub open spec fn sealed_header(
    message_type: u8,
    flags: u8,
    epoch: u8,
    stream_id: u32,
    sequence_number: u64,
    plaintext_len: nat,
) -> RecordHeader {
    RecordHeader {
        version: PROTOCOL_VERSION,
        message_type,
        flags,
        epoch,
        stream_id,
        sequence_number,
        ciphertext_length: (plaintext_len + 16) as u32,
    }
}

/// The AEAD output of a record: `plaintext` sealed under `key` and the nonce of the header's
/// sequence number, with the serialized header as associated data.
pub open spec fn sealed_payload(
    header: RecordHeader,
    plaintext: Seq<u8>,
    key: Seq<u8>,
    static_iv: Seq<u8>,
) -> Seq<u8> {
    chacha20poly1305_seal(
        key,
        nonce_bytes(static_iv, header.sequence_number),
        header.spec_bytes(),
        plaintext,
    )
}

/// What opening a record's AEAD output under `key` and `static_iv` yields.
pub open spec fn opened_payload(
    header: RecordHeader,
    ciphertext: Seq<u8>,
    key: Seq<u8>,
    static_iv: Seq<u8>,
) -> Option<Seq<u8>> {
    chacha20poly1305_open(
        key,
        nonce_bytes(static_iv, header.sequence_number),
        header.spec_bytes(),
        ciphertext,
    )
}

/// What decoding a whole record from `b` yields: the header and the bytes after it, which
/// must be exactly as many as the header announces.
pub open spec fn spec_decode(b: Seq<u8>) -> Result<(RecordHeader, Seq<u8>), RecordError> {
    match RecordHeader::spec_from_bytes(b) {
        Err(e) => Err(e),
        Ok(h) => if b.len() - 20 != h.ciphertext_length {
            Err(RecordError::InvalidRecord)
        } else {
            Ok((h, b.subrange(20, b.len() as int)))
        },
    }
}

/// What reading one record from the front of `b` yields: the header, the ciphertext it
/// announces, and the number of bytes taken.
pub open spec fn spec_read(b: Seq<u8>) -> Result<(RecordHeader, Seq<u8>, nat), RecordError> {
    match RecordHeader::spec_from_bytes(b) {
        Err(e) => Err(e),
        Ok(h) => if b.len() - 20 < h.ciphertext_length {
            Err(RecordError::InvalidRecord)
        } else {
            Ok((h, b.subrange(20, 20 + h.ciphertext_length), (20 + h.ciphertext_length) as nat))
        },
    }
}

impl Record {
    /// The record on the wire: the serialized header, then the ciphertext.
    pub open spec fn spec_bytes(self) -> Seq<u8> {
        self.header.spec_bytes() + self.ciphertext@
    }

    /// A record is well formed when its header is of the current version and announces the
    /// length of its ciphertext.
    pub open spec fn wf(self) -> bool {
        &&& self.header.version == PROTOCOL_VERSION
        &&& self.header.ciphertext_length == self.ciphertext@.len()
    }

    /// A record around an AEAD output that is already at hand.
    pub fn new(
        message_type: u8,
        flags: u8,
        epoch: u8,
        stream_id: u32,
        sequence_number: u64,
        ciphertext: Vec<u8>,
    ) -> (r: Self)
        requires
            ciphertext@.len() <= u32::MAX,
        ensures
            r.wf(),
            r.ciphertext == ciphertext,
            r.header == (RecordHeader {
                version: PROTOCOL_VERSION,
                message_type,
                flags,
                epoch,
                stream_id,
                sequence_number,
                ciphertext_length: ciphertext@.len() as u32,
            }),
    {
        let header = RecordHeader::new(
            message_type,
            flags,
            epoch,
            stream_id,
            sequence_number,
            ciphertext.len() as u32,
        );
        Self { header, ciphertext }
    }

    /// Serializes the record: header, then ciphertext.
    pub fn to_bytes(&self) -> (b: Vec<u8>)
        ensures
            b@ == self.spec_bytes(),
    {
        let mut buf: Vec<u8> = Vec::new();
        let h = self.header.to_bytes();
        buf.extend_from_slice(h.as_slice());
        buf.extend_from_slice(self.ciphertext.as_slice());
        buf
    }

    /// Decodes a record that fills `buf` exactly.
    ///
    /// Fails with `InvalidProtocolVersion` on a wrong version byte, and with `InvalidRecord`
    /// where `buf` is shorter than a header or the bytes after the header are not as many as
    /// the header announces.
    pub fn from_bytes(buf: &[u8]) -> (res: Result<Self, RecordError>)
        ensures
            match spec_decode(buf@) {
                Ok((h, c)) => res is Ok && res.unwrap().header == h && res.unwrap().ciphertext@
                    == c && res.unwrap().wf(),
                Err(e) => res is Err && res->Err_0 == e,
            },
    {
        let header = match RecordHeader::from_bytes(buf) {
            Ok(h) => h,
            Err(e) => { return Err(e); },
        };
        let rest = slice_subrange(buf, RECORD_HEADER_SIZE, buf.len());
        if rest.len() != header.ciphertext_length as usize {
            return Err(RecordError::InvalidRecord);
        }
        let ciphertext = slice_to_vec(rest);
        Ok(Self { header, ciphertext })
    }

    /// Decodes one record from the front of `reader`, and says how many bytes it took.
    ///
    /// Fails with `InvalidRecord` where `reader` ends before the announced ciphertext does.
    pub fn read_from(reader: &[u8]) -> (res: Result<(Self, usize), RecordError>)
        ensures
            match spec_read(reader@) {
                Ok((h, c, n)) => res is Ok && res.unwrap().0.header == h
                    && res.unwrap().0.ciphertext@ == c && res.unwrap().1 == n
                    && res.unwrap().0.wf(),
                Err(e) => res is Err && res->Err_0 == e,
            },
    {
        let header = match RecordHeader::from_bytes(reader) {
            Ok(h) => h,
            Err(e) => { return Err(e); },
        };
        let len = header.ciphertext_length as usize;
        if reader.len() - RECORD_HEADER_SIZE < len {
            return Err(RecordError::InvalidRecord);
        }
        let end = RECORD_HEADER_SIZE + len;
        let ciphertext = slice_to_vec(slice_subrange(reader, RECORD_HEADER_SIZE, end));
        Ok((Self { header, ciphertext }, end))
    }

    /// Appends the serialized record to `writer`.
    pub fn write_to(&self, writer: &mut Vec<u8>)
        ensures
            final(writer)@ == old(writer)@ + self.spec_bytes(),
    {
        self.header.write_to(writer);
        writer.extend_from_slice(self.ciphertext.as_slice());
        assert(writer@ =~= old(writer)@ + self.spec_bytes());
    }

    /// Encrypts `plaintext` into a record.
    ///
    /// The header announces `plaintext.len() + 16` bytes; the nonce is `static_iv` with the
    /// sequence number folded in; the serialized header is the associated data. Fails with
    /// `EncryptFailed` exactly where that length does not fit the header's 32-bit field.
    pub fn encrypt(
        _version: u8,
        message_type: u8,
        flags: u8,
        epoch: u8,
        stream_id: u32,
        sequence_number: u64,
        plaintext: &[u8],
        key: &[u8; 32],
        static_iv: &[u8; 12],
    ) -> (res: Result<Self, RecordError>)
        ensures
            plaintext@.len() + 16 > u32::MAX ==> res is Err && res->Err_0
                == RecordError::EncryptFailed,
            plaintext@.len() + 16 <= u32::MAX ==> res is Ok && res.unwrap().wf()
                && res.unwrap().header == sealed_header(
                message_type,
                flags,
                epoch,
                stream_id,
                sequence_number,
                plaintext@.len(),
            ) && res.unwrap().ciphertext@ == sealed_payload(
                res.unwrap().header,
                plaintext@,
                key@,
                static_iv@,
            ),
    {
        if plaintext.len() > 0xffff_ffef {
            return Err(RecordError::EncryptFailed);
        }
        let nonce = make_nonce(*static_iv, sequence_number);
        let ciphertext_length = (plaintext.len() + 16) as u32;
        let header = RecordHeader::new(
            message_type,
            flags,
            epoch,
            stream_id,
            sequence_number,
            ciphertext_length,
        );
        let header_bytes = header.to_bytes();
        match seal(key, &nonce, header_bytes.as_slice(), plaintext) {
            Some(ciphertext) => Ok(Self { header, ciphertext }),
            None => Err(RecordError::EncryptFailed),
        }
    }

    /// Decrypts the record under `key` and `static_iv`.
    ///
    /// The nonce is rebuilt from the header's sequence number and the serialized header is the
    /// associated data, so a record opens only under the key, IV and header it was sealed
    /// with; anything else is `DecryptFailed`. A record that `encrypt` made from a plaintext
    /// under the same key and IV opens to that plaintext.
    pub fn decrypt(&self, key: &[u8; 32], static_iv: &[u8; 12]) -> (res: Result<
        Vec<u8>,
        RecordError,
    >)
        ensures
            match opened_payload(self.header, self.ciphertext@, key@, static_iv@) {
                Some(p) => res is Ok && res.unwrap()@ == p,
                None => res is Err && res->Err_0 == RecordError::DecryptFailed,
            },
            res is Ok ==> self.ciphertext@.len() >= 16 && res.unwrap()@.len()
                == self.ciphertext@.len() - 16,
            forall|m: Seq<u8>|
                m.len() + 16 <= u32::MAX && self.ciphertext@ == #[trigger] sealed_payload(
                    self.header,
                    m,
                    key@,
                    static_iv@,
                ) ==> res is Ok && res.unwrap()@ == m && seals_faithfully(
                    self.header,
                    m,
                    key@,
                    static_iv@,
                ),
    {
        let nonce = make_nonce(*static_iv, self.header.sequence_number);
        let header_bytes = self.header.to_bytes();
        match open(key, &nonce, header_bytes.as_slice(), self.ciphertext.as_slice()) {
            Some(plaintext) => Ok(plaintext),
            None => Err(RecordError::DecryptFailed),
        }
    }
}

/// Whether the cipher seals `plaintext` faithfully under a header, a key and a static IV:
/// the sealed payload is 16 bytes longer than the plaintext and opens to it. `Record::decrypt`
/// finds this of every sealed payload that it is handed.
pub open spec fn seals_faithfully(
    header: RecordHeader,
    plaintext: Seq<u8>,
    key: Seq<u8>,
    static_iv: Seq<u8>,
) -> bool {
    &&& sealed_payload(header, plaintext, key, static_iv).len() == plaintext.len() + 16
    &&& opened_payload(
        header,
        sealed_payload(header, plaintext, key, static_iv),
        key,
        static_iv,
    ) == Some(plaintext)
}

/// A header of the current version decodes from its serialization, whatever follows it.
pub proof fn lemma_header_decodes_before_payload(h: RecordHeader, c: Seq<u8>)
    requires
        h.version == PROTOCOL_VERSION,
    ensures
        RecordHeader::spec_from_bytes(h.spec_bytes() + c) == Ok::<RecordHeader, RecordError>(h),
{
    lemma_header_roundtrip(h);
    let b = h.spec_bytes() + c;
    assert(b.subrange(4, 8) =~= h.spec_bytes().subrange(4, 8));
    assert(b.subrange(8, 16) =~= h.spec_bytes().subrange(8, 16));
    assert(b.subrange(16, 20) =~= h.spec_bytes().subrange(16, 20));
    assert(RecordHeader::parse(b) == RecordHeader::parse(h.spec_bytes()));
}

/// A header of the current version, followed by as many bytes as it announces, decodes to
/// that header and those bytes.
pub proof fn lemma_encoding_decodes(h: RecordHeader, c: Seq<u8>)
    requires
        h.version == PROTOCOL_VERSION,
        h.ciphertext_length == c.len(),
    ensures
        spec_decode(h.spec_bytes() + c) == Ok::<(RecordHeader, Seq<u8>), RecordError>((h, c)),
{
    lemma_header_roundtrip(h);
    lemma_header_decodes_before_payload(h, c);
    let b = h.spec_bytes() + c;
    assert(b.subrange(20, b.len() as int) =~= c);
}

/// A well-formed record decodes from its own serialization.
pub proof fn lemma_record_roundtrip(r: Record)
    requires
        r.wf(),
    ensures
        spec_decode(r.spec_bytes()) == Ok::<(RecordHeader, Seq<u8>), RecordError>(
            (r.header, r.ciphertext@),
        ),
{
    lemma_encoding_decodes(r.header, r.ciphertext@);
}

} // verus!
