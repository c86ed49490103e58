//! File transfer over records: the metadata and chunk packets, and the manager that
//! assembles incoming transfers stream by stream and checks them against their SHA-256 hash.

use crate::endian::{
    lemma_u32_be_roundtrip, lemma_u64_be_roundtrip, read_u32_be, read_u64_be, u32_be_bytes,
    u32_from_be_bytes, u32_to_be, u64_be_bytes, u64_from_be_bytes, u64_to_be,
};
use crate::hash::{
    sha256_absorbed, sha256_finish, sha256_hash, sha256_start, sha256_update, Sha256State,
};
use crate::util::{bytes_equal, to_array};
use std::collections::HashMap;
use vstd::prelude::*;
use vstd::slice::{slice_subrange, slice_to_vec};
use vstd::utf8::{decode_utf8, encode_utf8, encode_utf8_decode_utf8, encode_utf8_valid_utf8, valid_utf8};

verus! {

/// Type tag of a metadata packet.
pub const PACKET_TYPE_METADATA: u32 = 0;

/// Type tag of a data chunk packet.
pub const PACKET_TYPE_DATA: u32 = 1;

/// Type tag of an end packet.
pub const PACKET_TYPE_END: u32 = 2;

/// Bytes of file content per chunk: 64 KiB.
pub const CHUNK_SIZE: usize = 65536;

/// Why a file-transfer packet or step was refused.
#[derive(Debug, Clone, Copy, PartialEq, Eq, Structural)]
pub enum FileTransferError {
    /// The packet ends before a field that it must hold.
    PacketTooShort,
    /// The type tag is not the one of the packet that was asked for.
    InvalidPacketType,
    /// The filename is not UTF-8.
    InvalidFilename,
    /// No incoming transfer is open under the stream id.
    UnknownStream,
    /// The content received does not hash to what the metadata announced.
    HashMismatch,
    /// The end of a file arrived before its metadata.
    MissingMetadata,
    /// The end of a file arrived, and the chunk of this number did not.
    MissingChunk(u64),
    /// The type tag is none of metadata, data chunk and end.
    UnknownPacketType,
}

/// Name, size and SHA-256 hash of a file on offer.
#[derive(Debug, Clone)]
pub struct FileMetadata {
    pub filename: String,
    pub size: u64,
    pub hash: [u8; 32],
}

/// File metadata as a mathematical value.
pub struct MetadataModel {
    pub filename: Seq<char>,
    pub size: u64,
    pub hash: Seq<u8>,
}

impl View for FileMetadata {
    type V = MetadataModel;

    open spec fn view(&self) -> MetadataModel {
        MetadataModel { filename: self.filename@, size: self.size, hash: self.hash@ }
    }
}

/// The metadata packet: type tag, filename length, filename in UTF-8, file size, hash; the
/// integers big-endian.
pub open spec fn metadata_bytes(m: MetadataModel) -> Seq<u8> {
    u32_be_bytes(PACKET_TYPE_METADATA) + u32_be_bytes(encode_utf8(m.filename).len() as u32)
        + encode_utf8(m.filename) + u64_be_bytes(m.size) + m.hash
}

/// What decoding a metadata packet from `data` yields. Bytes after the hash are ignored.
pub open spec fn parse_metadata(data: Seq<u8>) -> Result<MetadataModel, FileTransferError> {
    if data.len() < 4 {
        Err(FileTransferError::PacketTooShort)
    } else if u32_from_be_bytes(data.subrange(0, 4)) != PACKET_TYPE_METADATA {
        Err(FileTransferError::InvalidPacketType)
    } else if data.len() < 8 {
        Err(FileTransferError::PacketTooShort)
    } else {
        let n = u32_from_be_bytes(data.subrange(4, 8)) as int;
        if data.len() < 8 + n {
            Err(FileTransferError::PacketTooShort)
        } else if !valid_utf8(data.subrange(8, 8 + n)) {
            Err(FileTransferError::InvalidFilename)
        } else if data.len() < 48 + n {
            Err(FileTransferError::PacketTooShort)
        } else {
            Ok(
                MetadataModel {
                    filename: decode_utf8(data.subrange(8, 8 + n)),
                    size: u64_from_be_bytes(data.subrange(8 + n, 16 + n)),
                    hash: data.subrange(16 + n, 48 + n),
                },
            )
        }
    }
}

/// Calls `String::from_utf8`.
///
/// Trusted: a string comes back exactly where the bytes are valid UTF-8, and it holds the
/// characters that they encode.
#[verifier::external_body]
fn string_from_utf8(bytes: Vec<u8>) -> (res: Option<String>)
    ensures
        res is Some <==> valid_utf8(bytes@),
        res matches Some(s) ==> s@ == decode_utf8(bytes@),
{
    String::from_utf8(bytes).ok()
}

/// A metadata packet decodes to the metadata it was made from.
pub proof fn lemma_metadata_roundtrip(m: MetadataModel)
    requires
        encode_utf8(m.filename).len() <= u32::MAX,
        m.hash.len() == 32,
    ensures
        parse_metadata(metadata_bytes(m)) == Ok::<MetadataModel, FileTransferError>(m),
{
    let name = encode_utf8(m.filename);
    let n = name.len() as int;
    let data = metadata_bytes(m);
    lemma_u32_be_roundtrip(PACKET_TYPE_METADATA);
    lemma_u32_be_roundtrip(n as u32);
    lemma_u64_be_roundtrip(m.size);
    encode_utf8_valid_utf8(m.filename);
    encode_utf8_decode_utf8(m.filename);
    assert(data.subrange(0, 4) =~= u32_be_bytes(PACKET_TYPE_METADATA));
    assert(data.subrange(4, 8) =~= u32_be_bytes(n as u32));
    assert(data.subrange(8, 8 + n) =~= name);
    assert(data.subrange(8 + n, 16 + n) =~= u64_be_bytes(m.size));
    assert(data.subrange(16 + n, 48 + n) =~= m.hash);
}

impl FileMetadata {
    /// Metadata of a file.
    pub fn new(filename: String, size: u64, hash: [u8; 32]) -> (m: Self)
        ensures
            m.filename == filename,
            m.size == size,
            m.hash == hash,
    {
        Self { filename, size, hash }
    }

    /// Encodes the metadata packet.
    pub fn serialize(&self) -> (buf: Vec<u8>)
        requires
            encode_utf8(self.filename@).len() <= u32::MAX,
        ensures
            buf@ == metadata_bytes(self@),
    {
        let mut buf: Vec<u8> = Vec::new();
        let tag = u32_to_be(PACKET_TYPE_METADATA);
        buf.extend_from_slice(tag.as_slice());
        let filename_bytes = self.filename.as_str().as_bytes();
        let len = u32_to_be(filename_bytes.len() as u32);
        buf.extend_from_slice(len.as_slice());
        buf.extend_from_slice(filename_bytes);
        let size = u64_to_be(self.size);
        buf.extend_from_slice(size.as_slice());
        buf.extend_from_slice(self.hash.as_slice());
        assert(buf@ =~= metadata_bytes(self@));
        buf
    }

    /// Decodes a metadata packet.
    ///
    /// Fails with `PacketTooShort` where `data` ends before a field, with
    /// `InvalidPacketType` on a type tag other than 0, and with `InvalidFilename` where the
    /// filename is not UTF-8.
    pub fn deserialize(data: &[u8]) -> (res: Result<Self, FileTransferError>)
        ensures
            match parse_metadata(data@) {
                Ok(m) => res is Ok && res.unwrap()@ == m,
                Err(e) => res is Err && res->Err_0 == e,
            },
    {
        if data.len() < 4 {
            return Err(FileTransferError::PacketTooShort);
        }
        let packet_type = read_u32_be(data, 0);
        if packet_type != PACKET_TYPE_METADATA {
            return Err(FileTransferError::InvalidPacketType);
        }
        if data.len() < 8 {
            return Err(FileTransferError::PacketTooShort);
        }
        let filename_len = read_u32_be(data, 4) as usize;
        if data.len() - 8 < filename_len {
            return Err(FileTransferError::PacketTooShort);
        }
        let name_end = 8 + filename_len;
        let name_bytes = slice_to_vec(slice_subrange(data, 8, name_end));
        let filename = match string_from_utf8(name_bytes) {
            Some(s) => s,
            None => { return Err(FileTransferError::InvalidFilename); },
        };
        if data.len() - name_end < 40 {
            return Err(FileTransferError::PacketTooShort);
        }
        let size = read_u64_be(data, name_end);
        let hash: [u8; 32] = to_array(slice_subrange(data, name_end + 8, name_end + 40));
        Ok(Self { filename, size, hash })
    }
}

/// One chunk of file content with its number.
#[derive(Debug, Clone)]
pub struct DataChunk {
    pub chunk_id: u32,
    pub data: Vec<u8>,
}

/// The data chunk packet: type tag, chunk number, data length, data; the integers big-endian.
pub open spec fn chunk_bytes(chunk_id: u32, data: Seq<u8>) -> Seq<u8> {
    u32_be_bytes(PACKET_TYPE_DATA) + u32_be_bytes(chunk_id) + u32_be_bytes(data.len() as u32)
        + data
}

/// What decoding a data chunk packet from `data` yields: the chunk number and the chunk's
/// bytes. Bytes after the announced length are ignored.
pub open spec fn parse_chunk(data: Seq<u8>) -> Result<(u32, Seq<u8>), FileTransferError> {
    if data.len() < 12 {
        Err(FileTransferError::PacketTooShort)
    } else if u32_from_be_bytes(data.subrange(0, 4)) != PACKET_TYPE_DATA {
        Err(FileTransferError::InvalidPacketType)
    } else {
        let n = u32_from_be_bytes(data.subrange(8, 12)) as int;
        if data.len() < 12 + n {
            Err(FileTransferError::PacketTooShort)
        } else {
            Ok((u32_from_be_bytes(data.subrange(4, 8)), data.subrange(12, 12 + n)))
        }
    }
}

/// A data chunk packet decodes to the chunk it was made from.
pub proof fn lemma_chunk_roundtrip(chunk_id: u32, data: Seq<u8>)
    requires
        data.len() <= u32::MAX,
    ensures
        parse_chunk(chunk_bytes(chunk_id, data)) == Ok::<(u32, Seq<u8>), FileTransferError>(
            (chunk_id, data),
        ),
{
    let n = data.len() as int;
    let b = chunk_bytes(chunk_id, data);
    lemma_u32_be_roundtrip(PACKET_TYPE_DATA);
    lemma_u32_be_roundtrip(chunk_id);
    lemma_u32_be_roundtrip(n as u32);
    assert(b.subrange(0, 4) =~= u32_be_bytes(PACKET_TYPE_DATA));
    assert(b.subrange(4, 8) =~= u32_be_bytes(chunk_id));
    assert(b.subrange(8, 12) =~= u32_be_bytes(n as u32));
    assert(b.subrange(12, 12 + n) =~= data);
}

impl DataChunk {
    /// Encodes the data chunk packet.
    pub fn serialize(&self) -> (buf: Vec<u8>)
        requires
            self.data@.len() <= u32::MAX,
        ensures
            buf@ == chunk_bytes(self.chunk_id, self.data@),
    {
        let mut buf: Vec<u8> = Vec::new();
        let tag = u32_to_be(PACKET_TYPE_DATA);
        buf.extend_from_slice(tag.as_slice());
        let id = u32_to_be(self.chunk_id);
        buf.extend_from_slice(id.as_slice());
        let len = u32_to_be(self.data.len() as u32);
        buf.extend_from_slice(len.as_slice());
        buf.extend_from_slice(self.data.as_slice());
        assert(buf@ =~= chunk_bytes(self.chunk_id, self.data@));
        buf
    }

    /// Decodes a data chunk packet.
    ///
    /// Fails with `PacketTooShort` on fewer than 12 bytes or fewer data bytes than announced,
    /// and with `InvalidPacketType` on a type tag other than 1.
    pub fn deserialize(data: &[u8]) -> (res: Result<Self, FileTransferError>)
        ensures
            match parse_chunk(data@) {
                Ok((id, bytes)) => res is Ok && res.unwrap().chunk_id == id
                    && res.unwrap().data@ == bytes,
                Err(e) => res is Err && res->Err_0 == e,
            },
    {
        if data.len() < 12 {
            return Err(FileTransferError::PacketTooShort);
        }
        let packet_type = read_u32_be(data, 0);
        if packet_type != PACKET_TYPE_DATA {
            return Err(FileTransferError::InvalidPacketType);
        }
        let chunk_id = read_u32_be(data, 4);
        let data_len = read_u32_be(data, 8) as usize;
        if data.len() - 12 < data_len {
            return Err(FileTransferError::PacketTooShort);
        }
        let chunk_data = slice_to_vec(slice_subrange(data, 12, 12 + data_len));
        Ok(Self { chunk_id, data: chunk_data })
    }
}

/// The end packet: the type tag alone.
pub fn create_end_packet() -> (packet: Vec<u8>)
    ensures
        packet@ == u32_be_bytes(PACKET_TYPE_END),
{
    let tag = u32_to_be(PACKET_TYPE_END);
    slice_to_vec(tag.as_slice())
}

/// Whether `data` starts with the type tag of an end packet.
pub fn is_end_packet(data: &[u8]) -> (end: bool)
    ensures
        end == (data@.len() >= 4 && u32_from_be_bytes(data@.subrange(0, 4)) == PACKET_TYPE_END),
{
    data.len() >= 4 && read_u32_be(data, 0) == PACKET_TYPE_END
}

/// The end packet is recognised as one.
pub proof fn lemma_end_packet_recognised()
    ensures
        u32_be_bytes(PACKET_TYPE_END).len() == 4,
        u32_from_be_bytes(u32_be_bytes(PACKET_TYPE_END).subrange(0, 4)) == PACKET_TYPE_END,
{
    lemma_u32_be_roundtrip(PACKET_TYPE_END);
    assert(u32_be_bytes(PACKET_TYPE_END).subrange(0, 4) =~= u32_be_bytes(PACKET_TYPE_END));
}


/// Hashes the content of a file as it is read, chunk by chunk.
pub struct FileHasher {
    state: Sha256State,
}

impl FileHasher {
    /// The content taken in so far.
    pub closed spec fn content(&self) -> Seq<u8> {
        sha256_absorbed(self.state)
    }

    /// A hasher that has taken in nothing.
    pub fn new() -> (h: Self)
        ensures
            h.content() == Seq::<u8>::empty(),
    {
        Self { state: sha256_start() }
    }

    /// Takes in the next chunk of content.
    pub fn update(&mut self, chunk: &[u8])
        ensures
            final(self).content() == old(self).content() + chunk@,
    {
        sha256_update(&mut self.state, chunk);
    }

    /// The SHA-256 hash of all the content taken in.
    pub fn finalize(self) -> (hash: [u8; 32])
        ensures
            hash@ == sha256_hash(self.content()),
    {
        sha256_finish(self.state)
    }
}

/// What a chunk did to the transfer it belongs to.
#[derive(Debug, Clone, Copy, PartialEq, Eq, Structural)]
pub enum ChunkOutcome {
    /// The chunk belongs to the content; more is to come.
    Appended,
    /// The chunk completed the content, and the content hashes to what was announced.
    Completed,
    /// The transfer was complete before; the chunk is no part of the content.
    Ignored,
}

/// An incoming transfer as a mathematical value: its metadata and, while it is open, the
/// content received so far.
pub struct IncomingModel {
    pub metadata: MetadataModel,
    pub content: Option<Seq<u8>>,
}

/// What a chunk does to an incoming transfer: the transfer afterwards, and the outcome.
///
/// A chunk is appended in arrival order. Once the content is as long as the announced size or
/// longer, the transfer closes: it is `Completed` where the SHA-256 digest of the content is
/// the announced hash, and fails with `HashMismatch` otherwise.
pub open spec fn chunk_step(t: IncomingModel, chunk: Seq<u8>) -> (
    IncomingModel,
    Result<ChunkOutcome, FileTransferError>,
) {
    match t.content {
        None => (t, Ok(ChunkOutcome::Ignored)),
        Some(c) => {
            let all = c + chunk;
            if all.len() >= t.metadata.size {
                (
                    IncomingModel { metadata: t.metadata, content: None },
                    if sha256_hash(all) == t.metadata.hash {
                        Ok(ChunkOutcome::Completed)
                    } else {
                        Err(FileTransferError::HashMismatch)
                    },
                )
            } else {
                (
                    IncomingModel { metadata: t.metadata, content: Some(all) },
                    Ok(ChunkOutcome::Appended),
                )
            }
        },
    }
}

/// A transfer that takes its content in two chunks closes with the second: it completes where
/// the content hashes to what the metadata announced, and fails with `HashMismatch` where it
/// does not, as after a byte of the content was flipped. Either way the transfer is closed
/// afterwards, and whatever arrives later is ignored.
pub proof fn lemma_two_chunks_close_the_transfer(
    metadata: MetadataModel,
    first: Seq<u8>,
    second: Seq<u8>,
    later: Seq<u8>,
)
    requires
        first.len() < metadata.size,
        first.len() + second.len() >= metadata.size,
    ensures
        ({
            let opened = IncomingModel { metadata, content: Some(Seq::<u8>::empty()) };
            let closed = IncomingModel { metadata, content: None };
            let after_first = chunk_step(opened, first);
            let after_second = chunk_step(after_first.0, second);
            &&& after_first.1 == Ok::<ChunkOutcome, FileTransferError>(ChunkOutcome::Appended)
            &&& after_first.0.content == Some(first)
            &&& after_second.0 == closed
            &&& sha256_hash(first + second) == metadata.hash ==> after_second.1 == Ok::<
                ChunkOutcome,
                FileTransferError,
            >(ChunkOutcome::Completed)
            &&& sha256_hash(first + second) != metadata.hash ==> after_second.1 == Err::<
                ChunkOutcome,
                FileTransferError,
            >(FileTransferError::HashMismatch)
            &&& chunk_step(closed, later) == (
                closed,
                Ok::<ChunkOutcome, FileTransferError>(ChunkOutcome::Ignored),
            )
        }),
{
    assert(Seq::<u8>::empty() + first =~= first);
}

/// The number of chunks of `CHUNK_SIZE` bytes that hold `size` bytes: `ceil(size / 65536)`.
pub open spec fn chunks_for(size: u64) -> nat {
    ((size + 65535) / 65536) as nat
}

/// State of one incoming transfer.
pub struct IncomingTransfer {
    metadata: FileMetadata,
    /// Bytes of content received, saturating.
    bytes_received: u64,
    /// The running hash of the content; gone once the transfer is closed.
    hasher: Option<Sha256State>,
}

impl View for IncomingTransfer {
    type V = IncomingModel;

    closed spec fn view(&self) -> IncomingModel {
        IncomingModel {
            metadata: self.metadata@,
            content: match self.hasher {
                Some(h) => Some(sha256_absorbed(h)),
                None => None,
            },
        }
    }
}

impl IncomingTransfer {
    /// The byte count agrees with the content while the transfer is open.
    pub closed spec fn wf(&self) -> bool {
        self.hasher matches Some(h) ==> sha256_absorbed(h).len() == self.bytes_received
    }
}

/// State of one outgoing transfer.
pub struct OutgoingTransfer {
    metadata: FileMetadata,
    file_path: String,
    chunks_sent: u64,
    total_chunks: u64,
}

/// An outgoing transfer as a mathematical value.
pub struct OutgoingModel {
    pub metadata: MetadataModel,
    pub file_path: Seq<char>,
    pub chunks_sent: nat,
    pub total_chunks: nat,
}

impl View for OutgoingTransfer {
    type V = OutgoingModel;

    closed spec fn view(&self) -> OutgoingModel {
        OutgoingModel {
            metadata: self.metadata@,
            file_path: self.file_path@,
            chunks_sent: self.chunks_sent as nat,
            total_chunks: self.total_chunks as nat,
        }
    }
}

/// Keeps the transfers of a session by stream id and hands out stream ids.
///
/// The manager decides; it neither transmits nor touches a file. Whoever drives it writes the
/// chunks it accepts to the output and removes the output where a transfer fails.
pub struct FileTransferManager {
    next_stream_id: u32,
    incoming: HashMap<u32, IncomingTransfer>,
    outgoing: HashMap<u32, OutgoingTransfer>,
}

impl FileTransferManager {
    /// The stream id that is handed out next.
    pub closed spec fn next_stream_id(&self) -> u32 {
        self.next_stream_id
    }

    /// The incoming transfers by stream id.
    pub closed spec fn incoming(&self) -> Map<u32, IncomingModel> {
        self.incoming@.map_values(|t: IncomingTransfer| t@)
    }

    /// The outgoing transfers by stream id.
    pub closed spec fn outgoing(&self) -> Map<u32, OutgoingModel> {
        self.outgoing@.map_values(|t: OutgoingTransfer| t@)
    }

    /// Every open incoming transfer counts the bytes of its content.
    pub closed spec fn wf(&self) -> bool {
        forall|id: u32| #[trigger] self.incoming@.contains_key(id) ==> self.incoming@[id].wf()
    }

    /// A manager without transfers; the first stream id it hands out is 2.
    pub fn new() -> (m: Self)
        ensures
            m.wf(),
            m.next_stream_id() == 2,
            m.incoming() == Map::<u32, IncomingModel>::empty(),
            m.outgoing() == Map::<u32, OutgoingModel>::empty(),
    {
        let m = Self { next_stream_id: 2, incoming: HashMap::new(), outgoing: HashMap::new() };
        assert(m.incoming() =~= Map::<u32, IncomingModel>::empty());
        assert(m.outgoing() =~= Map::<u32, OutgoingModel>::empty());
        m
    }

    /// Hands out a stream id for a transfer; the counter wraps at 2^32.
    pub fn alloc_stream_id(&mut self) -> (id: u32)
        requires
            old(self).wf(),
        ensures
            final(self).wf(),
            id == old(self).next_stream_id(),
            final(self).next_stream_id() == if id == u32::MAX {
                0u32
            } else {
                (id + 1) as u32
            },
            final(self).incoming() == old(self).incoming(),
            final(self).outgoing() == old(self).outgoing(),
    {
        let id = self.next_stream_id;
        self.next_stream_id = id.wrapping_add(1);
        id
    }

    /// Opens an incoming transfer under `stream_id`, in place of any that was there.
    pub fn start_incoming_transfer(&mut self, stream_id: u32, metadata: FileMetadata)
        requires
            old(self).wf(),
        ensures
            final(self).wf(),
            final(self).incoming() == old(self).incoming().insert(
                stream_id,
                IncomingModel { metadata: metadata@, content: Some(Seq::<u8>::empty()) },
            ),
            final(self).outgoing() == old(self).outgoing(),
            final(self).next_stream_id() == old(self).next_stream_id(),
    {
        broadcast use vstd::std_specs::hash::group_hash_axioms;

        let transfer = IncomingTransfer {
            metadata,
            bytes_received: 0,
            hasher: Some(sha256_start()),
        };
        self.incoming.insert(stream_id, transfer);
        assert(self.incoming() =~= old(self).incoming().insert(
            stream_id,
            IncomingModel { metadata: metadata@, content: Some(Seq::<u8>::empty()) },
        ));
    }

    /// Takes one chunk of the transfer under `stream_id`.
    ///
    /// Fails with `UnknownStream` where no transfer was opened under the id, and with
    /// `HashMismatch` where the chunk completes a content that does not hash to what the
    /// metadata announced; the output of such a transfer is to be removed.
    pub fn write_chunk(&mut self, stream_id: u32, chunk_data: &[u8]) -> (res: Result<
        ChunkOutcome,
        FileTransferError,
    >)
        requires
            old(self).wf(),
        ensures
            final(self).wf(),
            final(self).outgoing() == old(self).outgoing(),
            final(self).next_stream_id() == old(self).next_stream_id(),
            !old(self).incoming().contains_key(stream_id) ==> res == Err::<
                ChunkOutcome,
                FileTransferError,
            >(FileTransferError::UnknownStream) && final(self).incoming() == old(self).incoming(),
            old(self).incoming().contains_key(stream_id) ==> res == chunk_step(
                old(self).incoming()[stream_id],
                chunk_data@,
            ).1 && final(self).incoming() == old(self).incoming().insert(
                stream_id,
                chunk_step(old(self).incoming()[stream_id], chunk_data@).0,
            ),
    {
        broadcast use vstd::std_specs::hash::group_hash_axioms;

        let transfer = match self.incoming.remove(&stream_id) {
            Some(t) => t,
            None => {
                assert(self.incoming() =~= old(self).incoming());
                return Err(FileTransferError::UnknownStream);
            },
        };
        let ghost before = transfer@;
        let IncomingTransfer { metadata, bytes_received, hasher } = transfer;
        let mut state = match hasher {
            Some(h) => h,
            None => {
                self.incoming.insert(
                    stream_id,
                    IncomingTransfer { metadata, bytes_received, hasher: None },
                );
                assert(self.incoming() =~= old(self).incoming().insert(stream_id, before));
                return Ok(ChunkOutcome::Ignored);
            },
        };
        sha256_update(&mut state, chunk_data);
        let remaining: u64 = if metadata.size > bytes_received {
            metadata.size - bytes_received
        } else {
            0
        };
        let len = chunk_data.len() as u64;
        if len >= remaining {
            let digest = sha256_finish(state);
            let matches = bytes_equal(digest.as_slice(), metadata.hash.as_slice());
            let total = if len > u64::MAX - bytes_received {
                u64::MAX
            } else {
                bytes_received + len
            };
            self.incoming.insert(
                stream_id,
                IncomingTransfer { metadata, bytes_received: total, hasher: None },
            );
            assert(self.incoming() =~= old(self).incoming().insert(
                stream_id,
                chunk_step(before, chunk_data@).0,
            ));
            if matches {
                Ok(ChunkOutcome::Completed)
            } else {
                Err(FileTransferError::HashMismatch)
            }
        } else {
            self.incoming.insert(
                stream_id,
                IncomingTransfer {
                    metadata,
                    bytes_received: bytes_received + len,
                    hasher: Some(state),
                },
            );
            assert(self.incoming() =~= old(self).incoming().insert(
                stream_id,
                chunk_step(before, chunk_data@).0,
            ));
            Ok(ChunkOutcome::Appended)
        }
    }

    /// Takes an acknowledgment. Transfers are best-effort: nothing is retransmitted, and an
    /// acknowledgment changes nothing.
    pub fn handle_ack(&self, stream_id: u32, ack_data: &[u8]) -> (res: Result<
        (),
        FileTransferError,
    >)
        ensures
            res is Ok,
    {
        Ok(())
    }

    /// Takes a control message. Completion goes by the byte count, so that a control message
    /// changes nothing.
    pub fn handle_control(&self, stream_id: u32, control_data: &[u8]) -> (res: Result<
        (),
        FileTransferError,
    >)
        ensures
            res is Ok,
    {
        Ok(())
    }

    /// Registers an outgoing transfer under `stream_id`, in place of any that was there, with
    /// no chunk sent and the number of chunks that its size takes.
    pub fn register_outgoing(&mut self, stream_id: u32, metadata: FileMetadata, file_path: String)
        requires
            old(self).wf(),
        ensures
            final(self).wf(),
            final(self).outgoing() == old(self).outgoing().insert(
                stream_id,
                OutgoingModel {
                    metadata: metadata@,
                    file_path: file_path@,
                    chunks_sent: 0,
                    total_chunks: chunks_for(metadata.size),
                },
            ),
            final(self).incoming() == old(self).incoming(),
            final(self).next_stream_id() == old(self).next_stream_id(),
    {
        broadcast use vstd::std_specs::hash::group_hash_axioms;

        let whole = metadata.size / 65536;
        let total_chunks = if metadata.size % 65536 == 0 {
            whole
        } else {
            whole + 1
        };
        let transfer = OutgoingTransfer { metadata, file_path, chunks_sent: 0, total_chunks };
        self.outgoing.insert(stream_id, transfer);
        assert(self.outgoing() =~= old(self).outgoing().insert(
            stream_id,
            OutgoingModel {
                metadata: metadata@,
                file_path: file_path@,
                chunks_sent: 0,
                total_chunks: chunks_for(metadata.size),
            },
        ));
    }
}

/// What the receiver of a file holds between packets: the metadata once it arrived, the
/// chunks by their numbers, and the number of chunks that the file takes.
pub struct FileReceiveState {
    metadata: Option<FileMetadata>,
    chunks: HashMap<u32, Vec<u8>>,
    total_chunks: u64,
}

/// The state of a receiver as a mathematical value.
pub struct ReceiveModel {
    pub metadata: Option<MetadataModel>,
    pub chunks: Map<u32, Seq<u8>>,
    pub total_chunks: nat,
}

/// A file that arrived whole.
#[derive(Debug)]
pub struct CompletedFile {
    pub metadata: FileMetadata,
    pub content: Vec<u8>,
}

/// What a packet did to the receiver.
#[derive(Debug)]
pub enum Received {
    /// The metadata was stored.
    MetadataStored,
    /// A chunk was stored.
    ChunkStored,
    /// The file is complete, and its content hashes to what the metadata announced.
    Complete(CompletedFile),
}

/// What a packet did to the receiver, as a mathematical value.
pub enum ReceivedModel {
    MetadataStored,
    ChunkStored,
    Complete { metadata: MetadataModel, content: Seq<u8> },
}

impl View for Received {
    type V = ReceivedModel;

    open spec fn view(&self) -> ReceivedModel {
        match *self {
            Received::MetadataStored => ReceivedModel::MetadataStored,
            Received::ChunkStored => ReceivedModel::ChunkStored,
            Received::Complete(f) => ReceivedModel::Complete {
                metadata: f.metadata@,
                content: f.content@,
            },
        }
    }
}

/// Whether the chunk of number `i` is among `chunks`.
pub open spec fn has_chunk(chunks: Map<u32, Seq<u8>>, i: nat) -> bool {
    i <= u32::MAX && chunks.contains_key(i as u32)
}

/// The chunks of the numbers below `n`, one after the other, as far as they are there.
pub open spec fn assembled(chunks: Map<u32, Seq<u8>>, n: nat) -> Seq<u8>
    decreases n,
{
    if n == 0 {
        Seq::empty()
    } else if has_chunk(chunks, (n - 1) as nat) {
        assembled(chunks, (n - 1) as nat) + chunks[(n - 1) as u32]
    } else {
        assembled(chunks, (n - 1) as nat)
    }
}

/// The lowest number from `i` up and below `n` whose chunk is missing, if one is.
pub open spec fn first_missing(chunks: Map<u32, Seq<u8>>, i: nat, n: nat) -> Option<nat>
    decreases n - i,
{
    if i >= n {
        None
    } else if !has_chunk(chunks, i) {
        Some(i)
    } else {
        first_missing(chunks, i + 1, n)
    }
}

/// A receiver that holds nothing.
pub open spec fn empty_receiver() -> ReceiveModel {
    ReceiveModel { metadata: None, chunks: Map::empty(), total_chunks: 0 }
}

/// What a packet does to a receiver, and what comes of it.
///
/// Metadata is stored together with the number of chunks that its size takes; a data chunk
/// is stored under its number, in place of an earlier one. The end packet asks for the
/// metadata and for every chunk from 0 up to that number; the chunks in order are the
/// content, which must hash to what the metadata announced; then the file is handed over and
/// the receiver holds nothing again.
pub open spec fn receive_step(m: ReceiveModel, data: Seq<u8>) -> (
    ReceiveModel,
    Result<ReceivedModel, FileTransferError>,
) {
    if data.len() < 4 {
        (m, Err(FileTransferError::PacketTooShort))
    } else {
        let tag = u32_from_be_bytes(data.subrange(0, 4));
        if tag == PACKET_TYPE_METADATA {
            match parse_metadata(data) {
                Err(e) => (m, Err(e)),
                Ok(metadata) => (
                    ReceiveModel {
                        metadata: Some(metadata),
                        total_chunks: chunks_for(metadata.size),
                        ..m
                    },
                    Ok(ReceivedModel::MetadataStored),
                ),
            }
        } else if tag == PACKET_TYPE_DATA {
            match parse_chunk(data) {
                Err(e) => (m, Err(e)),
                Ok((id, bytes)) => (
                    ReceiveModel { chunks: m.chunks.insert(id, bytes), ..m },
                    Ok(ReceivedModel::ChunkStored),
                ),
            }
        } else if tag == PACKET_TYPE_END {
            match m.metadata {
                None => (m, Err(FileTransferError::MissingMetadata)),
                Some(metadata) => match first_missing(m.chunks, 0, m.total_chunks) {
                    Some(i) => (m, Err(FileTransferError::MissingChunk(i as u64))),
                    None => {
                        let content = assembled(m.chunks, m.total_chunks);
                        if sha256_hash(content) == metadata.hash {
                            (empty_receiver(), Ok(ReceivedModel::Complete { metadata, content }))
                        } else {
                            (m, Err(FileTransferError::HashMismatch))
                        }
                    },
                },
            }
        } else {
            (m, Err(FileTransferError::UnknownPacketType))
        }
    }
}

/// The number that is reported missing is the lowest missing one: its chunk is not there,
/// and the chunks of all lower numbers from `i` up are.
pub proof fn lemma_first_missing_is_lowest(chunks: Map<u32, Seq<u8>>, i: nat, n: nat)
    ensures
        first_missing(chunks, i, n) matches Some(k) ==> i <= k < n && !has_chunk(chunks, k)
            && forall|j: nat| i <= j < k ==> has_chunk(chunks, j),
        first_missing(chunks, i, n) is None ==> forall|j: nat| i <= j < n ==> has_chunk(chunks, j),
    decreases n - i,
{
    if i < n && has_chunk(chunks, i) {
        lemma_first_missing_is_lowest(chunks, i + 1, n);
    }
}

impl View for FileReceiveState {
    type V = ReceiveModel;

    closed spec fn view(&self) -> ReceiveModel {
        ReceiveModel {
            metadata: match self.metadata {
                Some(m) => Some(m@),
                None => None,
            },
            chunks: self.chunks@.map_values(|c: Vec<u8>| c@),
            total_chunks: self.total_chunks as nat,
        }
    }
}

impl FileReceiveState {
    /// A receiver that holds nothing.
    pub fn new() -> (r: Self)
        ensures
            r@ == empty_receiver(),
    {
        let r = Self { metadata: None, chunks: HashMap::new(), total_chunks: 0 };
        assert(r@.chunks =~= Map::<u32, Seq<u8>>::empty());
        r
    }

    /// Takes one packet of a file: its metadata, a data chunk, or the end.
    ///
    /// Fails with the error of the packet's decoder where the packet does not decode, with
    /// `UnknownPacketType` on an unknown type tag, and on the end packet with
    /// `MissingMetadata`, with `MissingChunk` of the lowest missing number, or with
    /// `HashMismatch`. A failure leaves the receiver as it was.
    pub fn handle_packet(&mut self, data: &[u8]) -> (res: Result<Received, FileTransferError>)
        ensures
            final(self)@ == receive_step(old(self)@, data@).0,
            match receive_step(old(self)@, data@).1 {
                Ok(r) => res is Ok && res.unwrap()@ == r,
                Err(e) => res is Err && res->Err_0 == e,
            },
    {
        broadcast use vstd::std_specs::hash::group_hash_axioms;

        if data.len() < 4 {
            return Err(FileTransferError::PacketTooShort);
        }
        let tag = read_u32_be(data, 0);
        if tag == PACKET_TYPE_METADATA {
            let metadata = match FileMetadata::deserialize(data) {
                Ok(m) => m,
                Err(e) => { return Err(e); },
            };
            let whole = metadata.size / 65536;
            self.total_chunks = if metadata.size % 65536 == 0 {
                whole
            } else {
                whole + 1
            };
            self.metadata = Some(metadata);
            Ok(Received::MetadataStored)
        } else if tag == PACKET_TYPE_DATA {
            let chunk = match DataChunk::deserialize(data) {
                Ok(c) => c,
                Err(e) => { return Err(e); },
            };
            self.chunks.insert(chunk.chunk_id, chunk.data);
            assert(self@.chunks =~= old(self)@.chunks.insert(chunk.chunk_id, chunk.data@));
            Ok(Received::ChunkStored)
        } else if tag == PACKET_TYPE_END {
            if self.metadata.is_none() {
                return Err(FileTransferError::MissingMetadata);
            }
            let mut content: Vec<u8> = Vec::new();
            let mut hasher = sha256_start();
            let mut i: u64 = 0;
            let ghost chunks = self@.chunks;
            while i < self.total_chunks
                invariant
                    i <= self.total_chunks,
                    *self == *old(self),
                    self.metadata is Some,
                    data@.len() >= 4,
                    u32_from_be_bytes(data@.subrange(0, 4)) == PACKET_TYPE_END,
                    chunks == self@.chunks,
                    chunks == self.chunks@.map_values(|c: Vec<u8>| c@),
                    first_missing(chunks, 0, self.total_chunks as nat) == first_missing(
                        chunks,
                        i as nat,
                        self.total_chunks as nat,
                    ),
                    content@ == assembled(chunks, i as nat),
                    sha256_absorbed(hasher) == content@,
                decreases self.total_chunks - i,
            {
                if i > 0xffff_ffff {
                    return Err(FileTransferError::MissingChunk(i));
                }
                match self.chunks.get(&(i as u32)) {
                    None => {
                        return Err(FileTransferError::MissingChunk(i));
                    },
                    Some(chunk) => {
                        assert(chunks[i as u32] == chunk@);
                        content.extend_from_slice(chunk.as_slice());
                        sha256_update(&mut hasher, chunk.as_slice());
                    },
                }
                i += 1;
            }
            let digest = sha256_finish(hasher);
            let matches = match &self.metadata {
                Some(m) => bytes_equal(digest.as_slice(), m.hash.as_slice()),
                None => false,
            };
            if !matches {
                return Err(FileTransferError::HashMismatch);
            }
            let metadata = match self.metadata.take() {
                Some(m) => m,
                None => { return Err(FileTransferError::MissingMetadata); },
            };
            self.chunks = HashMap::new();
            self.total_chunks = 0;
            assert(self@.chunks =~= Map::<u32, Seq<u8>>::empty());
            Ok(Received::Complete(CompletedFile { metadata, content }))
        } else {
            Err(FileTransferError::UnknownPacketType)
        }
    }
}

} // verus!
