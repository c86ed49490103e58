//! The session between two peers, free of I/O: it turns payloads into datagrams and
//! datagrams into deliveries, and rotates its keys epoch by epoch.
//!
//! Whoever owns the socket hands each datagram it reads to `recv_record` and sends what
//! `send_record` returns; a timer calls `rekey`.

use crate::dh::x25519_shared_secret;
use crate::epoch::Epoch;
use crate::error::TunnelError;
use crate::file_transfer::{
    chunk_step, parse_metadata, ChunkOutcome, FileMetadata, FileTransferError,
    FileTransferManager, IncomingModel, MetadataModel, OutgoingModel,
};
use crate::handshake::{verify_peer_identity, HybridHandshake, PeerIdentity, Role};
use crate::kdf::{derive_epoch_keys, derive_handshake_keys, spec_epoch_keys, spec_handshake_keys};
use crate::util::to_array;
use crate::kem::{
    mlkem768_decapsulated, mlkem768_encapsulated, KEM_CIPHERTEXT_SIZE, KEM_PUBLIC_KEY_SIZE,
    KEM_SECRET_KEY_SIZE,
};
use crate::rate_limit::{bucket_wf, consume, BucketModel, RateLimiter};
use crate::record::{
    lemma_encoding_decodes, lemma_header_roundtrip, opened_payload, sealed_header, sealed_payload,
    spec_decode, Record, RecordError, RecordHeader, MSG_TYPE_CONTROL, MSG_TYPE_DATA,
    MSG_TYPE_FILE_ACK, MSG_TYPE_FILE_CHUNK, MSG_TYPE_FILE_META, MSG_TYPE_VPN_PACKET,
};
use crate::record_layer::{sealed_record_bytes, send_record, DirectionKeys, VPN_STREAM_ID};
use crate::replay::{model_wf, offer, ReplayWindow, WindowModel};
use crate::seq_counters::{step_counter, SeqCounters};
use crate::wipe::{zeroize_array, zeros};
use vstd::prelude::*;
use vstd::utf8::encode_utf8;

verus! {

/// Seconds between two rekey ticks, unless configured.
pub const DEFAULT_REKEY_INTERVAL_SECS: u64 = 300;

/// Sustained rate of the receive path, in datagrams per second.
pub const DEFAULT_RATE: u32 = 1000;

/// Burst capacity of the receive path, in datagrams.
pub const DEFAULT_BURST: u32 = 2000;

/// The counter that a message type draws its sequence numbers from.
#[derive(Debug, Clone, Copy, PartialEq, Eq, Structural)]
pub enum SeqClass {
    Vpn,
    File,
    Data,
}

/// The class of a message type: VPN packets have their own counter, the file-transfer and
/// control messages share one, and everything else counts as generic data.
pub open spec fn class_of(message_type: u8) -> SeqClass {
    if message_type == MSG_TYPE_VPN_PACKET {
        SeqClass::Vpn
    } else if message_type == MSG_TYPE_FILE_META || message_type == MSG_TYPE_FILE_CHUNK
        || message_type == MSG_TYPE_FILE_ACK || message_type == MSG_TYPE_CONTROL {
        SeqClass::File
    } else {
        SeqClass::Data
    }
}

/// The address of a peer on the datagram socket: an IPv6 address, or an IPv4 address mapped
/// into IPv6, and a port.
#[derive(Debug, Clone, Copy, PartialEq, Eq)]
pub struct Endpoint {
    pub ip: [u8; 16],
    pub port: u16,
}

/// The key and static IV of one direction as plain values.
pub struct KeysModel {
    pub key: Seq<u8>,
    pub iv: Seq<u8>,
}

/// The session as a mathematical value.
#[verifier::ext_equal]
pub struct TunnelModel {
    pub role: Role,
    pub master_secret: Seq<u8>,
    pub epoch: u8,
    pub outbound: KeysModel,
    pub inbound: KeysModel,
    pub next_vpn: u64,
    pub next_data: u64,
    pub next_file: u64,
    pub window: WindowModel,
    pub bucket: BucketModel,
    pub peer: Option<Endpoint>,
    pub next_stream_id: u32,
    pub incoming: Map<u32, IncomingModel>,
    pub outgoing: Map<u32, OutgoingModel>,
}

/// The outbound and the inbound keys of a role in an epoch. The initiator sends under the
/// initiator-to-responder secrets and receives under the responder-to-initiator ones; the
/// responder does the reverse.
pub open spec fn directional_keys(role: Role, master_secret: Seq<u8>, epoch: u8) -> (
    KeysModel,
    KeysModel,
) {
    let k = spec_epoch_keys(master_secret, epoch, 32, 12);
    match role {
        Role::Initiator => (KeysModel { key: k.0, iv: k.1 }, KeysModel { key: k.2, iv: k.3 }),
        Role::Responder => (KeysModel { key: k.2, iv: k.3 }, KeysModel { key: k.0, iv: k.1 }),
    }
}

/// The session that a handshake leaves behind: epoch 0 with its keys, all counters at zero,
/// a window that has seen nothing, a full bucket, no peer endpoint, and no transfers.
pub open spec fn initial_model(role: Role, master_secret: Seq<u8>) -> TunnelModel {
    TunnelModel {
        role,
        master_secret,
        epoch: 0,
        outbound: directional_keys(role, master_secret, 0).0,
        inbound: directional_keys(role, master_secret, 0).1,
        next_vpn: 0,
        next_data: 0,
        next_file: 0,
        window: WindowModel { max: 0, seen: Set::empty() },
        bucket: BucketModel {
            capacity: DEFAULT_BURST as nat,
            rate: DEFAULT_RATE as nat,
            tokens: DEFAULT_BURST as nat * 1_000_000_000,
            last: 0,
        },
        peer: None,
        next_stream_id: 2,
        incoming: Map::empty(),
        outgoing: Map::empty(),
    }
}

/// Keys of which every byte is zero.
pub open spec fn wiped_keys() -> KeysModel {
    KeysModel { key: zeros(32), iv: zeros(12) }
}

/// The session `m` with the peer's endpoint set to `peer`.
pub open spec fn with_peer(m: TunnelModel, peer: Endpoint) -> TunnelModel {
    TunnelModel { peer: Some(peer), ..m }
}

/// What drawing a sequence number for a message type does to a session: the counter of the
/// message's class gives its number and advances, or, within 1000 of its maximum, refuses
/// with `NonceOverflow` and leaves the session as it was.
pub open spec fn take_sequence(m: TunnelModel, message_type: u8) -> (
    TunnelModel,
    Result<u64, TunnelError>,
) {
    match class_of(message_type) {
        SeqClass::Vpn => match step_counter(m.next_vpn).0 {
            Ok(s) => (TunnelModel { next_vpn: step_counter(m.next_vpn).1, ..m }, Ok(s)),
            Err(_) => (m, Err(TunnelError::NonceOverflow)),
        },
        SeqClass::File => match step_counter(m.next_file).0 {
            Ok(s) => (TunnelModel { next_file: step_counter(m.next_file).1, ..m }, Ok(s)),
            Err(_) => (m, Err(TunnelError::NonceOverflow)),
        },
        SeqClass::Data => match step_counter(m.next_data).0 {
            Ok(s) => (TunnelModel { next_data: step_counter(m.next_data).1, ..m }, Ok(s)),
            Err(_) => (m, Err(TunnelError::NonceOverflow)),
        },
    }
}

/// What sending a payload does to a session, and the datagram that goes out.
///
/// The sequence number comes from the counter of the message's class; a counter at its
/// guard gives `NonceOverflow` and changes nothing. The record is sealed under the outbound
/// keys of the current epoch. A payload that does not fit a record gives `EncryptionFailed`
/// after its sequence number was drawn.
pub open spec fn send_step(
    m: TunnelModel,
    stream_id: u32,
    message_type: u8,
    flags: u8,
    payload: Seq<u8>,
) -> (TunnelModel, Result<Seq<u8>, TunnelError>) {
    let (m1, seq) = take_sequence(m, message_type);
    match seq {
        Err(e) => (m1, Err(e)),
        Ok(s) => if payload.len() + 16 > u32::MAX {
            (m1, Err(TunnelError::EncryptionFailed))
        } else {
            (
                m1,
                Ok(
                    sealed_record_bytes(
                        m.epoch,
                        stream_id,
                        s,
                        message_type,
                        flags,
                        payload,
                        m.outbound.key,
                        m.outbound.iv,
                    ),
                ),
            )
        },
    }
}

/// What a datagram that arrives at time `now` does to a session, and what it yields: the
/// message type, the stream id and the payload.
///
/// In this order: the rate limiter is asked, and the bucket changes whatever follows; the
/// record is decoded; its epoch must be the current one; it is opened under the inbound
/// keys; its sequence number is offered to the replay window.
pub open spec fn recv_step(m: TunnelModel, datagram: Seq<u8>, now: nat) -> (
    TunnelModel,
    Result<(u8, u32, Seq<u8>), TunnelError>,
) {
    let m1 = TunnelModel { bucket: consume(m.bucket, now).0, ..m };
    if !consume(m.bucket, now).1 {
        (m1, Err(TunnelError::RateLimitExceeded))
    } else {
        match spec_decode(datagram) {
            Err(_) => (m1, Err(TunnelError::InvalidRecord)),
            Ok((h, c)) => if h.epoch != m.epoch {
                (m1, Err(TunnelError::DecryptionFailed))
            } else {
                match opened_payload(h, c, m.inbound.key, m.inbound.iv) {
                    None => (m1, Err(TunnelError::DecryptionFailed)),
                    Some(p) => if offer(m.window, h.sequence_number).1 {
                        (
                            TunnelModel { window: offer(m.window, h.sequence_number).0, ..m1 },
                            Ok((h.message_type, h.stream_id, p)),
                        )
                    } else {
                        (m1, Err(TunnelError::ReplayDetected))
                    },
                }
            },
        }
    }
}

/// What a rekey tick does to a session: the epoch advances, both directions take the keys of
/// the new epoch, all three sequence counters and the replay window start afresh.
pub open spec fn rekey_step(m: TunnelModel) -> TunnelModel {
    let epoch = Epoch(m.epoch).spec_next().0;
    TunnelModel {
        epoch,
        outbound: directional_keys(m.role, m.master_secret, epoch).0,
        inbound: directional_keys(m.role, m.master_secret, epoch).1,
        next_vpn: 0,
        next_data: 0,
        next_file: 0,
        window: WindowModel { max: 0, seen: Set::empty() },
        ..m
    }
}

/// What is to be done with a record that was received.
#[derive(Debug)]
pub enum Delivery {
    /// Forward the packet to the virtual network device.
    VpnPacket(Vec<u8>),
    /// A transfer was opened: create the output for it.
    FileStarted { stream_id: u32, metadata: FileMetadata },
    /// A chunk was taken: append it to the output unless it was ignored, and close the
    /// output where the transfer completed.
    FileChunk { stream_id: u32, outcome: ChunkOutcome, data: Vec<u8> },
    /// An acknowledgment arrived.
    FileAck { stream_id: u32, data: Vec<u8> },
    /// A control message arrived.
    Control { stream_id: u32, data: Vec<u8> },
    /// Generic data for the user of the session.
    Data { stream_id: u32, payload: Vec<u8> },
    /// The message type is unknown; the record is dropped.
    Dropped { message_type: u8 },
}

/// A delivery as a mathematical value.
pub enum DeliveryModel {
    VpnPacket(Seq<u8>),
    FileStarted { stream_id: u32, metadata: MetadataModel },
    FileChunk { stream_id: u32, outcome: ChunkOutcome, data: Seq<u8> },
    FileAck { stream_id: u32, data: Seq<u8> },
    Control { stream_id: u32, data: Seq<u8> },
    Data { stream_id: u32, payload: Seq<u8> },
    Dropped { message_type: u8 },
}

impl View for Delivery {
    type V = DeliveryModel;

    open spec fn view(&self) -> DeliveryModel {
        match *self {
            Delivery::VpnPacket(p) => DeliveryModel::VpnPacket(p@),
            Delivery::FileStarted { stream_id, metadata } => DeliveryModel::FileStarted {
                stream_id,
                metadata: metadata@,
            },
            Delivery::FileChunk { stream_id, outcome, data } => DeliveryModel::FileChunk {
                stream_id,
                outcome,
                data: data@,
            },
            Delivery::FileAck { stream_id, data } => DeliveryModel::FileAck {
                stream_id,
                data: data@,
            },
            Delivery::Control { stream_id, data } => DeliveryModel::Control {
                stream_id,
                data: data@,
            },
            Delivery::Data { stream_id, payload } => DeliveryModel::Data {
                stream_id,
                payload: payload@,
            },
            Delivery::Dropped { message_type } => DeliveryModel::Dropped { message_type },
        }
    }
}

/// What a file-transfer or control message does to a session, and the delivery it yields.
///
/// Metadata opens a transfer under the stream id; a chunk goes to the transfer of its stream;
/// acknowledgments and control messages change nothing. Whatever the file-transfer manager
/// refuses comes back as `FileTransferFailed`.
pub open spec fn file_step(m: TunnelModel, stream_id: u32, message_type: u8, payload: Seq<u8>) -> (
    TunnelModel,
    Result<DeliveryModel, TunnelError>,
) {
    if message_type == MSG_TYPE_FILE_META {
        match parse_metadata(payload) {
            Err(e) => (m, Err(TunnelError::FileTransferFailed(e))),
            Ok(metadata) => (
                TunnelModel {
                    incoming: m.incoming.insert(
                        stream_id,
                        IncomingModel { metadata, content: Some(Seq::empty()) },
                    ),
                    ..m
                },
                Ok(DeliveryModel::FileStarted { stream_id, metadata }),
            ),
        }
    } else if message_type == MSG_TYPE_FILE_CHUNK {
        if !m.incoming.contains_key(stream_id) {
            (m, Err(TunnelError::FileTransferFailed(FileTransferError::UnknownStream)))
        } else {
            let (t, res) = chunk_step(m.incoming[stream_id], payload);
            (
                TunnelModel { incoming: m.incoming.insert(stream_id, t), ..m },
                match res {
                    Ok(outcome) => Ok(
                        DeliveryModel::FileChunk { stream_id, outcome, data: payload },
                    ),
                    Err(e) => Err(TunnelError::FileTransferFailed(e)),
                },
            )
        }
    } else if message_type == MSG_TYPE_FILE_ACK {
        (m, Ok(DeliveryModel::FileAck { stream_id, data: payload }))
    } else if message_type == MSG_TYPE_CONTROL {
        (m, Ok(DeliveryModel::Control { stream_id, data: payload }))
    } else {
        (m, Ok(DeliveryModel::Dropped { message_type }))
    }
}

/// What a received record does to a session by its message type, and the delivery it yields.
pub open spec fn dispatch_step(m: TunnelModel, message_type: u8, stream_id: u32, payload: Seq<u8>) -> (
    TunnelModel,
    Result<DeliveryModel, TunnelError>,
) {
    if message_type == MSG_TYPE_VPN_PACKET {
        (m, Ok(DeliveryModel::VpnPacket(payload)))
    } else if message_type == MSG_TYPE_FILE_META || message_type == MSG_TYPE_FILE_CHUNK
        || message_type == MSG_TYPE_FILE_ACK || message_type == MSG_TYPE_CONTROL {
        file_step(m, stream_id, message_type, payload)
    } else if message_type == MSG_TYPE_DATA {
        (m, Ok(DeliveryModel::Data { stream_id, payload }))
    } else {
        (m, Ok(DeliveryModel::Dropped { message_type }))
    }
}

/// What a datagram that arrives at time `now` does to a session once its record is routed,
/// and the delivery it yields.
pub open spec fn recv_and_dispatch_step(m: TunnelModel, datagram: Seq<u8>, now: nat) -> (
    TunnelModel,
    Result<DeliveryModel, TunnelError>,
) {
    match recv_step(m, datagram, now).1 {
        Err(e) => (recv_step(m, datagram, now).0, Err(e)),
        Ok((t, s, p)) => dispatch_step(recv_step(m, datagram, now).0, t, s, p),
    }
}

/// The inbound keys of one side are the outbound keys of the other.
pub proof fn lemma_directions_mirror(master_secret: Seq<u8>, epoch: u8)
    ensures
        directional_keys(Role::Initiator, master_secret, epoch).0 == directional_keys(
            Role::Responder,
            master_secret,
            epoch,
        ).1,
        directional_keys(Role::Initiator, master_secret, epoch).1 == directional_keys(
            Role::Responder,
            master_secret,
            epoch,
        ).0,
{
}

/// The session that a handshake leaves behind holds the keys of its role in epoch 0, and
/// whatever a session sends, receives, routes or rotates, it holds the keys of its role,
/// master secret and epoch afterwards.
pub proof fn lemma_keys_follow_epoch(
    m: TunnelModel,
    stream_id: u32,
    message_type: u8,
    flags: u8,
    payload: Seq<u8>,
    datagram: Seq<u8>,
    now: nat,
)
    ensures
        keys_match_epoch(initial_model(m.role, m.master_secret)),
        keys_match_epoch(rekey_step(m)),
        keys_match_epoch(m) ==> keys_match_epoch(
            send_step(m, stream_id, message_type, flags, payload).0,
        ),
        keys_match_epoch(m) ==> keys_match_epoch(recv_step(m, datagram, now).0),
        keys_match_epoch(m) ==> keys_match_epoch(
            dispatch_step(m, message_type, stream_id, payload).0,
        ),
        keys_match_epoch(m) ==> keys_match_epoch(recv_and_dispatch_step(m, datagram, now).0),
{
}

/// Two sessions of opposite roles that share a master secret and an epoch stay matched over
/// a rekey tick on both sides: either one's outbound keys are the other's inbound keys, in
/// the same new epoch, and both draw their sequence numbers from zero again.
pub proof fn lemma_rekey_keeps_sessions_matched(a: TunnelModel, b: TunnelModel)
    requires
        a.role != b.role,
        a.master_secret == b.master_secret,
        a.epoch == b.epoch,
    ensures
        rekey_step(a).epoch == rekey_step(b).epoch,
        rekey_step(a).outbound == rekey_step(b).inbound,
        rekey_step(a).inbound == rekey_step(b).outbound,
        keys_match_epoch(rekey_step(a)),
        rekey_step(a).next_vpn == 0 && rekey_step(a).next_data == 0 && rekey_step(a).next_file
            == 0,
        rekey_step(a).window.seen == Set::<u64>::empty(),
        rekey_step(a).master_secret == a.master_secret,
{
    lemma_directions_mirror(a.master_secret, rekey_step(a).epoch);
}

/// Whether `res` holds the delivery, or the error, that `expected` holds.
pub open spec fn same_delivery(
    res: Result<Delivery, TunnelError>,
    expected: Result<DeliveryModel, TunnelError>,
) -> bool {
    match expected {
        Ok(d) => res is Ok && res.unwrap()@ == d,
        Err(e) => res is Err && res->Err_0 == e,
    }
}

/// Whether `res` holds the bytes, or the error, that `expected` holds.
pub open spec fn same_bytes(res: Result<Vec<u8>, TunnelError>, expected: Result<Seq<u8>, TunnelError>) -> bool {
    match expected {
        Ok(b) => res is Ok && res.unwrap()@ == b,
        Err(e) => res is Err && res->Err_0 == e,
    }
}

/// Whether `res` holds the message type, stream id and payload, or the error, that
/// `expected` holds.
pub open spec fn same_reception(
    res: Result<(u8, u32, Vec<u8>), TunnelError>,
    expected: Result<(u8, u32, Seq<u8>), TunnelError>,
) -> bool {
    match expected {
        Ok((t, s, p)) => res is Ok && res.unwrap().0 == t && res.unwrap().1 == s
            && res.unwrap().2@ == p,
        Err(e) => res is Err && res->Err_0 == e,
    }
}

/// The session: role, master secret, epoch, directional keys, sequence counters, replay
/// window, rate limiter and the transfers in flight.
pub struct Tunnel {
    role: Role,
    master_secret: [u8; 32],
    epoch: Epoch,
    keys_outbound: DirectionKeys,
    keys_inbound: DirectionKeys,
    seq_counters: SeqCounters,
    replay_window: ReplayWindow,
    rate_limiter: RateLimiter,
    peer_endpoint: Option<Endpoint>,
    file_transfer: FileTransferManager,
}

/// A session together with what its peer needs to complete the handshake.
pub struct Established {
    /// The session, ready to send and receive.
    pub tunnel: Tunnel,
    /// For the initiator, the KEM ciphertext that the responder decapsulates; empty for the
    /// responder.
    pub kem_ciphertext: Vec<u8>,
}

/// Whether all of `bytes` are zero.
fn all_zero(bytes: &[u8; 32]) -> (z: bool)
    ensures
        z == (bytes@ == zeros(32)),
{
    let mut i: usize = 0;
    while i < 32
        invariant
            i <= 32,
            forall|j: int| 0 <= j < i ==> bytes@[j] == 0,
        decreases 32 - i,
    {
        if bytes[i] != 0 {
            return false;
        }
        i += 1;
    }
    assert(bytes@ =~= zeros(32));
    true
}

/// Derives the outbound and the inbound keys of `role` in `epoch`.
fn derive_direction_keys(role: Role, master_secret: &[u8; 32], epoch: u8) -> (keys: (
    DirectionKeys,
    DirectionKeys,
))
    ensures
        (KeysModel { key: keys.0.key@, iv: keys.0.iv@ }) == directional_keys(
            role,
            master_secret@,
            epoch,
        ).0,
        (KeysModel { key: keys.1.key@, iv: keys.1.iv@ }) == directional_keys(
            role,
            master_secret@,
            epoch,
        ).1,
{
    let (key_ir, iv_ir, key_ri, iv_ri) = derive_epoch_keys(master_secret, epoch, 32, 12);
    let ir = DirectionKeys { key: to_array(key_ir.as_slice()), iv: to_array(iv_ir.as_slice()) };
    let ri = DirectionKeys { key: to_array(key_ri.as_slice()), iv: to_array(iv_ri.as_slice()) };
    match role {
        Role::Initiator => (ir, ri),
        Role::Responder => (ri, ir),
    }
}

impl View for Tunnel {
    type V = TunnelModel;

    closed spec fn view(&self) -> TunnelModel {
        TunnelModel {
            role: self.role,
            master_secret: self.master_secret@,
            epoch: self.epoch.0,
            outbound: KeysModel { key: self.keys_outbound.key@, iv: self.keys_outbound.iv@ },
            inbound: KeysModel { key: self.keys_inbound.key@, iv: self.keys_inbound.iv@ },
            next_vpn: self.seq_counters.vpn(),
            next_data: self.seq_counters.data(),
            next_file: self.seq_counters.file(),
            window: self.replay_window@,
            bucket: self.rate_limiter@,
            peer: self.peer_endpoint,
            next_stream_id: self.file_transfer.next_stream_id(),
            incoming: self.file_transfer.incoming(),
            outgoing: self.file_transfer.outgoing(),
        }
    }
}

/// A session's keys are those of its role, master secret and epoch.
pub open spec fn keys_match_epoch(m: TunnelModel) -> bool {
    &&& m.outbound == directional_keys(m.role, m.master_secret, m.epoch).0
    &&& m.inbound == directional_keys(m.role, m.master_secret, m.epoch).1
}

impl Tunnel {
    /// The invariant of a session: its parts are well formed.
    pub closed spec fn wf(&self) -> bool {
        &&& self.file_transfer.wf()
        &&& bucket_wf(self.rate_limiter@)
    }

    /// In a well-formed session the replay window tracks only what lies within 2048 of its
    /// peak, and the bucket holds no more than its capacity.
    pub proof fn lemma_wf(&self)
        requires
            self.wf(),
        ensures
            model_wf(self@.window),
            bucket_wf(self@.bucket),
    {
        self.replay_window.lemma_view_wf();
    }

    /// Builds the session of `role` from the two shared secrets of a handshake, and wipes
    /// both secrets.
    pub fn from_secrets(role: Role, ss_kem: &mut [u8; 32], ss_dh: &mut [u8; 32]) -> (t: Self)
        ensures
            t.wf(),
            t@ == initial_model(role, spec_handshake_keys(old(ss_kem)@, old(ss_dh)@).1),
            final(ss_kem)@ == zeros(32),
            final(ss_dh)@ == zeros(32),
    {
        let (mut hs_auth_key, master_secret) = derive_handshake_keys(ss_kem, ss_dh);
        zeroize_array(ss_kem);
        zeroize_array(ss_dh);
        zeroize_array(&mut hs_auth_key);
        let (keys_outbound, keys_inbound) = derive_direction_keys(role, &master_secret, 0);
        let t = Self {
            role,
            master_secret,
            epoch: Epoch::initial(),
            keys_outbound,
            keys_inbound,
            seq_counters: SeqCounters::new(),
            replay_window: ReplayWindow::new(),
            rate_limiter: RateLimiter::new(DEFAULT_RATE, DEFAULT_BURST),
            peer_endpoint: None,
            file_transfer: FileTransferManager::new(),
        };
        assert(t@ =~= initial_model(role, spec_handshake_keys(old(ss_kem)@, old(ss_dh)@).1));
        t
    }

    /// The role of this side.
    pub fn role(&self) -> (r: Role)
        ensures
            r == self@.role,
    {
        self.role
    }

    /// The current epoch.
    pub fn epoch(&self) -> (e: Epoch)
        ensures
            e.0 == self@.epoch,
    {
        self.epoch
    }

    /// The highest sequence number received in this epoch.
    pub fn max_accepted(&self) -> (m: u64)
        ensures
            m == self@.window.max,
    {
        self.replay_window.peak()
    }

    /// The endpoint of the peer, as last set.
    pub fn peer_addr(&self) -> (peer: Option<Endpoint>)
        ensures
            peer == self@.peer,
    {
        self.peer_endpoint
    }

    /// Sets the endpoint of the peer.
    pub fn set_peer_addr(&mut self, peer: Endpoint)
        requires
            old(self).wf(),
        ensures
            final(self).wf(),
            final(self)@ == with_peer(old(self)@, peer),
    {
        self.peer_endpoint = Some(peer);
    }

    /// Wraps `payload` in a record for the peer: the datagram and the endpoint to send it
    /// to. Where no endpoint of the peer is known there is nothing to send, and no error; the
    /// sequence number is spent all the same.
    pub fn send_to_peer(&mut self, stream_id: u32, message_type: u8, flags: u8, payload: &[u8]) -> (res:
        Result<Option<(Endpoint, Vec<u8>)>, TunnelError>)
        requires
            old(self).wf(),
        ensures
            final(self).wf(),
            final(self)@ == send_step(old(self)@, stream_id, message_type, flags, payload@).0,
            match send_step(old(self)@, stream_id, message_type, flags, payload@).1 {
                Err(e) => res is Err && res->Err_0 == e,
                Ok(bytes) => res is Ok && match old(self)@.peer {
                    None => res.unwrap() is None,
                    Some(peer) => res.unwrap() is Some && res.unwrap().unwrap().0 == peer
                        && res.unwrap().unwrap().1@ == bytes,
                },
            },
    {
        let datagram = match self.send_record(stream_id, message_type, flags, payload) {
            Ok(d) => d,
            Err(e) => { return Err(e); },
        };
        match self.peer_endpoint {
            Some(peer) => Ok(Some((peer, datagram))),
            None => Ok(None),
        }
    }

    /// Takes the datagram that arrived from `from` at `now_ns`: the peer's endpoint becomes
    /// `from`, whatever the datagram holds, and the record is routed.
    pub fn recv_from_at(&mut self, datagram: &[u8], from: Endpoint, now_ns: u64) -> (res: Result<
        Delivery,
        TunnelError,
    >)
        requires
            old(self).wf(),
        ensures
            final(self).wf(),
            final(self)@ == recv_and_dispatch_step(
                with_peer(old(self)@, from),
                datagram@,
                now_ns as nat,
            ).0,
            same_delivery(
                res,
                recv_and_dispatch_step(
                    with_peer(old(self)@, from),
                    datagram@,
                    now_ns as nat,
                ).1,
            ),
    {
        self.set_peer_addr(from);
        self.recv_and_handle_record_at(datagram, now_ns)
    }

    /// Takes a datagram that arrived from `from` now, by the rate limiter's clock.
    pub fn recv_from(&mut self, datagram: &[u8], from: Endpoint) -> (res: Result<
        Delivery,
        TunnelError,
    >)
        requires
            old(self).wf(),
        ensures
            final(self).wf(),
            exists|now: nat|
                final(self)@ == (#[trigger] recv_and_dispatch_step(
                    with_peer(old(self)@, from),
                    datagram@,
                    now,
                )).0 && same_delivery(
                    res,
                    recv_and_dispatch_step(
                        with_peer(old(self)@, from),
                        datagram@,
                        now,
                    ).1,
                ),
    {
        let now_ns = self.rate_limiter.now();
        let res = self.recv_from_at(datagram, from, now_ns);
        assert(final(self)@ == recv_and_dispatch_step(
            with_peer(old(self)@, from),
            datagram@,
            now_ns as nat,
        ).0);
        res
    }

    /// Sets the VPN counter to a given value, to reach the overflow guard in a test.
    pub fn set_vpn_for_test(&mut self, value: u64)
        requires
            old(self).wf(),
        ensures
            final(self).wf(),
            final(self)@ == (TunnelModel { next_vpn: value, ..old(self)@ }),
    {
        self.seq_counters.set_vpn_for_test(value);
    }

    /// Sets the generic-data counter to a given value, to reach the overflow guard in a test.
    pub fn set_data_for_test(&mut self, value: u64)
        requires
            old(self).wf(),
        ensures
            final(self).wf(),
            final(self)@ == (TunnelModel { next_data: value, ..old(self)@ }),
    {
        self.seq_counters.set_data_for_test(value);
    }

    /// Sets the file-transfer counter to a given value, to reach the overflow guard in a
    /// test.
    pub fn set_file_for_test(&mut self, value: u64)
        requires
            old(self).wf(),
        ensures
            final(self).wf(),
            final(self)@ == (TunnelModel { next_file: value, ..old(self)@ }),
    {
        self.seq_counters.set_file_for_test(value);
    }

    /// Draws the sequence number for a message of `message_type`.
    fn take_sequence(&mut self, message_type: u8) -> (res: Result<u64, TunnelError>)
        ensures
            final(self)@ == take_sequence(old(self)@, message_type).0,
            res == take_sequence(old(self)@, message_type).1,
            final(self).wf() == old(self).wf(),
    {
        if message_type == MSG_TYPE_VPN_PACKET {
            match self.seq_counters.next_vpn() {
                Ok(s) => Ok(s),
                Err(_) => Err(TunnelError::NonceOverflow),
            }
        } else if message_type == MSG_TYPE_FILE_META || message_type == MSG_TYPE_FILE_CHUNK
            || message_type == MSG_TYPE_FILE_ACK || message_type == MSG_TYPE_CONTROL {
            match self.seq_counters.next_file() {
                Ok(s) => Ok(s),
                Err(_) => Err(TunnelError::NonceOverflow),
            }
        } else {
            match self.seq_counters.next_data() {
                Ok(s) => Ok(s),
                Err(_) => Err(TunnelError::NonceOverflow),
            }
        }
    }

    /// Wraps `payload` in a record and returns the datagram to send to the peer.
    ///
    /// Fails with `NonceOverflow` where the counter of the message's class stands at its
    /// guard, and with `EncryptionFailed` where the payload does not fit a record.
    pub fn send_record(&mut self, stream_id: u32, message_type: u8, flags: u8, payload: &[u8]) -> (res:
        Result<Vec<u8>, TunnelError>)
        requires
            old(self).wf(),
        ensures
            final(self).wf(),
            final(self)@ == send_step(old(self)@, stream_id, message_type, flags, payload@).0,
            same_bytes(res, send_step(old(self)@, stream_id, message_type, flags, payload@).1),
            res is Ok ==> res.unwrap()@.len() == 36 + payload@.len(),
    {
        let seq = match self.take_sequence(message_type) {
            Ok(s) => s,
            Err(e) => { return Err(e); },
        };
        match send_record(
            self.epoch,
            stream_id,
            seq,
            message_type,
            flags,
            payload,
            &self.keys_outbound,
        ) {
            Ok(bytes) => Ok(bytes),
            Err(_) => Err(TunnelError::EncryptionFailed),
        }
    }

    /// Takes the datagram that arrived at `now_ns` on the rate limiter's clock, and returns
    /// the message type, the stream id and the payload of the record it holds.
    ///
    /// Fails with `RateLimitExceeded`, `InvalidRecord`, `DecryptionFailed` or
    /// `ReplayDetected`, in the order of the checks. A datagram that the peer's session made
    /// from a payload under this direction's keys and epoch, and that passes the rate limiter
    /// and the replay window, yields what it was sent with.
    pub fn recv_record_at(&mut self, datagram: &[u8], now_ns: u64) -> (res: Result<
        (u8, u32, Vec<u8>),
        TunnelError,
    >)
        requires
            old(self).wf(),
        ensures
            final(self).wf(),
            final(self)@ == recv_step(old(self)@, datagram@, now_ns as nat).0,
            same_reception(res, recv_step(old(self)@, datagram@, now_ns as nat).1),
            forall|stream_id: u32, sequence_number: u64, message_type: u8, flags: u8, p: Seq<u8>|
                p.len() + 16 <= u32::MAX && datagram@.len() == 36 + p.len() && datagram@
                    == #[trigger] sealed_record_bytes(
                    old(self)@.epoch,
                    stream_id,
                    sequence_number,
                    message_type,
                    flags,
                    p,
                    old(self)@.inbound.key,
                    old(self)@.inbound.iv,
                ) && consume(old(self)@.bucket, now_ns as nat).1 && offer(
                    old(self)@.window,
                    sequence_number,
                ).1 ==> res is Ok && res.unwrap().0 == message_type && res.unwrap().1 == stream_id
                    && res.unwrap().2@ == p,
    {
        proof {
            let m = old(self)@;
            assert forall|
                stream_id: u32,
                sequence_number: u64,
                message_type: u8,
                flags: u8,
                p: Seq<u8>,
            |
                p.len() + 16 <= u32::MAX && datagram@.len() == 36 + p.len() && datagram@
                    == #[trigger] sealed_record_bytes(
                    m.epoch,
                    stream_id,
                    sequence_number,
                    message_type,
                    flags,
                    p,
                    m.inbound.key,
                    m.inbound.iv,
                ) implies spec_decode(datagram@) == Ok::<(RecordHeader, Seq<u8>), RecordError>(
                (
                    sealed_header(message_type, flags, m.epoch, stream_id, sequence_number, p.len()),
                    sealed_payload(
                        sealed_header(
                            message_type,
                            flags,
                            m.epoch,
                            stream_id,
                            sequence_number,
                            p.len(),
                        ),
                        p,
                        m.inbound.key,
                        m.inbound.iv,
                    ),
                ),
            ) by {
                let h = sealed_header(
                    message_type,
                    flags,
                    m.epoch,
                    stream_id,
                    sequence_number,
                    p.len(),
                );
                lemma_header_roundtrip(h);
                lemma_encoding_decodes(h, sealed_payload(h, p, m.inbound.key, m.inbound.iv));
            }
        }
        if self.rate_limiter.check_and_consume_at(now_ns).is_err() {
            return Err(TunnelError::RateLimitExceeded);
        }
        let record = match Record::from_bytes(datagram) {
            Ok(r) => r,
            Err(_) => { return Err(TunnelError::InvalidRecord); },
        };
        if record.header.epoch != self.epoch.value() {
            return Err(TunnelError::DecryptionFailed);
        }
        let payload = match record.decrypt(&self.keys_inbound.key, &self.keys_inbound.iv) {
            Ok(p) => p,
            Err(_) => { return Err(TunnelError::DecryptionFailed); },
        };
        match self.replay_window.check_and_update(record.header.sequence_number) {
            Ok(()) => Ok((record.header.message_type, record.header.stream_id, payload)),
            Err(e) => Err(e),
        }
    }

    /// Takes a datagram that arrived now, by the rate limiter's clock.
    pub fn recv_record(&mut self, datagram: &[u8]) -> (res: Result<(u8, u32, Vec<u8>), TunnelError>)
        requires
            old(self).wf(),
        ensures
            final(self).wf(),
            exists|now: nat|
                final(self)@ == (#[trigger] recv_step(old(self)@, datagram@, now)).0
                    && same_reception(res, recv_step(old(self)@, datagram@, now).1),
    {
        let now_ns = self.rate_limiter.now();
        let res = self.recv_record_at(datagram, now_ns);
        assert(final(self)@ == recv_step(old(self)@, datagram@, now_ns as nat).0);
        res
    }

    /// Wraps a VPN packet in a record on the VPN stream.
    pub fn send_vpn_packet(&mut self, packet: &[u8]) -> (res: Result<Vec<u8>, TunnelError>)
        requires
            old(self).wf(),
        ensures
            final(self).wf(),
            final(self)@ == send_step(
                old(self)@,
                VPN_STREAM_ID,
                MSG_TYPE_VPN_PACKET,
                0,
                packet@,
            ).0,
            same_bytes(
                res,
                send_step(old(self)@, VPN_STREAM_ID, MSG_TYPE_VPN_PACKET, 0, packet@).1,
            ),
            res is Ok ==> res.unwrap()@.len() == 36 + packet@.len(),
    {
        self.send_record(VPN_STREAM_ID, MSG_TYPE_VPN_PACKET, 0, packet)
    }

    /// Wraps a packet for the peer; the same as `send_vpn_packet`.
    pub fn send_packet(&mut self, pkt: &[u8]) -> (res: Result<Vec<u8>, TunnelError>)
        requires
            old(self).wf(),
        ensures
            final(self).wf(),
            final(self)@ == send_step(old(self)@, VPN_STREAM_ID, MSG_TYPE_VPN_PACKET, 0, pkt@).0,
            same_bytes(res, send_step(old(self)@, VPN_STREAM_ID, MSG_TYPE_VPN_PACKET, 0, pkt@).1),
            res is Ok ==> res.unwrap()@.len() == 36 + pkt@.len(),
    {
        self.send_vpn_packet(pkt)
    }

    /// Wraps the metadata of a file in a record on `stream_id`.
    ///
    /// Fails with `FileTransferFailed(InvalidFilename)`, and changes nothing, where the
    /// filename is too long for its 32-bit length field.
    pub fn send_file_meta(&mut self, stream_id: u32, meta: &FileMetadata) -> (res: Result<
        Vec<u8>,
        TunnelError,
    >)
        requires
            old(self).wf(),
        ensures
            final(self).wf(),
            encode_utf8(meta.filename@).len() > u32::MAX ==> res is Err && res->Err_0
                == TunnelError::FileTransferFailed(FileTransferError::InvalidFilename)
                && final(self)@ == old(self)@,
            encode_utf8(meta.filename@).len() <= u32::MAX ==> final(self)@ == send_step(
                old(self)@,
                stream_id,
                MSG_TYPE_FILE_META,
                0,
                crate::file_transfer::metadata_bytes(meta@),
            ).0 && same_bytes(
                res,
                send_step(
                    old(self)@,
                    stream_id,
                    MSG_TYPE_FILE_META,
                    0,
                    crate::file_transfer::metadata_bytes(meta@),
                ).1,
            ),
            res is Ok ==> res.unwrap()@.len() == 36 + crate::file_transfer::metadata_bytes(
                meta@,
            ).len(),
    {
        if meta.filename.as_str().as_bytes().len() > 0xffff_ffff {
            return Err(TunnelError::FileTransferFailed(FileTransferError::InvalidFilename));
        }
        let payload = meta.serialize();
        self.send_record(stream_id, MSG_TYPE_FILE_META, 0, payload.as_slice())
    }

    /// Wraps the metadata of a file in a record for the peer: the datagram and the endpoint
    /// to send it to, or nothing where no endpoint of the peer is known.
    ///
    /// Fails as `send_file_meta` does.
    pub fn send_file_meta_to_peer(&mut self, stream_id: u32, meta: &FileMetadata) -> (res: Result<
        Option<(Endpoint, Vec<u8>)>,
        TunnelError,
    >)
        requires
            old(self).wf(),
        ensures
            final(self).wf(),
            encode_utf8(meta.filename@).len() > u32::MAX ==> res is Err && res->Err_0
                == TunnelError::FileTransferFailed(FileTransferError::InvalidFilename)
                && final(self)@ == old(self)@,
            encode_utf8(meta.filename@).len() <= u32::MAX ==> final(self)@ == send_step(
                old(self)@,
                stream_id,
                MSG_TYPE_FILE_META,
                0,
                crate::file_transfer::metadata_bytes(meta@),
            ).0 && match send_step(
                old(self)@,
                stream_id,
                MSG_TYPE_FILE_META,
                0,
                crate::file_transfer::metadata_bytes(meta@),
            ).1 {
                Err(e) => res is Err && res->Err_0 == e,
                Ok(bytes) => res is Ok && match old(self)@.peer {
                    None => res.unwrap() is None,
                    Some(peer) => res.unwrap() is Some && res.unwrap().unwrap().0 == peer
                        && res.unwrap().unwrap().1@ == bytes,
                },
            },
    {
        let datagram = match self.send_file_meta(stream_id, meta) {
            Ok(d) => d,
            Err(e) => { return Err(e); },
        };
        match self.peer_endpoint {
            Some(peer) => Ok(Some((peer, datagram))),
            None => Ok(None),
        }
    }

    /// Wraps a chunk of file content in a record on `stream_id`.
    pub fn send_file_chunk(&mut self, stream_id: u32, chunk: &[u8]) -> (res: Result<
        Vec<u8>,
        TunnelError,
    >)
        requires
            old(self).wf(),
        ensures
            final(self).wf(),
            final(self)@ == send_step(old(self)@, stream_id, MSG_TYPE_FILE_CHUNK, 0, chunk@).0,
            same_bytes(res, send_step(old(self)@, stream_id, MSG_TYPE_FILE_CHUNK, 0, chunk@).1),
            res is Ok ==> res.unwrap()@.len() == 36 + chunk@.len(),
    {
        self.send_record(stream_id, MSG_TYPE_FILE_CHUNK, 0, chunk)
    }

    /// Wraps an acknowledgment in a record on `stream_id`.
    pub fn send_file_ack(&mut self, stream_id: u32, ack_data: &[u8]) -> (res: Result<
        Vec<u8>,
        TunnelError,
    >)
        requires
            old(self).wf(),
        ensures
            final(self).wf(),
            final(self)@ == send_step(old(self)@, stream_id, MSG_TYPE_FILE_ACK, 0, ack_data@).0,
            same_bytes(res, send_step(old(self)@, stream_id, MSG_TYPE_FILE_ACK, 0, ack_data@).1),
            res is Ok ==> res.unwrap()@.len() == 36 + ack_data@.len(),
    {
        self.send_record(stream_id, MSG_TYPE_FILE_ACK, 0, ack_data)
    }

    /// Hands a file-transfer or control message to the file-transfer manager.
    pub fn handle_file_or_control(&mut self, stream_id: u32, msg_type: u8, payload: Vec<u8>) -> (res:
        Result<Delivery, TunnelError>)
        requires
            old(self).wf(),
        ensures
            final(self).wf(),
            final(self)@ == file_step(old(self)@, stream_id, msg_type, payload@).0,
            same_delivery(res, file_step(old(self)@, stream_id, msg_type, payload@).1),
    {
        if msg_type == MSG_TYPE_FILE_META {
            let meta = match FileMetadata::deserialize(payload.as_slice()) {
                Ok(m) => m,
                Err(e) => { return Err(TunnelError::FileTransferFailed(e)); },
            };
            let announced = FileMetadata::new(meta.filename.clone(), meta.size, meta.hash);
            self.file_transfer.start_incoming_transfer(stream_id, meta);
            assert(self@ =~= file_step(old(self)@, stream_id, msg_type, payload@).0);
            Ok(Delivery::FileStarted { stream_id, metadata: announced })
        } else if msg_type == MSG_TYPE_FILE_CHUNK {
            let res = self.file_transfer.write_chunk(stream_id, payload.as_slice());
            assert(self@ =~= file_step(old(self)@, stream_id, msg_type, payload@).0);
            match res {
                Ok(outcome) => Ok(Delivery::FileChunk { stream_id, outcome, data: payload }),
                Err(e) => Err(TunnelError::FileTransferFailed(e)),
            }
        } else if msg_type == MSG_TYPE_FILE_ACK {
            match self.file_transfer.handle_ack(stream_id, payload.as_slice()) {
                Ok(()) => Ok(Delivery::FileAck { stream_id, data: payload }),
                Err(e) => Err(TunnelError::FileTransferFailed(e)),
            }
        } else if msg_type == MSG_TYPE_CONTROL {
            match self.file_transfer.handle_control(stream_id, payload.as_slice()) {
                Ok(()) => Ok(Delivery::Control { stream_id, data: payload }),
                Err(e) => Err(TunnelError::FileTransferFailed(e)),
            }
        } else {
            Ok(Delivery::Dropped { message_type: msg_type })
        }
    }

    /// Routes a received record by its message type.
    pub fn handle_incoming_record(&mut self, msg_type: u8, stream_id: u32, payload: Vec<u8>) -> (res:
        Result<Delivery, TunnelError>)
        requires
            old(self).wf(),
        ensures
            final(self).wf(),
            final(self)@ == dispatch_step(old(self)@, msg_type, stream_id, payload@).0,
            same_delivery(res, dispatch_step(old(self)@, msg_type, stream_id, payload@).1),
    {
        if msg_type == MSG_TYPE_VPN_PACKET {
            Ok(Delivery::VpnPacket(payload))
        } else if msg_type == MSG_TYPE_FILE_META || msg_type == MSG_TYPE_FILE_CHUNK || msg_type
            == MSG_TYPE_FILE_ACK || msg_type == MSG_TYPE_CONTROL {
            self.handle_file_or_control(stream_id, msg_type, payload)
        } else if msg_type == MSG_TYPE_DATA {
            Ok(Delivery::Data { stream_id, payload })
        } else {
            Ok(Delivery::Dropped { message_type: msg_type })
        }
    }

    /// Takes the datagram that arrived at `now_ns` and routes the record it holds.
    pub fn recv_and_handle_record_at(&mut self, datagram: &[u8], now_ns: u64) -> (res: Result<
        Delivery,
        TunnelError,
    >)
        requires
            old(self).wf(),
        ensures
            final(self).wf(),
            final(self)@ == recv_and_dispatch_step(old(self)@, datagram@, now_ns as nat).0,
            same_delivery(res, recv_and_dispatch_step(old(self)@, datagram@, now_ns as nat).1),
    {
        let (msg_type, stream_id, payload) = match self.recv_record_at(datagram, now_ns) {
            Ok(r) => r,
            Err(e) => { return Err(e); },
        };
        self.handle_incoming_record(msg_type, stream_id, payload)
    }

    /// Takes a datagram that arrived now and routes the record it holds.
    pub fn recv_and_handle_record(&mut self, datagram: &[u8]) -> (res: Result<Delivery, TunnelError>)
        requires
            old(self).wf(),
        ensures
            final(self).wf(),
            exists|now: nat|
                final(self)@ == (#[trigger] recv_and_dispatch_step(old(self)@, datagram@, now)).0
                    && same_delivery(res, recv_and_dispatch_step(old(self)@, datagram@, now).1),
    {
        let now_ns = self.rate_limiter.now();
        let res = self.recv_and_handle_record_at(datagram, now_ns);
        assert(final(self)@ == recv_and_dispatch_step(old(self)@, datagram@, now_ns as nat).0);
        res
    }

    /// Takes a datagram that arrived now and returns the payload alone.
    pub fn recv_packet(&mut self, datagram: &[u8]) -> (res: Result<Vec<u8>, TunnelError>)
        requires
            old(self).wf(),
        ensures
            final(self).wf(),
            exists|now: nat|
                final(self)@ == (#[trigger] recv_step(old(self)@, datagram@, now)).0 && match recv_step(
                    old(self)@,
                    datagram@,
                    now,
                ).1 {
                    Ok((t, s, p)) => res is Ok && res.unwrap()@ == p,
                    Err(e) => res is Err && res->Err_0 == e,
                },
    {
        let now_ns = self.rate_limiter.now();
        let res = self.recv_record_at(datagram, now_ns);
        assert(final(self)@ == recv_step(old(self)@, datagram@, now_ns as nat).0);
        match res {
            Ok((_, _, plaintext)) => Ok(plaintext),
            Err(e) => Err(e),
        }
    }

    /// The transfers of this session.
    pub fn file_transfer(&self) -> (m: &FileTransferManager)
        ensures
            m.incoming() == self@.incoming,
            m.outgoing() == self@.outgoing,
            m.next_stream_id() == self@.next_stream_id,
    {
        &self.file_transfer
    }

    /// Hands out a stream id for a transfer.
    pub fn alloc_stream_id(&mut self) -> (id: u32)
        requires
            old(self).wf(),
        ensures
            final(self).wf(),
            id == old(self)@.next_stream_id,
            final(self)@ == (TunnelModel {
                next_stream_id: if id == u32::MAX {
                    0u32
                } else {
                    (id + 1) as u32
                },
                ..old(self)@
            }),
    {
        let id = self.file_transfer.alloc_stream_id();
        assert(self@ =~= (TunnelModel {
            next_stream_id: if id == u32::MAX {
                0u32
            } else {
                (id + 1) as u32
            },
            ..old(self)@
        }));
        id
    }

    /// Registers an outgoing transfer under `stream_id`.
    pub fn register_outgoing(&mut self, stream_id: u32, metadata: FileMetadata, file_path: String)
        requires
            old(self).wf(),
        ensures
            final(self).wf(),
            final(self)@ == (TunnelModel {
                outgoing: old(self)@.outgoing.insert(
                    stream_id,
                    OutgoingModel {
                        metadata: metadata@,
                        file_path: file_path@,
                        chunks_sent: 0,
                        total_chunks: crate::file_transfer::chunks_for(metadata.size),
                    },
                ),
                ..old(self)@
            }),
    {
        self.file_transfer.register_outgoing(stream_id, metadata, file_path);
        assert(self@ =~= (TunnelModel {
            outgoing: old(self)@.outgoing.insert(
                stream_id,
                OutgoingModel {
                    metadata: metadata@,
                    file_path: file_path@,
                    chunks_sent: 0,
                    total_chunks: crate::file_transfer::chunks_for(metadata.size),
                },
            ),
            ..old(self)@
        }));
    }

    /// Closes the session: the master secret and the keys of both directions are wiped, as
    /// they are whenever a session goes out of use.
    pub fn close(self) {
    }

    /// Retires the keys of the current epoch: the key and the IV of both directions are
    /// overwritten with zeros where they stand. Nothing else changes.
    fn retire_keys(&mut self)
        ensures
            final(self)@ == (TunnelModel {
                outbound: wiped_keys(),
                inbound: wiped_keys(),
                ..old(self)@
            }),
            final(self).keys_outbound.is_wiped(),
            final(self).keys_inbound.is_wiped(),
            final(self).wf() == old(self).wf(),
    {
        self.keys_outbound.zeroize();
        self.keys_inbound.zeroize();
    }

    /// Advances the epoch: derives the keys of the new epoch from the master secret, wipes
    /// the keys of the old epoch in place before the new ones take their place, and starts
    /// the sequence counters and the replay window afresh.
    pub fn rekey(&mut self)
        requires
            old(self).wf(),
        ensures
            final(self).wf(),
            final(self)@ == rekey_step(old(self)@),
    {
        let new_epoch = self.epoch.next();
        let (new_outbound, new_inbound) = derive_direction_keys(
            self.role,
            &self.master_secret,
            new_epoch.value(),
        );
        self.retire_keys();
        self.keys_outbound = new_outbound;
        self.keys_inbound = new_inbound;
        self.epoch = new_epoch;
        self.seq_counters.reset();
        self.replay_window = ReplayWindow::new();
        assert(self@ =~= rekey_step(old(self)@));
    }
}

impl Drop for Tunnel {
    /// Wipes the master secret when the session goes out of use; the keys of both directions
    /// wipe themselves.
    fn drop(&mut self)
        opens_invariants none
        no_unwind
    {
        zeroize_array(&mut self.master_secret);
    }
}

/// Establishes a session with a peer.
///
/// The peer's signature over its KEM public key is verified under its identity key first;
/// where it does not verify the handshake fails with `InvalidPeerIdentity`, and no session
/// exists. The initiator then encapsulates to the peer's KEM key with 32 drawn bytes and
/// returns the ciphertext for the peer, whatever `kem_ciphertext` holds; the responder
/// decapsulates
/// `kem_ciphertext` with its own secret key. Both
/// run X25519 between their DH secret and the peer's DH key. The handshake fails with
/// `HandshakeFailed` where a key or the ciphertext has the wrong length, or where the DH
/// secret is all zero. The two secrets give the master secret, and the session starts in
/// epoch 0.
pub fn create_tunnel(role: Role, local: &HybridHandshake, remote: &PeerIdentity, kem_ciphertext: &[u8]) -> (res:
    Result<Established, TunnelError>)
    ensures
        res is Ok ==> remote.is_bound() && res.unwrap().tunnel.wf(),
        !remote.is_bound() ==> res is Err && res->Err_0 == TunnelError::InvalidPeerIdentity,
        remote.is_bound() && role == Role::Responder ==> ({
            let dh = x25519_shared_secret(local.spec_x25519_secret(), remote.dh_public_key@);
            let kem = mlkem768_decapsulated(kem_ciphertext@, local.spec_kyber_secret_key());
            if kem_ciphertext@.len() == KEM_CIPHERTEXT_SIZE && local.spec_kyber_secret_key().len()
                == KEM_SECRET_KEY_SIZE && dh != zeros(32) {
                res is Ok && res.unwrap().tunnel@ == initial_model(
                    role,
                    spec_handshake_keys(kem, dh).1,
                ) && res.unwrap().kem_ciphertext@.len() == 0
            } else {
                res is Err && res->Err_0 is HandshakeFailed
            }
        }),
        remote.is_bound() && role == Role::Initiator ==> ({
            let dh = x25519_shared_secret(local.spec_x25519_secret(), remote.dh_public_key@);
            if remote.kem_public_key@.len() == KEM_PUBLIC_KEY_SIZE && dh != zeros(32) {
                res is Ok && res.unwrap().kem_ciphertext@.len() == KEM_CIPHERTEXT_SIZE && exists|
                    coins: Seq<u8>,
                |
                    coins.len() == 32 && res.unwrap().kem_ciphertext@ == (
                    #[trigger] mlkem768_encapsulated(remote.kem_public_key@, coins)).1
                        && res.unwrap().tunnel@ == initial_model(
                        role,
                        spec_handshake_keys(
                            mlkem768_encapsulated(remote.kem_public_key@, coins).0,
                            dh,
                        ).1,
                    )
            } else {
                res is Err && res->Err_0 is HandshakeFailed
            }
        }),
{
    match verify_peer_identity(
        remote.kem_public_key.as_slice(),
        &remote.identity_key,
        &remote.signature,
    ) {
        Ok(()) => {},
        Err(e) => { return Err(e); },
    }
    let mut ss_dh = crate::dh::diffie_hellman(local.x25519_secret(), &remote.dh_public_key);
    if all_zero(&ss_dh) {
        return Err(TunnelError::HandshakeFailed("key agreement gave no secret".to_owned()));
    }
    match role {
        Role::Initiator => {
            let (mut ss_kem, ciphertext) = match crate::kem::encapsulate(
                remote.kem_public_key.as_slice(),
            ) {
                Some(pair) => pair,
                None => {
                    zeroize_array(&mut ss_dh);
                    return Err(
                        TunnelError::HandshakeFailed("encapsulation failed".to_owned()),
                    );
                },
            };
            let ghost kem = ss_kem@;
            let tunnel = Tunnel::from_secrets(role, &mut ss_kem, &mut ss_dh);
            assert(tunnel@ == initial_model(
                role,
                spec_handshake_keys(
                    kem,
                    x25519_shared_secret(local.spec_x25519_secret(), remote.dh_public_key@),
                ).1,
            ));
            Ok(Established { tunnel, kem_ciphertext: ciphertext })
        },
        Role::Responder => {
            let mut ss_kem = match crate::kem::decapsulate(
                kem_ciphertext,
                local.kyber_secret_key().as_slice(),
            ) {
                Some(secret) => secret,
                None => {
                    zeroize_array(&mut ss_dh);
                    return Err(
                        TunnelError::HandshakeFailed("decapsulation failed".to_owned()),
                    );
                },
            };
            let tunnel = Tunnel::from_secrets(role, &mut ss_kem, &mut ss_dh);
            Ok(Established { tunnel, kem_ciphertext: Vec::new() })
        },
    }
}

} // verus!
