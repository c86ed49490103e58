//! What holds of two sessions that talk to each other, stated over the sessions as
//! mathematical values.
//!
//! Where a law speaks of a payload that comes out as it went in, it takes the faithfulness of
//! the cipher for that payload as its premise; `Record::decrypt` finds it of every sealed
//! payload that it is handed.

use crate::epoch::Epoch;
use crate::error::TunnelError;
use crate::handshake::Role;
use crate::rate_limit::consume;
use crate::record::{
    lemma_encoding_decodes, lemma_header_decodes_before_payload, sealed_header, sealed_payload,
    seals_faithfully, spec_decode, RecordError, RecordHeader, MSG_TYPE_VPN_PACKET,
};
use crate::record_layer::{sealed_record_bytes, VPN_STREAM_ID};
use crate::replay::{lemma_barred_stays_barred_once, lemma_offer_properties, model_wf, offer};
use crate::tunnel::{
    directional_keys, initial_model, lemma_directions_mirror, recv_and_dispatch_step, recv_step,
    rekey_step, send_step, take_sequence, with_peer, DeliveryModel, Endpoint, TunnelModel,
};
use vstd::prelude::*;

verus! {

/// The header of the record that session `a` sends next for a payload.
pub open spec fn next_header(
    a: TunnelModel,
    stream_id: u32,
    message_type: u8,
    flags: u8,
    payload: Seq<u8>,
) -> RecordHeader {
    sealed_header(
        message_type,
        flags,
        a.epoch,
        stream_id,
        take_sequence(a, message_type).1->Ok_0,
        payload.len(),
    )
}

/// What one session sends, the other receives: where the receiver's inbound keys and epoch
/// are the sender's outbound keys and epoch, the sender's counter gives a number, the
/// receiver's bucket holds a token and its window takes the number, the datagram yields the
/// message type, the stream id and the payload that it was sent with.
pub proof fn lemma_sent_record_is_received(
    a: TunnelModel,
    b: TunnelModel,
    stream_id: u32,
    message_type: u8,
    flags: u8,
    payload: Seq<u8>,
    now: nat,
)
    requires
        a.outbound == b.inbound,
        a.epoch == b.epoch,
        payload.len() + 16 <= u32::MAX,
        take_sequence(a, message_type).1 is Ok,
        consume(b.bucket, now).1,
        offer(b.window, take_sequence(a, message_type).1->Ok_0).1,
        seals_faithfully(
            next_header(a, stream_id, message_type, flags, payload),
            payload,
            a.outbound.key,
            a.outbound.iv,
        ),
    ensures
        send_step(a, stream_id, message_type, flags, payload).1 is Ok,
        recv_step(b, send_step(a, stream_id, message_type, flags, payload).1->Ok_0, now).1 == Ok::<
            (u8, u32, Seq<u8>),
            TunnelError,
        >((message_type, stream_id, payload)),
        recv_step(b, send_step(a, stream_id, message_type, flags, payload).1->Ok_0, now).0.window
            == offer(b.window, take_sequence(a, message_type).1->Ok_0).0,
{
    let h = next_header(a, stream_id, message_type, flags, payload);
    let c = sealed_payload(h, payload, a.outbound.key, a.outbound.iv);
    lemma_encoding_decodes(h, c);
    let datagram = send_step(a, stream_id, message_type, flags, payload).1->Ok_0;
    assert(datagram == h.spec_bytes() + c);
    assert(spec_decode(datagram) == Ok::<(RecordHeader, Seq<u8>), RecordError>((h, c)));
}

/// Two sessions fresh from a handshake on one master secret, one of either role: the first
/// VPN packet of the initiator reaches the responder as it was sent, on the VPN stream,
/// whenever it arrives, and the responder's peer endpoint is where it came from.
pub proof fn lemma_fresh_sessions_echo(
    master_secret: Seq<u8>,
    payload: Seq<u8>,
    from: Endpoint,
    now: nat,
)
    requires
        payload.len() + 16 <= u32::MAX,
        seals_faithfully(
            sealed_header(MSG_TYPE_VPN_PACKET, 0, 0, VPN_STREAM_ID, 0, payload.len()),
            payload,
            directional_keys(Role::Initiator, master_secret, 0).0.key,
            directional_keys(Role::Initiator, master_secret, 0).0.iv,
        ),
    ensures
        ({
            let a = initial_model(Role::Initiator, master_secret);
            let b = initial_model(Role::Responder, master_secret);
            let sent = send_step(a, VPN_STREAM_ID, MSG_TYPE_VPN_PACKET, 0, payload).1;
            &&& sent is Ok
            &&& recv_step(b, sent->Ok_0, now).1 == Ok::<(u8, u32, Seq<u8>), TunnelError>(
                (MSG_TYPE_VPN_PACKET, VPN_STREAM_ID, payload),
            )
            &&& recv_and_dispatch_step(with_peer(b, from), sent->Ok_0, now).1 == Ok::<
                DeliveryModel,
                TunnelError,
            >(DeliveryModel::VpnPacket(payload))
            &&& recv_and_dispatch_step(with_peer(b, from), sent->Ok_0, now).0.peer == Some(from)
        }),
{
    let a = initial_model(Role::Initiator, master_secret);
    let b = initial_model(Role::Responder, master_secret);
    lemma_directions_mirror(master_secret, 0);
    lemma_full_bucket_accepts(b, now);
    lemma_sent_record_is_received(a, b, VPN_STREAM_ID, MSG_TYPE_VPN_PACKET, 0, payload, now);
    lemma_sent_record_is_received(
        a,
        with_peer(b, from),
        VPN_STREAM_ID,
        MSG_TYPE_VPN_PACKET,
        0,
        payload,
        now,
    );
}

proof fn lemma_full_bucket_accepts(b: TunnelModel, now: nat)
    requires
        b.bucket.tokens == b.bucket.capacity * 1_000_000_000,
        b.bucket.capacity >= 1,
    ensures
        consume(b.bucket, now).1,
{
    let passed = crate::rate_limit::elapsed(b.bucket.last, now);
    assert(passed * b.bucket.rate >= 0) by (nonlinear_arith)
        requires
            passed >= 0,
            b.bucket.rate >= 0,
    ;
}

/// A datagram that was received once is rejected with `ReplayDetected` when it arrives
/// again after another datagram, whatever came of that one, provided the bucket holds a
/// token for it; nothing is yielded, and the replay window stays as it was.
pub proof fn lemma_replayed_datagram_is_rejected(
    b: TunnelModel,
    first: Seq<u8>,
    between: Seq<u8>,
    t1: nat,
    t2: nat,
    t3: nat,
)
    requires
        model_wf(b.window),
        recv_step(b, first, t1).1 is Ok,
        consume(recv_step(recv_step(b, first, t1).0, between, t2).0.bucket, t3).1,
    ensures
        ({
            let b2 = recv_step(recv_step(b, first, t1).0, between, t2).0;
            &&& recv_step(b2, first, t3).1 == Err::<(u8, u32, Seq<u8>), TunnelError>(
                TunnelError::ReplayDetected,
            )
            &&& recv_step(b2, first, t3).0.window == b2.window
        }),
{
    let h = spec_decode(first)->Ok_0.0;
    let b1 = recv_step(b, first, t1).0;
    lemma_offer_properties(b.window, h.sequence_number);
    assert(b1.window == offer(b.window, h.sequence_number).0);
    assert(!offer(b1.window, h.sequence_number).1);
    let b2 = recv_step(b1, between, t2).0;
    if b2.window != b1.window {
        let other = spec_decode(between)->Ok_0.0;
        assert(b2.window == offer(b1.window, other.sequence_number).0);
        lemma_barred_stays_barred_once(b1.window, h.sequence_number, other.sequence_number);
    }
}

/// The first record that a session sends after a rekey tick, of whatever class, carries the
/// following epoch and sequence number 0, and its payload is sealed under the outbound key and
/// IV of that epoch.
pub proof fn lemma_first_send_after_rekey(
    m: TunnelModel,
    stream_id: u32,
    message_type: u8,
    flags: u8,
    payload: Seq<u8>,
)
    requires
        payload.len() + 16 <= u32::MAX,
    ensures
        ({
            let epoch = Epoch(m.epoch).spec_next().0;
            let keys = directional_keys(m.role, m.master_secret, epoch).0;
            let sent = send_step(rekey_step(m), stream_id, message_type, flags, payload).1;
            let header = sealed_header(message_type, flags, epoch, stream_id, 0, payload.len());
            &&& sent is Ok
            &&& sent->Ok_0 == sealed_record_bytes(
                epoch,
                stream_id,
                0,
                message_type,
                flags,
                payload,
                keys.key,
                keys.iv,
            )
            &&& RecordHeader::spec_from_bytes(sent->Ok_0) == Ok::<RecordHeader, RecordError>(
                header,
            )
            &&& sent->Ok_0 == header.spec_bytes() + sealed_payload(
                header,
                payload,
                keys.key,
                keys.iv,
            )
        }),
{
    let epoch = Epoch(m.epoch).spec_next().0;
    let keys = directional_keys(m.role, m.master_secret, epoch).0;
    let header = sealed_header(message_type, flags, epoch, stream_id, 0, payload.len());
    lemma_header_decodes_before_payload(
        header,
        sealed_payload(header, payload, keys.key, keys.iv),
    );
}

/// After a rekey tick on both sides of two matched sessions, the first record of the new
/// epoch, with sequence number 0, is received with its payload whatever was accepted before:
/// the replay window starts afresh on rekey.
pub proof fn lemma_traffic_flows_after_rekey(
    a: TunnelModel,
    b: TunnelModel,
    stream_id: u32,
    message_type: u8,
    flags: u8,
    payload: Seq<u8>,
    now: nat,
)
    requires
        a.role != b.role,
        a.master_secret == b.master_secret,
        a.epoch == b.epoch,
        payload.len() + 16 <= u32::MAX,
        consume(b.bucket, now).1,
        seals_faithfully(
            sealed_header(
                message_type,
                flags,
                Epoch(a.epoch).spec_next().0,
                stream_id,
                0,
                payload.len(),
            ),
            payload,
            directional_keys(a.role, a.master_secret, Epoch(a.epoch).spec_next().0).0.key,
            directional_keys(a.role, a.master_secret, Epoch(a.epoch).spec_next().0).0.iv,
        ),
    ensures
        ({
            let sent = send_step(rekey_step(a), stream_id, message_type, flags, payload).1;
            &&& sent is Ok
            &&& recv_step(rekey_step(b), sent->Ok_0, now).1 == Ok::<
                (u8, u32, Seq<u8>),
                TunnelError,
            >((message_type, stream_id, payload))
        }),
{
    lemma_directions_mirror(a.master_secret, Epoch(a.epoch).spec_next().0);
    lemma_sent_record_is_received(
        rekey_step(a),
        rekey_step(b),
        stream_id,
        message_type,
        flags,
        payload,
        now,
    );
}

} // verus!
