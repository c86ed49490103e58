//! Length-prefixed framing of requests and responses on a byte stream: a 32-bit big-endian
//! length, then that many bytes.

use crate::endian::{lemma_u32_be_roundtrip, read_u32_be, u32_be_bytes, u32_from_be_bytes, u32_to_be};
use vstd::prelude::*;
use vstd::slice::{slice_subrange, slice_to_vec};

verus! {

/// Largest file-transfer request: 10 MiB.
pub const MAX_FILE_REQUEST: usize = 10485760;

/// Largest file-transfer response: an acknowledgment is small.
pub const MAX_FILE_RESPONSE: usize = 1024;

/// Largest packet in either direction.
pub const MAX_PACKET: usize = 65535;

/// Why a frame was not read.
#[derive(Debug, Clone, Copy, PartialEq, Eq, Structural)]
pub enum FrameError {
    /// The stream ends before the frame does.
    UnexpectedEof,
    /// The frame announces more bytes than are taken.
    TooLarge,
}

/// A frame around `payload`: its length in four bytes, big-endian, then the payload.
pub open spec fn framed(payload: Seq<u8>) -> Seq<u8> {
    u32_be_bytes(payload.len() as u32) + payload
}

/// What reading one frame of at most `max` bytes from the front of `input` yields: the
/// payload and the number of bytes taken.
pub open spec fn parse_frame(input: Seq<u8>, max: nat) -> Result<(Seq<u8>, nat), FrameError> {
    if input.len() < 4 {
        Err(FrameError::UnexpectedEof)
    } else {
        let len = u32_from_be_bytes(input.subrange(0, 4)) as int;
        if len > max {
            Err(FrameError::TooLarge)
        } else if input.len() < 4 + len {
            Err(FrameError::UnexpectedEof)
        } else {
            Ok((input.subrange(4, 4 + len), (4 + len) as nat))
        }
    }
}

/// A frame of at most `max` bytes is read back as it was written, whatever follows it.
pub proof fn lemma_frame_roundtrip(payload: Seq<u8>, rest: Seq<u8>, max: nat)
    requires
        payload.len() <= max,
        payload.len() <= u32::MAX,
    ensures
        parse_frame(framed(payload) + rest, max) == Ok::<(Seq<u8>, nat), FrameError>(
            (payload, 4 + payload.len()),
        ),
{
    let input = framed(payload) + rest;
    lemma_u32_be_roundtrip(payload.len() as u32);
    assert(input.subrange(0, 4) =~= u32_be_bytes(payload.len() as u32));
    assert(input.subrange(4, 4 + payload.len() as int) =~= payload);
}

/// Appends a frame around `payload` to `out`.
fn write_frame(out: &mut Vec<u8>, payload: &[u8])
    requires
        payload@.len() <= u32::MAX,
    ensures
        final(out)@ == old(out)@ + framed(payload@),
{
    let len = u32_to_be(payload.len() as u32);
    out.extend_from_slice(len.as_slice());
    out.extend_from_slice(payload);
    assert(out@ =~= old(out)@ + framed(payload@));
}

/// Reads one frame of at most `max` bytes from the front of `input`.
fn read_frame(input: &[u8], max: usize) -> (res: Result<(Vec<u8>, usize), FrameError>)
    ensures
        match parse_frame(input@, max as nat) {
            Ok((payload, taken)) => res is Ok && res.unwrap().0@ == payload && res.unwrap().1
                == taken,
            Err(e) => res is Err && res->Err_0 == e,
        },
{
    if input.len() < 4 {
        return Err(FrameError::UnexpectedEof);
    }
    let len = read_u32_be(input, 0) as usize;
    if len > max {
        return Err(FrameError::TooLarge);
    }
    if input.len() - 4 < len {
        return Err(FrameError::UnexpectedEof);
    }
    Ok((slice_to_vec(slice_subrange(input, 4, 4 + len)), 4 + len))
}

/// Framing of file-transfer requests and responses.
#[derive(Debug, Clone, Copy, Default)]
pub struct FileTransferCodec;

impl FileTransferCodec {
    /// Reads a request of at most 10 MiB from the front of `input`.
    pub fn read_request(&self, input: &[u8]) -> (res: Result<(Vec<u8>, usize), FrameError>)
        ensures
            match parse_frame(input@, MAX_FILE_REQUEST as nat) {
                Ok((payload, taken)) => res is Ok && res.unwrap().0@ == payload && res.unwrap().1
                    == taken,
                Err(e) => res is Err && res->Err_0 == e,
            },
    {
        read_frame(input, MAX_FILE_REQUEST)
    }

    /// Reads a response of at most 1024 bytes from the front of `input`.
    pub fn read_response(&self, input: &[u8]) -> (res: Result<(Vec<u8>, usize), FrameError>)
        ensures
            match parse_frame(input@, MAX_FILE_RESPONSE as nat) {
                Ok((payload, taken)) => res is Ok && res.unwrap().0@ == payload && res.unwrap().1
                    == taken,
                Err(e) => res is Err && res->Err_0 == e,
            },
    {
        read_frame(input, MAX_FILE_RESPONSE)
    }

    /// Appends a request to `out`.
    pub fn write_request(&self, out: &mut Vec<u8>, req: &[u8])
        requires
            req@.len() <= u32::MAX,
        ensures
            final(out)@ == old(out)@ + framed(req@),
    {
        write_frame(out, req)
    }

    /// Appends a response to `out`.
    pub fn write_response(&self, out: &mut Vec<u8>, res: &[u8])
        requires
            res@.len() <= u32::MAX,
        ensures
            final(out)@ == old(out)@ + framed(res@),
    {
        write_frame(out, res)
    }
}

/// Framing of forwarded packets.
#[derive(Debug, Clone, Copy, Default)]
pub struct PacketCodec;

impl PacketCodec {
    /// Reads a request of at most 65535 bytes from the front of `input`.
    pub fn read_request(&self, input: &[u8]) -> (res: Result<(Vec<u8>, usize), FrameError>)
        ensures
            match parse_frame(input@, MAX_PACKET as nat) {
                Ok((payload, taken)) => res is Ok && res.unwrap().0@ == payload && res.unwrap().1
                    == taken,
                Err(e) => res is Err && res->Err_0 == e,
            },
    {
        read_frame(input, MAX_PACKET)
    }

    /// Reads a response of at most 65535 bytes from the front of `input`.
    pub fn read_response(&self, input: &[u8]) -> (res: Result<(Vec<u8>, usize), FrameError>)
        ensures
            match parse_frame(input@, MAX_PACKET as nat) {
                Ok((payload, taken)) => res is Ok && res.unwrap().0@ == payload && res.unwrap().1
                    == taken,
                Err(e) => res is Err && res->Err_0 == e,
            },
    {
        read_frame(input, MAX_PACKET)
    }

    /// Appends a request to `out`.
    pub fn write_request(&self, out: &mut Vec<u8>, req: &[u8])
        requires
            req@.len() <= u32::MAX,
        ensures
            final(out)@ == old(out)@ + framed(req@),
    {
        write_frame(out, req)
    }

    /// Appends a response to `out`.
    pub fn write_response(&self, out: &mut Vec<u8>, res: &[u8])
        requires
            res@.len() <= u32::MAX,
        ensures
            final(out)@ == old(out)@ + framed(res@),
    {
        write_frame(out, res)
    }
}

} // verus!
