//! Error kinds of the transport and the integer codes of its foreign-callable surface.

use crate::file_transfer::FileTransferError;
use vstd::prelude::*;
use vstd::string::StringExecFns;

verus! {

/// What can go wrong in a session.
#[derive(Debug)]
pub enum TunnelError {
    /// An internal invariant was broken while shared state was held.
    LockPoisoned(String),
    /// The AEAD refused to encrypt.
    EncryptionFailed,
    /// AEAD authentication failed.
    DecryptionFailed,
    /// A packet carried a malformed nonce.
    InvalidNonce,
    /// A send-class counter came within 1000 of its maximum.
    NonceOverflow,
    /// A sequence number was seen before or lies below the window.
    ReplayDetected,
    /// The token bucket is empty.
    RateLimitExceeded,
    /// The signature on the remote KEM key does not verify.
    InvalidPeerIdentity,
    /// A KEM or DH primitive failed.
    HandshakeFailed(String),
    /// Socket I/O failed.
    NetworkError(String),
    /// An output sink failed.
    IoError(String),
    /// A record's header version or length is invalid.
    InvalidRecord,
    /// A file-transfer packet was refused or a transfer failed.
    FileTransferFailed(FileTransferError),
}

/// What a file-transfer failure is called in a message.
pub open spec fn file_error_text(e: FileTransferError) -> Seq<char> {
    match e {
        FileTransferError::PacketTooShort => "packet too short"@,
        FileTransferError::InvalidPacketType => "invalid packet type"@,
        FileTransferError::InvalidFilename => "invalid UTF-8 in filename"@,
        FileTransferError::UnknownStream => "no incoming transfer for the stream"@,
        FileTransferError::HashMismatch => "file hash mismatch"@,
        FileTransferError::MissingMetadata => "end of file without metadata"@,
        FileTransferError::MissingChunk(_) => "missing chunk"@,
        FileTransferError::UnknownPacketType => "unknown packet type"@,
    }
}

impl TunnelError {
    /// The message that describes the error.
    pub open spec fn spec_message(&self) -> Seq<char> {
        match *self {
            TunnelError::LockPoisoned(msg) => "Lock poisoned: "@ + msg@,
            TunnelError::EncryptionFailed => "Packet encryption failed"@,
            TunnelError::DecryptionFailed => "Packet decryption failed"@,
            TunnelError::InvalidNonce => "Invalid nonce in packet"@,
            TunnelError::NonceOverflow => "Nonce counter overflow - key rotation required"@,
            TunnelError::ReplayDetected => "Replay attack detected - nonce already seen"@,
            TunnelError::RateLimitExceeded => "Rate limit exceeded - too many packets"@,
            TunnelError::InvalidPeerIdentity => "Peer identity verification failed"@,
            TunnelError::HandshakeFailed(msg) => "Handshake failed: "@ + msg@,
            TunnelError::NetworkError(msg) => "Network error: "@ + msg@,
            TunnelError::IoError(msg) => "I/O error: "@ + msg@,
            TunnelError::InvalidRecord => "Invalid record"@,
            TunnelError::FileTransferFailed(e) => "File transfer failed: "@ + file_error_text(e),
        }
    }

    /// The message that describes the error.
    pub fn message(&self) -> (text: String)
        ensures
            text@ == self.spec_message(),
    {
        match self {
            TunnelError::LockPoisoned(msg) => String::from_str("Lock poisoned: ").concat(
                msg.as_str(),
            ),
            TunnelError::EncryptionFailed => String::from_str("Packet encryption failed"),
            TunnelError::DecryptionFailed => String::from_str("Packet decryption failed"),
            TunnelError::InvalidNonce => String::from_str("Invalid nonce in packet"),
            TunnelError::NonceOverflow => String::from_str(
                "Nonce counter overflow - key rotation required",
            ),
            TunnelError::ReplayDetected => String::from_str(
                "Replay attack detected - nonce already seen",
            ),
            TunnelError::RateLimitExceeded => String::from_str(
                "Rate limit exceeded - too many packets",
            ),
            TunnelError::InvalidPeerIdentity => String::from_str(
                "Peer identity verification failed",
            ),
            TunnelError::HandshakeFailed(msg) => String::from_str("Handshake failed: ").concat(
                msg.as_str(),
            ),
            TunnelError::NetworkError(msg) => String::from_str("Network error: ").concat(
                msg.as_str(),
            ),
            TunnelError::IoError(msg) => String::from_str("I/O error: ").concat(msg.as_str()),
            TunnelError::InvalidRecord => String::from_str("Invalid record"),
            TunnelError::FileTransferFailed(e) => {
                let kind = match e {
                    FileTransferError::PacketTooShort => "packet too short",
                    FileTransferError::InvalidPacketType => "invalid packet type",
                    FileTransferError::InvalidFilename => "invalid UTF-8 in filename",
                    FileTransferError::UnknownStream => "no incoming transfer for the stream",
                    FileTransferError::HashMismatch => "file hash mismatch",
                    FileTransferError::MissingMetadata => "end of file without metadata",
                    FileTransferError::MissingChunk(_) => "missing chunk",
                    FileTransferError::UnknownPacketType => "unknown packet type",
                };
                String::from_str("File transfer failed: ").concat(kind)
            },
        }
    }
}

/// What can go wrong in the overlay that finds and dials peers.
#[derive(Debug)]
pub enum P2PError {
    /// Shared state was poisoned.
    LockPoisoned(String),
    /// A peer id does not parse.
    InvalidPeerId,
    /// A peer could not be dialed.
    DialFailed(String),
    /// Key generation failed.
    KeyGenFailed(String),
    /// No key pair was drawn yet.
    NotInitialized,
}

impl P2PError {
    /// The message that describes the error.
    pub open spec fn spec_message(&self) -> Seq<char> {
        match *self {
            P2PError::LockPoisoned(msg) => "Lock poisoned: "@ + msg@,
            P2PError::InvalidPeerId => "Invalid peer ID format"@,
            P2PError::DialFailed(msg) => "Failed to dial peer: "@ + msg@,
            P2PError::KeyGenFailed(msg) => "Key generation failed: "@ + msg@,
            P2PError::NotInitialized => "Keys not initialized"@,
        }
    }

    /// The message that describes the error.
    pub fn message(&self) -> (text: String)
        ensures
            text@ == self.spec_message(),
    {
        match self {
            P2PError::LockPoisoned(msg) => String::from_str("Lock poisoned: ").concat(
                msg.as_str(),
            ),
            P2PError::InvalidPeerId => String::from_str("Invalid peer ID format"),
            P2PError::DialFailed(msg) => String::from_str("Failed to dial peer: ").concat(
                msg.as_str(),
            ),
            P2PError::KeyGenFailed(msg) => String::from_str("Key generation failed: ").concat(
                msg.as_str(),
            ),
            P2PError::NotInitialized => String::from_str("Keys not initialized"),
        }
    }
}

/// Result codes of the foreign-callable interface.
#[allow(non_camel_case_types)]
#[derive(Debug, Copy, Clone, PartialEq, Eq, Structural)]
pub enum CrypRqErrorCode {
    CRYPRQ_OK,
    CRYPRQ_ERR_NULL,
    CRYPRQ_ERR_UTF8,
    CRYPRQ_ERR_INVALID_ARGUMENT,
    CRYPRQ_ERR_ALREADY_CONNECTED,
    CRYPRQ_ERR_UNSUPPORTED,
    CRYPRQ_ERR_RUNTIME,
    CRYPRQ_ERR_INTERNAL,
}

impl CrypRqErrorCode {
    /// The integer that stands for this code across the foreign-function boundary.
    pub open spec fn spec_code(self) -> u8 {
        match self {
            CrypRqErrorCode::CRYPRQ_OK => 0,
            CrypRqErrorCode::CRYPRQ_ERR_NULL => 1,
            CrypRqErrorCode::CRYPRQ_ERR_UTF8 => 2,
            CrypRqErrorCode::CRYPRQ_ERR_INVALID_ARGUMENT => 3,
            CrypRqErrorCode::CRYPRQ_ERR_ALREADY_CONNECTED => 4,
            CrypRqErrorCode::CRYPRQ_ERR_UNSUPPORTED => 5,
            CrypRqErrorCode::CRYPRQ_ERR_RUNTIME => 6,
            CrypRqErrorCode::CRYPRQ_ERR_INTERNAL => 255,
        }
    }

    /// Whether this code reports success.
    pub fn is_ok(self) -> (ok: bool)
        ensures
            ok == (self == CrypRqErrorCode::CRYPRQ_OK),
            ok == (self.spec_code() == 0),
    {
        matches!(self, CrypRqErrorCode::CRYPRQ_OK)
    }

    /// The integer that stands for this code.
    pub fn code(self) -> (c: u8)
        ensures
            c == self.spec_code(),
    {
        match self {
            CrypRqErrorCode::CRYPRQ_OK => 0,
            CrypRqErrorCode::CRYPRQ_ERR_NULL => 1,
            CrypRqErrorCode::CRYPRQ_ERR_UTF8 => 2,
            CrypRqErrorCode::CRYPRQ_ERR_INVALID_ARGUMENT => 3,
            CrypRqErrorCode::CRYPRQ_ERR_ALREADY_CONNECTED => 4,
            CrypRqErrorCode::CRYPRQ_ERR_UNSUPPORTED => 5,
            CrypRqErrorCode::CRYPRQ_ERR_RUNTIME => 6,
            CrypRqErrorCode::CRYPRQ_ERR_INTERNAL => 255,
        }
    }
}

/// How the foreign-callable interface is asked to reach a peer.
#[allow(non_camel_case_types)]
#[derive(Debug, Copy, Clone, PartialEq, Eq, Structural)]
pub enum CrypRqConnectionMode {
    CRYPRQ_CONNECTION_MODE_LISTEN,
    CRYPRQ_CONNECTION_MODE_DIAL,
}

} // verus!
