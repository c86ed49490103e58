//! Core of a post-quantum authenticated encrypted transport between two peers.
//!
//! A handshake ([`handshake`], [`tunnel::create_tunnel`]) binds a peer's KEM key to its
//! identity and derives a master secret from an ML-KEM-768 secret and an X25519 secret. The
//! key schedule ([`kdf`]) derives the keys of each direction and epoch from it. The record
//! layer ([`record`], [`record_layer`], [`nonce`]) frames payloads as AEAD records with the
//! header as associated data. A session ([`tunnel`]) draws sequence numbers
//! ([`seq_counters`]), limits the rate of what it receives ([`rate_limit`]), rejects replays
//! ([`replay`]), routes what it receives, assembles incoming files ([`file_transfer`]) and
//! rotates its keys.
//!
//! The library does no I/O: it turns payloads into datagrams and datagrams into deliveries.
//! The outside primitives stand behind small trusted functions in [`aead`], [`kdf`],
//! [`signature`], [`dh`], [`kem`], [`hash`], [`random`], [`wipe`] and [`buffer_pool`].

pub mod addr;
pub mod aead;
pub mod backoff;
pub mod buffer_pool;
pub mod device_id;
pub mod dh;
pub mod endian;
pub mod epoch;
pub mod error;
pub mod file_transfer;
pub mod framing;
pub mod handshake;
pub mod hash;
pub mod kdf;
pub mod kem;
pub mod nonce;
pub mod padding;
pub mod ppk;
pub mod pqc_suite;
pub mod random;
pub mod rate_limit;
pub mod record;
pub mod record_layer;
pub mod replay;
pub mod rotation;
pub mod seq_counters;
pub mod session_laws;
pub mod signature;
pub mod tun;
pub mod tunnel;
pub mod util;
pub mod wipe;
pub mod zkp;
