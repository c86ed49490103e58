//! Rotation of the local KEM key pair.

use crate::error::P2PError;
use crate::handshake::make_kyber_keys;
use crate::kem::{is_key_pair, KEM_PUBLIC_KEY_SIZE, KEM_SECRET_KEY_SIZE};
use crate::ppk::{expired, one_per_peer, PPKStore, PskModel};
use vstd::prelude::*;

verus! {

/// The current KEM key pair and the number of rotations so far.
pub struct KeyRotation {
    keys: Option<(Vec<u8>, Vec<u8>)>,
    rotations: u64,
}

impl KeyRotation {
    /// The current public key, once there is one.
    pub closed spec fn public_key(&self) -> Option<Seq<u8>> {
        match self.keys {
            Some(pair) => Some(pair.0@),
            None => None,
        }
    }

    /// The current secret key, once there is one.
    pub closed spec fn secret_key(&self) -> Option<Seq<u8>> {
        match self.keys {
            Some(pair) => Some(pair.1@),
            None => None,
        }
    }

    /// The number of rotations so far.
    pub closed spec fn rotations(&self) -> u64 {
        self.rotations
    }

    /// A state without key pair.
    pub fn new() -> (r: Self)
        ensures
            r.public_key() is None,
            r.secret_key() is None,
            r.rotations() == 0,
    {
        Self { keys: None, rotations: 0 }
    }

    /// The current public key; `NotInitialized` before the first rotation.
    pub fn get_current_pk(&self) -> (res: Result<&Vec<u8>, P2PError>)
        ensures
            match self.public_key() {
                Some(pk) => res is Ok && res.unwrap()@ == pk,
                None => res is Err && res->Err_0 == P2PError::NotInitialized,
            },
    {
        match &self.keys {
            Some(pair) => Ok(&pair.0),
            None => Err(P2PError::NotInitialized),
        }
    }

    /// Draws a fresh key pair in place of the current one and drops the pre-shared keys that
    /// have expired at `now_secs`. Returns the number of rotations, which saturates.
    pub fn rotate_once(&mut self, store: &mut PPKStore, now_secs: u64) -> (count: u64)
        ensures
            final(self).public_key() is Some,
            final(self).public_key().unwrap().len() == KEM_PUBLIC_KEY_SIZE,
            final(self).secret_key() is Some,
            final(self).secret_key().unwrap().len() == KEM_SECRET_KEY_SIZE,
            is_key_pair(final(self).public_key().unwrap(), final(self).secret_key().unwrap()),
            count == final(self).rotations(),
            count == if old(self).rotations() == u64::MAX {
                u64::MAX
            } else {
                (old(self).rotations() + 1) as u64
            },
            final(store)@ == old(store)@.filter(|p: PskModel| !expired(p, now_secs)),
            one_per_peer(old(store)@) ==> one_per_peer(final(store)@),
    {
        let (pk, sk) = make_kyber_keys();
        self.keys = Some((pk, sk));
        store.cleanup_expired(now_secs);
        if self.rotations < u64::MAX {
            self.rotations = self.rotations + 1;
        }
        self.rotations
    }
}

} // verus!
