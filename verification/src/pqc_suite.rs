//! The choice of key-exchange and signature algorithms.

use vstd::prelude::*;

verus! {

/// Key-exchange algorithms.
#[allow(non_camel_case_types)]
#[derive(Debug, Clone, Copy, PartialEq, Eq, Structural)]
pub enum PQCKeyExchange {
    /// ML-KEM 768, the default.
    MLKEM768,
    /// ML-KEM 1024: higher security, larger keys.
    MLKEM1024,
    /// X25519 alone: classical, not post-quantum.
    X25519Only,
}

/// Signature algorithms.
#[derive(Debug, Clone, Copy, PartialEq, Eq, Structural)]
pub enum PQCSignature {
    /// Ed25519: classical, not post-quantum.
    Ed25519,
    /// Dilithium3: post-quantum.
    Dilithium3,
    /// SPHINCS+: hash-based.
    SPHINCSPlus,
}

/// A key-exchange algorithm together with a signature algorithm.
#[derive(Debug, Clone, Copy, PartialEq, Eq, Structural)]
pub struct PQCSuite {
    pub kex: PQCKeyExchange,
    pub sig: PQCSignature,
}

/// The display name of a key-exchange algorithm.
pub open spec fn kex_name(kex: PQCKeyExchange) -> Seq<char> {
    match kex {
        PQCKeyExchange::MLKEM768 => "ML-KEM 768"@,
        PQCKeyExchange::MLKEM1024 => "ML-KEM 1024"@,
        PQCKeyExchange::X25519Only => "X25519"@,
    }
}

/// The display name of a signature algorithm.
pub open spec fn sig_name(sig: PQCSignature) -> Seq<char> {
    match sig {
        PQCSignature::Ed25519 => "Ed25519"@,
        PQCSignature::Dilithium3 => "Dilithium3"@,
        PQCSignature::SPHINCSPlus => "SPHINCS+"@,
    }
}

impl PQCSuite {
    /// The default suite: ML-KEM 768 with Ed25519 signatures.
    pub fn default() -> (s: Self)
        ensures
            s == (PQCSuite { kex: PQCKeyExchange::MLKEM768, sig: PQCSignature::Ed25519 }),
    {
        Self { kex: PQCKeyExchange::MLKEM768, sig: PQCSignature::Ed25519 }
    }

    /// The high-security suite: ML-KEM 1024 with Dilithium3 signatures.
    pub fn high_security() -> (s: Self)
        ensures
            s == (PQCSuite { kex: PQCKeyExchange::MLKEM1024, sig: PQCSignature::Dilithium3 }),
    {
        Self { kex: PQCKeyExchange::MLKEM1024, sig: PQCSignature::Dilithium3 }
    }

    /// The legacy suite: X25519 alone with Ed25519 signatures.
    pub fn legacy() -> (s: Self)
        ensures
            s == (PQCSuite { kex: PQCKeyExchange::X25519Only, sig: PQCSignature::Ed25519 }),
    {
        Self { kex: PQCKeyExchange::X25519Only, sig: PQCSignature::Ed25519 }
    }

    /// Whether the key exchange is post-quantum.
    pub fn is_post_quantum(&self) -> (pq: bool)
        ensures
            pq == (self.kex != PQCKeyExchange::X25519Only),
    {
        matches!(self.kex, PQCKeyExchange::MLKEM768 | PQCKeyExchange::MLKEM1024)
    }

    /// The display names of the key-exchange and of the signature algorithm.
    pub fn algorithm_names(&self) -> (names: (&'static str, &'static str))
        ensures
            names.0@ == kex_name(self.kex),
            names.1@ == sig_name(self.sig),
    {
        let kex_name = match self.kex {
            PQCKeyExchange::MLKEM768 => "ML-KEM 768",
            PQCKeyExchange::MLKEM1024 => "ML-KEM 1024",
            PQCKeyExchange::X25519Only => "X25519",
        };
        let sig_name = match self.sig {
            PQCSignature::Ed25519 => "Ed25519",
            PQCSignature::Dilithium3 => "Dilithium3",
            PQCSignature::SPHINCSPlus => "SPHINCS+",
        };
        (kex_name, sig_name)
    }
}

impl Default for PQCSuite {
    fn default() -> (s: Self)
        ensures
            s == (PQCSuite { kex: PQCKeyExchange::MLKEM768, sig: PQCSignature::Ed25519 }),
    {
        Self { kex: PQCKeyExchange::MLKEM768, sig: PQCSignature::Ed25519 }
    }
}

} // verus!
