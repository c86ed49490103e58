use cryprq::error::{CrypRqConnectionMode, CrypRqErrorCode};
use cryprq::pqc_suite::{PQCKeyExchange, PQCSignature, PQCSuite};

#[test]
fn test_default_suite() {
    let suite = PQCSuite::default();
    assert!(suite.is_post_quantum());
    assert_eq!(suite.kex, PQCKeyExchange::MLKEM768);
}

#[test]
fn test_legacy_suite() {
    let suite = PQCSuite::legacy();
    assert!(!suite.is_post_quantum());
    assert_eq!(suite.kex, PQCKeyExchange::X25519Only);
}

#[test]
fn test_algorithm_names() {
    let suite = PQCSuite::default();
    let (kex, sig) = suite.algorithm_names();
    assert_eq!(kex, "ML-KEM 768");
    assert_eq!(sig, "Ed25519");
}

#[test]
fn high_security_suite_and_all_names() {
    let suite = PQCSuite::high_security();
    assert!(suite.is_post_quantum());
    assert_eq!(suite.algorithm_names(), ("ML-KEM 1024", "Dilithium3"));
    assert_eq!(PQCSuite::legacy().algorithm_names(), ("X25519", "Ed25519"));
    let hash_based = PQCSuite { kex: PQCKeyExchange::MLKEM768, sig: PQCSignature::SPHINCSPlus };
    assert_eq!(hash_based.algorithm_names().1, "SPHINCS+");
    let by_trait: PQCSuite = Default::default();
    assert_eq!(by_trait, PQCSuite::default());
}

#[test]
fn error_codes_have_their_integers() {
    assert!(CrypRqErrorCode::CRYPRQ_OK.is_ok());
    assert!(!CrypRqErrorCode::CRYPRQ_ERR_RUNTIME.is_ok());
    let codes = [
        (CrypRqErrorCode::CRYPRQ_OK, 0u8),
        (CrypRqErrorCode::CRYPRQ_ERR_NULL, 1),
        (CrypRqErrorCode::CRYPRQ_ERR_UTF8, 2),
        (CrypRqErrorCode::CRYPRQ_ERR_INVALID_ARGUMENT, 3),
        (CrypRqErrorCode::CRYPRQ_ERR_ALREADY_CONNECTED, 4),
        (CrypRqErrorCode::CRYPRQ_ERR_UNSUPPORTED, 5),
        (CrypRqErrorCode::CRYPRQ_ERR_RUNTIME, 6),
        (CrypRqErrorCode::CRYPRQ_ERR_INTERNAL, 255),
    ];
    for (code, n) in codes {
        assert_eq!(code.code(), n);
    }
    assert_ne!(
        CrypRqConnectionMode::CRYPRQ_CONNECTION_MODE_LISTEN,
        CrypRqConnectionMode::CRYPRQ_CONNECTION_MODE_DIAL
    );
}
