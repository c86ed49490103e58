use cryprq::epoch::Epoch;
use cryprq::record_layer::{alloc_stream_id, FIRST_STREAM_ID};
use cryprq::seq_counters::{SeqCounters, MAX_NONCE_VALUE};

#[test]
fn crypto_utils_test_epoch_wrapping() {
    let epoch = Epoch::initial();
    assert_eq!(epoch.value(), 0);

    let epoch = epoch.next();
    assert_eq!(epoch.value(), 1);

    let epoch = Epoch(255);
    let epoch = epoch.next();
    assert_eq!(epoch.value(), 0); // Wraps
}

#[test]
fn test_seq_counters() {
    let mut counters = SeqCounters::new();
    assert_eq!(counters.next_vpn(), Ok(0));
    assert_eq!(counters.next_vpn(), Ok(1));
    assert_eq!(counters.next_file(), Ok(0));
    assert_eq!(counters.next_data(), Ok(0));
}

#[test]
fn test_reset() {
    let mut counters = SeqCounters::new();
    let _ = counters.next_vpn();
    let _ = counters.next_file();
    counters.reset();
    assert_eq!(counters.next_vpn(), Ok(0));
    assert_eq!(counters.next_file(), Ok(0));
}

#[test]
fn test_nonce_overflow() {
    let mut counters = SeqCounters::new();
    counters.set_vpn_for_test(MAX_NONCE_VALUE);
    assert!(counters.next_vpn().is_err());
}

#[test]
fn test_max_nonce_value_constant() {
    assert_eq!(MAX_NONCE_VALUE, u64::MAX - 1000);
}

#[test]
fn test_stream_id_allocation() {
    let mut next = FIRST_STREAM_ID;
    let id1 = alloc_stream_id(&mut next);
    let id2 = alloc_stream_id(&mut next);
    assert!(id2 > id1);
}

#[test]
fn vpn_counter_increases_until_the_guard() {
    let mut counters = SeqCounters::new();
    counters.set_vpn_for_test(MAX_NONCE_VALUE - 2);
    assert_eq!(counters.next_vpn(), Ok(MAX_NONCE_VALUE - 2));
    assert_eq!(counters.next_vpn(), Ok(MAX_NONCE_VALUE - 1));
    assert_eq!(counters.next_vpn(), Err(()));
    assert_eq!(counters.next_vpn(), Err(()));
}

#[test]
fn data_and_file_counters_are_guarded_like_the_vpn_counter() {
    let mut counters = SeqCounters::new();
    counters.set_file_for_test(MAX_NONCE_VALUE - 1);
    assert_eq!(counters.next_file(), Ok(MAX_NONCE_VALUE - 1));
    assert_eq!(counters.next_file(), Err(()));
    assert_eq!(counters.next_file(), Err(()));
    counters.set_data_for_test(MAX_NONCE_VALUE);
    assert_eq!(counters.next_data(), Err(()));
    counters.set_data_for_test(u64::MAX);
    assert_eq!(counters.next_data(), Err(()));
    counters.set_data_for_test(7);
    assert_eq!(counters.next_data(), Ok(7));
    assert_eq!(counters.next_data(), Ok(8));
    // The counters are independent.
    assert_eq!(counters.next_vpn(), Ok(0));
    assert_eq!(counters.next_file(), Err(()));
}

#[test]
fn stream_ids_start_at_two_and_wrap() {
    let mut next = FIRST_STREAM_ID;
    assert_eq!(alloc_stream_id(&mut next), 2);
    assert_eq!(alloc_stream_id(&mut next), 3);
    let mut last = u32::MAX;
    assert_eq!(alloc_stream_id(&mut last), u32::MAX);
    assert_eq!(last, 0);
}
