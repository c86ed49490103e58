use cryprq::backoff::{
    compute_backoff_duration, Admission, AllowList, BackoffConfig, BackoffTable,
};

#[test]
fn backoff_doubles_up_to_the_ceiling() {
    assert_eq!(compute_backoff_duration(500, 30_000, 0), 0);
    assert_eq!(compute_backoff_duration(0, 30_000, 5), 0);
    assert_eq!(compute_backoff_duration(500, 30_000, 1), 500);
    assert_eq!(compute_backoff_duration(500, 30_000, 2), 1_000);
    assert_eq!(compute_backoff_duration(500, 30_000, 3), 2_000);
    assert_eq!(compute_backoff_duration(500, 30_000, 6), 16_000);
    assert_eq!(compute_backoff_duration(500, 30_000, 7), 30_000);
    assert_eq!(compute_backoff_duration(500, 30_000, 16), 30_000);
    // Without a ceiling the base is doubled at most 30 times.
    assert_eq!(compute_backoff_duration(1, 0, 31), 1 << 30);
    assert_eq!(compute_backoff_duration(1, 0, 32), 1 << 30);
    assert_eq!(compute_backoff_duration(1, 0, u32::MAX), 1 << 30);
    assert_eq!(compute_backoff_duration(3, 0, 11), 3 * 1024);
    assert_eq!(compute_backoff_duration(u64::MAX, 0, 2), u64::MAX);
    assert_eq!(compute_backoff_duration(u64::MAX, 77, 2), 77);
}

#[test]
fn endpoint_is_held_off_after_failures() {
    let mut table = BackoffTable::new(BackoffConfig::default());
    let peer = b"/ip4/10.0.0.7/tcp/4001";
    let other = b"/ip4/10.0.0.8/tcp/4001";
    assert_eq!(table.allow_incoming(peer, 1_000), Admission::Allowed);

    table.record_failure(peer, 1_000);
    // The first denial is reported, the next ones within a minute are not.
    assert_eq!(
        table.allow_incoming(peer, 1_100),
        Admission::Denied { wait_ms: 400, warn: true }
    );
    assert_eq!(
        table.allow_incoming(peer, 1_499),
        Admission::Denied { wait_ms: 1, warn: false }
    );
    assert_eq!(table.allow_incoming(other, 1_100), Admission::Allowed);
    // When the time has come the endpoint is let in and its failures are forgotten.
    assert_eq!(table.allow_incoming(peer, 1_500), Admission::Allowed);
    table.record_failure(peer, 2_000);
    assert_eq!(
        table.allow_incoming(peer, 2_000),
        Admission::Denied { wait_ms: 500, warn: true }
    );

    // Failures in a row double the wait.
    table.record_failure(peer, 2_000);
    table.record_failure(peer, 2_000);
    assert_eq!(
        table.allow_incoming(peer, 2_000),
        Admission::Denied { wait_ms: 2_000, warn: true }
    );
    for _ in 0..40 {
        table.record_failure(peer, 5_000);
    }
    assert_eq!(
        table.allow_incoming(peer, 5_000),
        Admission::Denied { wait_ms: 30_000, warn: true }
    );
    table.clear_backoff_for(peer);
    assert_eq!(table.allow_incoming(peer, 5_000), Admission::Allowed);
    table.clear_backoff_for(peer);
}

#[test]
fn denial_is_reported_again_after_a_minute() {
    let mut table = BackoffTable::new(BackoffConfig { base_ms: 1_000_000, max_ms: 0 });
    let peer = b"peer";
    table.record_failure(peer, 0);
    assert_eq!(
        table.allow_incoming(peer, 10),
        Admission::Denied { wait_ms: 999_990, warn: true }
    );
    assert_eq!(
        table.allow_incoming(peer, 60_010),
        Admission::Denied { wait_ms: 939_990, warn: false }
    );
    assert_eq!(
        table.allow_incoming(peer, 60_011),
        Admission::Denied { wait_ms: 939_989, warn: true }
    );
    table.record_failure(peer, u64::MAX - 5);
    assert_eq!(
        table.allow_incoming(peer, u64::MAX - 1),
        Admission::Denied { wait_ms: 1, warn: true }
    );
    assert_eq!(table.allow_incoming(peer, u64::MAX), Admission::Allowed);
}

#[test]
fn allow_list_lets_listed_peers_in() {
    let mut list = AllowList::new();
    assert!(list.peer_is_allowed(b"anyone"));
    list.set_allowed_peers(vec![b"12D3KooWalice".to_vec(), b"12D3KooWbob".to_vec()]);
    assert!(list.peer_is_allowed(b"12D3KooWalice"));
    assert!(list.peer_is_allowed(b"12D3KooWbob"));
    assert!(!list.peer_is_allowed(b"12D3KooWeve"));
    assert!(!list.peer_is_allowed(b""));
    list.set_allowed_peers(Vec::new());
    assert!(list.peer_is_allowed(b"12D3KooWeve"));
}
