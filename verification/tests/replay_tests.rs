use cryprq::error::TunnelError;
use cryprq::replay::ReplayWindow;

#[test]
fn test_replay_window_sequential() {
    let mut window = ReplayWindow::new();

    // Accept sequential nonces
    assert!(window.check_and_update(1).is_ok());
    assert!(window.check_and_update(2).is_ok());
    assert!(window.check_and_update(3).is_ok());

    // Reject replay of nonce 2
    assert!(matches!(window.check_and_update(2), Err(TunnelError::ReplayDetected)));
}

#[test]
fn test_replay_window_out_of_order() {
    let mut window = ReplayWindow::new();

    // Accept out-of-order within window
    assert!(window.check_and_update(100).is_ok());
    assert!(window.check_and_update(99).is_ok());
    assert!(window.check_and_update(50).is_ok());

    // Reject replays
    assert!(matches!(window.check_and_update(100), Err(TunnelError::ReplayDetected)));
    assert!(matches!(window.check_and_update(50), Err(TunnelError::ReplayDetected)));
}

#[test]
fn test_replay_window_old_nonces() {
    let mut window = ReplayWindow::new();

    // Accept nonce 3000
    assert!(window.check_and_update(3000).is_ok());

    // Nonce 900 is outside window (3000 - 2048 = 952), should be rejected
    assert!(matches!(window.check_and_update(900), Err(TunnelError::ReplayDetected)));

    // Nonce 1000 is within window (3000 - 1000 = 2000 < 2048)
    assert!(window.check_and_update(1000).is_ok());
}

#[test]
fn test_replay_window_large_gap() {
    let mut window = ReplayWindow::new();

    assert!(window.check_and_update(100).is_ok());

    // Large gap clears window
    assert!(window.check_and_update(5000).is_ok());

    // Old nonce rejected
    assert!(matches!(window.check_and_update(100), Err(TunnelError::ReplayDetected)));
}

#[test]
fn replay_window_reordering_within_the_window() {
    let mut window = ReplayWindow::new();
    for seq in [12u64, 10, 13, 11] {
        assert!(window.check_and_update(seq).is_ok());
    }
    assert_eq!(window.peak(), 13);
    for seq in [10u64, 11, 12, 13] {
        assert!(matches!(window.check_and_update(seq), Err(TunnelError::ReplayDetected)));
    }
}

#[test]
fn replay_window_edges() {
    let mut window = ReplayWindow::new();
    assert!(window.check_and_update(0).is_ok());
    assert!(window.check_and_update(0).is_err());
    assert!(window.check_and_update(4000).is_ok());
    // 2047 below the peak is the oldest tracked number, 2048 below is out.
    assert!(window.check_and_update(4000 - 2047).is_ok());
    assert!(window.check_and_update(4000 - 2047).is_err());
    assert!(window.check_and_update(4000 - 2048).is_err());
    // Shifts that cross word boundaries keep what was seen.
    assert!(window.check_and_update(4000 + 63).is_ok());
    assert!(window.check_and_update(4000 + 64 + 65).is_ok());
    assert!(window.check_and_update(4000).is_err());
    assert!(window.check_and_update(4063).is_err());
    assert!(window.check_and_update(4000 - 2047 + 129).is_ok());
    assert!(window.check_and_update(4001).is_ok());
    assert!(window.check_and_update(u64::MAX).is_ok());
    assert!(window.check_and_update(u64::MAX).is_err());
    assert!(window.check_and_update(u64::MAX - 2047).is_ok());
    assert!(window.check_and_update(4001).is_err());
}

#[test]
fn replay_window_agrees_with_a_set() {
    let mut window = ReplayWindow::new();
    let mut seen: Vec<u64> = Vec::new();
    let mut peak = 0u64;
    let mut x = 12345u64;
    for _ in 0..20000 {
        x = x.wrapping_mul(6364136223846793005).wrapping_add(1442695040888963407);
        let jump = (x >> 33) % 7;
        let seq = if jump == 0 {
            peak + (x >> 40) % 3000
        } else {
            peak.saturating_sub((x >> 40) % 2500)
        };
        let expected = if seq > peak {
            true
        } else {
            peak - seq < 2048 && !seen.contains(&seq)
        };
        assert_eq!(window.check_and_update(seq).is_ok(), expected, "seq {seq} peak {peak}");
        if expected {
            if seq > peak {
                peak = seq;
            }
            seen.push(seq);
            seen.retain(|s| peak - *s < 2048);
        }
    }
}
