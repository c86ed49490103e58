use cryprq::addr::{netmask_to_cidr, parse_number, parse_udp_addr, split_bytes, AddrError};
use cryprq::error::{P2PError, TunnelError};
use cryprq::file_transfer::FileTransferError;
use cryprq::tun::{TunConfig, TunInterface};

#[test]
fn udp_address_is_read_from_a_multiaddress() {
    assert_eq!(
        parse_udp_addr("/ip4/0.0.0.0/udp/20440/quic-v1"),
        Ok((b"0.0.0.0".to_vec(), 20440))
    );
    assert_eq!(parse_udp_addr("/ip4/192.168.1.7/udp/51820"), Ok((b"192.168.1.7".to_vec(), 51820)));
    assert_eq!(parse_udp_addr("/udp/9"), Ok((b"0.0.0.0".to_vec(), 9)));
    assert_eq!(parse_udp_addr("udp/+65535"), Ok((b"0.0.0.0".to_vec(), 65535)));
    assert_eq!(parse_udp_addr("/udp/0080/ip4/1.2.3.4"), Ok((b"1.2.3.4".to_vec(), 80)));
    // The last of several parts counts.
    assert_eq!(
        parse_udp_addr("/ip4/1.1.1.1/udp/1/ip4/2.2.2.2/udp/2"),
        Ok((b"2.2.2.2".to_vec(), 2))
    );
    assert_eq!(parse_udp_addr("/ip4/udp/7"), Ok((b"udp".to_vec(), 7)));
}

#[test]
fn udp_address_errors() {
    assert_eq!(parse_udp_addr(""), Err(AddrError::NoUdpPort));
    assert_eq!(parse_udp_addr("/ip4/10.0.0.1/tcp/4001"), Err(AddrError::NoUdpPort));
    assert_eq!(parse_udp_addr("/ip4/10.0.0.1/udp"), Err(AddrError::NoUdpPort));
    assert_eq!(parse_udp_addr("/ip4/10.0.0.1/udp/"), Err(AddrError::InvalidUdpPort));
    assert_eq!(parse_udp_addr("/ip4/10.0.0.1/udp/65536"), Err(AddrError::InvalidUdpPort));
    assert_eq!(parse_udp_addr("/ip4/10.0.0.1/udp/-1"), Err(AddrError::InvalidUdpPort));
    assert_eq!(parse_udp_addr("/ip4/10.0.0.1/udp/12a"), Err(AddrError::InvalidUdpPort));
    assert_eq!(parse_udp_addr("/ip4/10.0.0.1/udp/+"), Err(AddrError::InvalidUdpPort));
    assert_eq!(parse_udp_addr("/udp/x/udp/5"), Err(AddrError::InvalidUdpPort));
    assert_eq!(parse_udp_addr("/udp/99999999999999999999"), Err(AddrError::InvalidUdpPort));
}

#[test]
fn text_is_split_at_every_separator() {
    assert_eq!(split_bytes(b"", b'/'), vec![Vec::<u8>::new()]);
    assert_eq!(split_bytes(b"abc", b'/'), vec![b"abc".to_vec()]);
    assert_eq!(
        split_bytes(b"/a//b/", b'/'),
        vec![vec![], b"a".to_vec(), vec![], b"b".to_vec(), vec![]]
    );
}

#[test]
fn numbers_are_read_as_the_standard_library_reads_them() {
    for text in ["0", "7", "007", "+7", "255", "256", "", "+", "-1", " 1", "1 ", "65535", "0x10"] {
        assert_eq!(
            parse_number(text.as_bytes(), 255),
            text.parse::<u8>().ok().map(u32::from),
            "{text:?}"
        );
        assert_eq!(
            parse_number(text.as_bytes(), 65535),
            text.parse::<u16>().ok().map(u32::from),
            "{text:?}"
        );
    }
}

#[test]
fn numbers_up_to_any_bound() {
    assert_eq!(parse_number(b"4294967295", u32::MAX), Some(u32::MAX));
    assert_eq!(parse_number(b"4294967296", u32::MAX), None);
    assert_eq!(parse_number(b"000000000000000000001", 1), Some(1));
    assert_eq!(parse_number(b"70000", 70000), Some(70000));
    assert_eq!(parse_number(b"70001", 70000), None);
    assert_eq!(parse_number(b"0", 0), Some(0));
    assert_eq!(parse_number(b"1", 0), None);
}

#[test]
fn netmask_gives_its_prefix_length() {
    assert_eq!(netmask_to_cidr("255.255.255.0"), Ok(24));
    assert_eq!(netmask_to_cidr("255.255.255.255"), Ok(32));
    assert_eq!(netmask_to_cidr("0.0.0.0"), Ok(0));
    assert_eq!(netmask_to_cidr("255.255.240.0"), Ok(20));
    assert_eq!(netmask_to_cidr("255.128.0.0"), Ok(9));
    // The one bits are counted wherever they stand.
    assert_eq!(netmask_to_cidr("1.2.4.8"), Ok(4));
    for bad in ["", "255.255.255", "255.255.255.0.0", "255.255.256.0", "255.255..0", "a.b.c.d"] {
        assert_eq!(netmask_to_cidr(bad), Err(AddrError::InvalidNetmask), "{bad:?}");
    }
}

#[test]
fn tun_interface_goes_by_its_configured_name() {
    let config = TunConfig::default();
    assert_eq!(config.name, "cryprq0");
    assert_eq!(config.address, "10.0.0.1");
    assert_eq!(config.netmask, "255.255.255.0");
    assert_eq!(config.mtu, 1420);
    let tun = TunInterface::new(config);
    assert_eq!(tun.name(), "cryprq0");
    assert_eq!(tun.netmask_to_cidr(&tun.config().netmask), Ok(24));
}

#[test]
fn errors_have_their_messages() {
    assert_eq!(TunnelError::LockPoisoned("x".to_string()).message(), "Lock poisoned: x");
    assert_eq!(TunnelError::EncryptionFailed.message(), "Packet encryption failed");
    assert_eq!(TunnelError::DecryptionFailed.message(), "Packet decryption failed");
    assert_eq!(TunnelError::InvalidNonce.message(), "Invalid nonce in packet");
    assert_eq!(
        TunnelError::NonceOverflow.message(),
        "Nonce counter overflow - key rotation required"
    );
    assert_eq!(
        TunnelError::ReplayDetected.message(),
        "Replay attack detected - nonce already seen"
    );
    assert_eq!(
        TunnelError::RateLimitExceeded.message(),
        "Rate limit exceeded - too many packets"
    );
    assert_eq!(TunnelError::InvalidPeerIdentity.message(), "Peer identity verification failed");
    assert_eq!(TunnelError::HandshakeFailed("kem".to_string()).message(), "Handshake failed: kem");
    assert_eq!(TunnelError::NetworkError("down".to_string()).message(), "Network error: down");
    assert_eq!(TunnelError::IoError("disk".to_string()).message(), "I/O error: disk");
    assert_eq!(TunnelError::InvalidRecord.message(), "Invalid record");
    assert_eq!(
        TunnelError::FileTransferFailed(FileTransferError::HashMismatch).message(),
        "File transfer failed: file hash mismatch"
    );
    assert_eq!(P2PError::InvalidPeerId.message(), "Invalid peer ID format");
    assert_eq!(P2PError::NotInitialized.message(), "Keys not initialized");
    assert_eq!(P2PError::DialFailed("x".to_string()).message(), "Failed to dial peer: x");
    assert_eq!(P2PError::KeyGenFailed("x".to_string()).message(), "Key generation failed: x");
    assert_eq!(P2PError::LockPoisoned("x".to_string()).message(), "Lock poisoned: x");
}
