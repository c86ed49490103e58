//! Reading endpoint addresses and netmasks from their text.

use crate::util::bytes_equal;
use vstd::prelude::*;
use vstd::slice::slice_to_vec;
use vstd::string::StringSliceAdditionalSpecFns;

verus! {

/// Why an address or a netmask was refused.
#[derive(Debug, Clone, Copy, PartialEq, Eq, Structural)]
pub enum AddrError {
    /// What follows `udp` is not a port number.
    InvalidUdpPort,
    /// The address names no UDP port.
    NoUdpPort,
    /// The netmask is not four numbers from 0 to 255 with dots between them.
    InvalidNetmask,
}

/// The parts of `s` between the separators; a text without separator is one part.
pub open spec fn split(s: Seq<u8>, sep: u8) -> Seq<Seq<u8>>
    decreases s.len(),
{
    if s.len() == 0 {
        seq![Seq::<u8>::empty()]
    } else {
        let rest = split(s.drop_last(), sep);
        if s.last() == sep {
            rest.push(Seq::<u8>::empty())
        } else {
            rest.update(rest.len() - 1, rest.last().push(s.last()))
        }
    }
}

/// Whether `b` is an ASCII digit.
pub open spec fn is_digit(b: u8) -> bool {
    0x30 <= b <= 0x39
}

/// The number that a string of digits spells in base ten.
pub open spec fn decimal_value(digits: Seq<u8>) -> nat
    decreases digits.len(),
{
    if digits.len() == 0 {
        0
    } else {
        decimal_value(digits.drop_last()) * 10 + (digits.last() - 0x30) as nat
    }
}

/// The digits of a number's text: the text without a leading plus sign.
pub open spec fn digits_of(s: Seq<u8>) -> Seq<u8> {
    if s.len() > 0 && s[0] == 0x2b {
        s.drop_first()
    } else {
        s
    }
}

/// The number that `s` spells, if it is one or more digits, with or without a plus sign in
/// front, and the number is at most `max`.
pub open spec fn parse_decimal(s: Seq<u8>, max: nat) -> Option<nat> {
    let digits = digits_of(s);
    if digits.len() > 0 && (forall|i: int| 0 <= i < digits.len() ==> is_digit(#[trigger] digits[i]))
        && decimal_value(digits) <= max {
        Some(decimal_value(digits))
    } else {
        None
    }
}

proof fn lemma_decimal_value_grows(digits: Seq<u8>, n: int)
    requires
        0 <= n <= digits.len(),
        forall|i: int| 0 <= i < digits.len() ==> is_digit(#[trigger] digits[i]),
    ensures
        decimal_value(digits.subrange(0, n)) <= decimal_value(digits),
    decreases digits.len() - n,
{
    if n == digits.len() {
        assert(digits.subrange(0, n) =~= digits);
    } else {
        let longer = digits.subrange(0, n + 1);
        assert(longer.drop_last() =~= digits.subrange(0, n));
        assert(is_digit(digits[n]));
        lemma_decimal_value_grows(digits, n + 1);
    }
}

/// Splits a text at a separator.
pub fn split_bytes(s: &[u8], sep: u8) -> (parts: Vec<Vec<u8>>)
    ensures
        parts@.len() == split(s@, sep).len(),
        forall|i: int| 0 <= i < parts@.len() ==> (#[trigger] parts@[i])@ == split(s@, sep)[i],
{
    let mut parts: Vec<Vec<u8>> = Vec::new();
    let mut current: Vec<u8> = Vec::new();
    let mut i: usize = 0;
    assert(s@.subrange(0, 0) =~= Seq::<u8>::empty());
    while i < s.len()
        invariant
            i <= s@.len(),
            parts@.len() + 1 == split(s@.subrange(0, i as int), sep).len(),
            forall|j: int|
                0 <= j < parts@.len() ==> (#[trigger] parts@[j])@ == split(
                    s@.subrange(0, i as int),
                    sep,
                )[j],
            current@ == split(s@.subrange(0, i as int), sep).last(),
        decreases s@.len() - i,
    {
        proof {
            let longer = s@.subrange(0, i + 1);
            assert(longer.drop_last() =~= s@.subrange(0, i as int));
            assert(longer.last() == s@[i as int]);
        }
        if s[i] == sep {
            parts.push(current);
            current = Vec::new();
        } else {
            current.push(s[i]);
        }
        i += 1;
    }
    assert(s@.subrange(0, i as int) =~= s@);
    parts.push(current);
    parts
}

/// Reads a decimal number of at most `max` from its text.
pub fn parse_number(s: &[u8], max: u32) -> (res: Option<u32>)
    ensures
        match parse_decimal(s@, max as nat) {
            Some(v) => res == Some(v as u32),
            None => res is None,
        },
{
    let start: usize = if s.len() > 0 && s[0] == 0x2b {
        1
    } else {
        0
    };
    let ghost digits = digits_of(s@);
    assert(digits =~= s@.subrange(start as int, s@.len() as int));
    if s.len() == start {
        assert(digits.len() == 0);
        return None;
    }
    let mut acc: u64 = 0;
    let mut i: usize = start;
    assert(digits.subrange(0, 0) =~= Seq::<u8>::empty());
    while i < s.len()
        invariant
            start <= i <= s@.len(),
            digits == s@.subrange(start as int, s@.len() as int),
            digits == digits_of(s@),
            forall|j: int| 0 <= j < i - start ==> is_digit(#[trigger] digits[j]),
            acc == decimal_value(digits.subrange(0, i - start)),
            acc <= max,
        decreases s@.len() - i,
    {
        let b = s[i];
        assert(b == digits[i - start]);
        if b < 0x30 || b > 0x39 {
            assert(!is_digit(digits[i - start]));
            return None;
        }
        proof {
            let longer = digits.subrange(0, i - start + 1);
            assert(longer.drop_last() =~= digits.subrange(0, i - start));
            assert(longer.last() == b);
            assert(decimal_value(longer) == decimal_value(longer.drop_last()) * 10 + (b
                - 0x30) as nat);
        }
        acc = acc * 10 + (b - 0x30) as u64;
        if acc > max as u64 {
            proof {
                if forall|j: int| 0 <= j < digits.len() ==> is_digit(#[trigger] digits[j]) {
                    lemma_decimal_value_grows(digits, i - start + 1);
                }
            }
            return None;
        }
        i += 1;
    }
    assert(digits.subrange(0, i - start) =~= digits);
    Some(acc as u32)
}

/// What a scan of an address has found so far.
pub struct Scan {
    pub ip: Option<Seq<u8>>,
    pub port: Option<u16>,
}

/// What the first `n` parts of an address tell: the part after the last `ip4` and the port
/// after the last `udp`, or the error of the first `udp` that no port follows.
pub open spec fn scan(parts: Seq<Seq<u8>>, n: int) -> Result<Scan, AddrError>
    decreases n,
{
    if n <= 0 {
        Ok(Scan { ip: None, port: None })
    } else {
        match scan(parts, n - 1) {
            Err(e) => Err(e),
            Ok(before) => {
                let i = n - 1;
                let ip = if parts[i] == "ip4".spec_bytes() && i + 1 < parts.len() {
                    Some(parts[i + 1])
                } else {
                    before.ip
                };
                if parts[i] == "udp".spec_bytes() && i + 1 < parts.len() {
                    match parse_decimal(parts[i + 1], 0xffff) {
                        Some(p) => Ok(Scan { ip, port: Some(p as u16) }),
                        None => Err(AddrError::InvalidUdpPort),
                    }
                } else {
                    Ok(Scan { ip, port: before.port })
                }
            },
        }
    }
}

/// The IPv4 address and the UDP port that a multiaddress such as
/// `/ip4/0.0.0.0/udp/20440/quic-v1` names. Without an `ip4` part the address is `0.0.0.0`.
pub open spec fn spec_parse_udp_addr(addr: Seq<u8>) -> Result<(Seq<u8>, u16), AddrError> {
    let parts = split(addr, 0x2f);
    match scan(parts, parts.len() as int) {
        Err(e) => Err(e),
        Ok(found) => match found.port {
            None => Err(AddrError::NoUdpPort),
            Some(port) => Ok(
                (
                    match found.ip {
                        Some(ip) => ip,
                        None => "0.0.0.0".spec_bytes(),
                    },
                    port,
                ),
            ),
        },
    }
}

/// Reads the IPv4 address and the UDP port from a multiaddress.
///
/// Fails with `InvalidUdpPort` where a `udp` part is followed by something other than a port
/// number, and with `NoUdpPort` where no `udp` part is followed by anything.
pub fn parse_udp_addr(addr: &str) -> (res: Result<(Vec<u8>, u16), AddrError>)
    ensures
        match spec_parse_udp_addr(addr.spec_bytes()) {
            Ok((ip, port)) => res is Ok && res.unwrap().0@ == ip && res.unwrap().1 == port,
            Err(e) => res is Err && res->Err_0 == e,
        },
{
    let parts = split_bytes(addr.as_bytes(), 0x2f);
    let ghost model = split(addr.spec_bytes(), 0x2f);
    let mut ip: Option<Vec<u8>> = None;
    let mut port: Option<u16> = None;
    let mut i: usize = 0;
    while i < parts.len()
        invariant
            i <= parts@.len(),
            parts@.len() == model.len(),
            model == split(addr.spec_bytes(), 0x2f),
            forall|j: int| 0 <= j < parts@.len() ==> (#[trigger] parts@[j])@ == model[j],
            scan(model, i as int) is Ok,
            scan(model, i as int)->Ok_0.port == port,
            match (scan(model, i as int)->Ok_0.ip, ip) {
                (Some(a), Some(b)) => a == b@,
                (None, None) => true,
                _ => false,
            },
        decreases parts@.len() - i,
    {
        let has_next = i + 1 < parts.len();
        if has_next && bytes_equal(parts[i].as_slice(), "ip4".as_bytes()) {
            ip = Some(slice_to_vec(parts[i + 1].as_slice()));
        }
        if has_next && bytes_equal(parts[i].as_slice(), "udp".as_bytes()) {
            match parse_number(parts[i + 1].as_slice(), 0xffff) {
                Some(p) => {
                    port = Some(p as u16);
                },
                None => {
                    proof {
                        assert(scan(model, i + 1) == Err::<Scan, AddrError>(
                            AddrError::InvalidUdpPort,
                        ));
                        lemma_scan_error_stays(model, i + 1, model.len() as int);
                    }
                    return Err(AddrError::InvalidUdpPort);
                },
            }
        }
        i += 1;
    }
    match port {
        None => Err(AddrError::NoUdpPort),
        Some(p) => {
            let ip = match ip {
                Some(ip) => ip,
                None => slice_to_vec("0.0.0.0".as_bytes()),
            };
            Ok((ip, p))
        },
    }
}

proof fn lemma_scan_error_stays(parts: Seq<Seq<u8>>, n: int, m: int)
    requires
        0 <= n <= m,
        scan(parts, n) is Err,
    ensures
        scan(parts, m) == scan(parts, n),
    decreases m - n,
{
    if n < m {
        lemma_scan_error_stays(parts, n, m - 1);
    }
}

/// The number of one bits of a byte.
pub open spec fn ones(b: u8) -> nat {
    ((b & 1) + ((b >> 1) & 1) + ((b >> 2) & 1) + ((b >> 3) & 1) + ((b >> 4) & 1) + ((b >> 5) & 1)
        + ((b >> 6) & 1) + ((b >> 7) & 1)) as nat
}

/// The prefix length of a netmask in dotted form: the number of one bits of its four
/// numbers; nothing where the text is not four numbers from 0 to 255 with dots between them.
pub open spec fn spec_netmask_to_cidr(netmask: Seq<u8>) -> Option<nat> {
    let parts = split(netmask, 0x2e);
    if parts.len() == 4 && (forall|i: int|
        0 <= i < 4 ==> parse_decimal(#[trigger] parts[i], 255) is Some) {
        Some(
            ones(parse_decimal(parts[0], 255).unwrap() as u8) + ones(
                parse_decimal(parts[1], 255).unwrap() as u8,
            ) + ones(parse_decimal(parts[2], 255).unwrap() as u8) + ones(
                parse_decimal(parts[3], 255).unwrap() as u8,
            ),
        )
    } else {
        None
    }
}

/// Counts the one bits of a byte.
fn count_ones(b: u8) -> (n: u8)
    ensures
        n == ones(b),
        n <= 8,
{
    assert((b & 1) <= 1 && ((b >> 1) & 1) <= 1 && ((b >> 2) & 1) <= 1 && ((b >> 3) & 1) <= 1 && ((b
        >> 4) & 1) <= 1 && ((b >> 5) & 1) <= 1 && ((b >> 6) & 1) <= 1 && ((b >> 7) & 1) <= 1)
        by (bit_vector);
    let n = (b & 1) + ((b >> 1) & 1) + ((b >> 2) & 1) + ((b >> 3) & 1) + ((b >> 4) & 1) + ((b >> 5)
        & 1) + ((b >> 6) & 1) + ((b >> 7) & 1);
    n
}

/// Computes the prefix length of a netmask in dotted form, such as `255.255.255.0`.
///
/// Fails with `InvalidNetmask` where the text is not four numbers from 0 to 255 with dots
/// between them.
pub fn netmask_to_cidr(netmask: &str) -> (res: Result<u8, AddrError>)
    ensures
        match spec_netmask_to_cidr(netmask.spec_bytes()) {
            Some(n) => res == Ok::<u8, AddrError>(n as u8) && n <= 32,
            None => res == Err::<u8, AddrError>(AddrError::InvalidNetmask),
        },
{
    let parts = split_bytes(netmask.as_bytes(), 0x2e);
    let ghost model = split(netmask.spec_bytes(), 0x2e);
    let mut values: Vec<u8> = Vec::new();
    let mut i: usize = 0;
    while i < parts.len()
        invariant
            i <= parts@.len(),
            parts@.len() == model.len(),
            model == split(netmask.spec_bytes(), 0x2e),
            forall|j: int| 0 <= j < parts@.len() ==> (#[trigger] parts@[j])@ == model[j],
            values@.len() == i,
            forall|j: int|
                0 <= j < i ==> parse_decimal(#[trigger] model[j], 255) == Some(
                    values@[j] as nat,
                ),
        decreases parts@.len() - i,
    {
        match parse_number(parts[i].as_slice(), 255) {
            Some(v) => {
                values.push(v as u8);
            },
            None => {
                assert(parse_decimal(model[i as int], 255) is None);
                return Err(AddrError::InvalidNetmask);
            },
        }
        i += 1;
    }
    if values.len() != 4 {
        return Err(AddrError::InvalidNetmask);
    }
    let cidr = count_ones(values[0]) + count_ones(values[1]) + count_ones(values[2]) + count_ones(
        values[3],
    );
    Ok(cidr)
}

} // verus!
