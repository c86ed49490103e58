//! Per-class sequence counters of one direction of a session.

use vstd::prelude::*;

verus! {

/// A counter at or above this value yields no further sequence number: a rekey is due well
/// before the counter could wrap.
pub const MAX_NONCE_VALUE: u64 = u64::MAX - 1000;

/// Three independent counters: VPN packets, generic data, file transfer.
#[derive(Debug)]
pub struct SeqCounters {
    vpn: u64,
    data: u64,
    file: u64,
}

/// What one request for a sequence number does to a counter that stands at `c`: the answer
/// and the counter afterwards. A counter within 1000 of its maximum refuses and stays.
pub open spec fn step_counter(c: u64) -> (Result<u64, ()>, u64) {
    if c >= MAX_NONCE_VALUE {
        (Err(()), c)
    } else {
        (Ok(c), (c + 1) as u64)
    }
}

/// The counter after `n` requests, starting from `c`.
pub open spec fn counter_after(c: u64, n: nat) -> u64
    decreases n,
{
    if n == 0 {
        c
    } else {
        step_counter(counter_after(c, (n - 1) as nat)).1
    }
}

/// The answer to request number `n` (counted from 0) for a sequence number, starting from a
/// counter at `c`.
pub open spec fn nth_request(c: u64, n: nat) -> Result<u64, ()> {
    step_counter(counter_after(c, n)).0
}

proof fn lemma_counter_after_closed_form(c: u64, n: nat)
    ensures
        c + n <= MAX_NONCE_VALUE ==> counter_after(c, n) == c + n,
        c <= MAX_NONCE_VALUE && c + n > MAX_NONCE_VALUE ==> counter_after(c, n)
            == MAX_NONCE_VALUE,
        c > MAX_NONCE_VALUE ==> counter_after(c, n) == c,
    decreases n,
{
    if n > 0 {
        lemma_counter_after_closed_form(c, (n - 1) as nat);
    }
}

/// Successive requests to one counter give strictly increasing sequence numbers, each one
/// more than the last, for as long as they give any; once one is refused, all later ones
/// are. No number is given twice, and the counter never wraps.
pub proof fn lemma_sequence_strictly_increasing(c: u64, i: nat, j: nat)
    requires
        i < j,
    ensures
        nth_request(c, i) is Err ==> nth_request(c, j) is Err,
        nth_request(c, j) is Ok ==> nth_request(c, i) is Ok && nth_request(c, i)->Ok_0
            < nth_request(c, j)->Ok_0 && nth_request(c, j)->Ok_0 == nth_request(c, i)->Ok_0
            + (j - i),
        nth_request(c, i) is Ok <==> c + i < MAX_NONCE_VALUE,
{
    lemma_counter_after_closed_form(c, i);
    lemma_counter_after_closed_form(c, j);
}

impl SeqCounters {
    /// The next VPN sequence number.
    pub closed spec fn vpn(&self) -> u64 {
        self.vpn
    }

    /// The next generic-data sequence number.
    pub closed spec fn data(&self) -> u64 {
        self.data
    }

    /// The next file-transfer sequence number.
    pub closed spec fn file(&self) -> u64 {
        self.file
    }

    /// Counters that all stand at zero.
    pub fn new() -> (c: Self)
        ensures
            c.vpn() == 0,
            c.data() == 0,
            c.file() == 0,
    {
        Self { vpn: 0, data: 0, file: 0 }
    }

    /// Takes the next VPN sequence number, or refuses where the counter has reached
    /// `MAX_NONCE_VALUE`.
    pub fn next_vpn(&mut self) -> (res: Result<u64, ()>)
        ensures
            (res, final(self).vpn()) == step_counter(old(self).vpn()),
            final(self).data() == old(self).data(),
            final(self).file() == old(self).file(),
    {
        let current = self.vpn;
        if current >= MAX_NONCE_VALUE {
            return Err(());
        }
        self.vpn = current + 1;
        Ok(current)
    }

    /// Takes the next generic-data sequence number, or refuses where the counter has reached
    /// `MAX_NONCE_VALUE`.
    pub fn next_data(&mut self) -> (res: Result<u64, ()>)
        ensures
            (res, final(self).data()) == step_counter(old(self).data()),
            final(self).vpn() == old(self).vpn(),
            final(self).file() == old(self).file(),
    {
        let current = self.data;
        if current >= MAX_NONCE_VALUE {
            return Err(());
        }
        self.data = current + 1;
        Ok(current)
    }

    /// Takes the next file-transfer sequence number, or refuses where the counter has
    /// reached `MAX_NONCE_VALUE`.
    pub fn next_file(&mut self) -> (res: Result<u64, ()>)
        ensures
            (res, final(self).file()) == step_counter(old(self).file()),
            final(self).vpn() == old(self).vpn(),
            final(self).data() == old(self).data(),
    {
        let current = self.file;
        if current >= MAX_NONCE_VALUE {
            return Err(());
        }
        self.file = current + 1;
        Ok(current)
    }

    /// Sets all counters back to zero, as an epoch change requires.
    pub fn reset(&mut self)
        ensures
            final(self).vpn() == 0,
            final(self).data() == 0,
            final(self).file() == 0,
    {
        self.vpn = 0;
        self.data = 0;
        self.file = 0;
    }

    /// Sets the VPN counter to a given value, to reach the overflow guard in a test.
    pub fn set_vpn_for_test(&mut self, value: u64)
        ensures
            final(self).vpn() == value,
            final(self).data() == old(self).data(),
            final(self).file() == old(self).file(),
    {
        self.vpn = value;
    }

    /// Sets the generic-data counter to a given value, to reach the overflow guard in a test.
    pub fn set_data_for_test(&mut self, value: u64)
        ensures
            final(self).data() == value,
            final(self).vpn() == old(self).vpn(),
            final(self).file() == old(self).file(),
    {
        self.data = value;
    }

    /// Sets the file-transfer counter to a given value, to reach the overflow guard in a
    /// test.
    pub fn set_file_for_test(&mut self, value: u64)
        ensures
            final(self).file() == value,
            final(self).vpn() == old(self).vpn(),
            final(self).data() == old(self).data(),
    {
        self.file = value;
    }
}

impl Default for SeqCounters {
    fn default() -> (c: Self)
        ensures
            c.vpn() == 0,
            c.data() == 0,
            c.file() == 0,
    {
        Self::new()
    }
}

} // verus!
