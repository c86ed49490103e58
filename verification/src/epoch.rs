//! The 8-bit epoch counter that scopes the directional traffic keys.

use vstd::prelude::*;

verus! {

/// Rekey epoch: an 8-bit counter that wraps at 256.
#[derive(Copy, Clone, Debug, PartialEq, Eq, Structural)]
pub struct Epoch(pub u8);

impl Epoch {
    /// The epoch that follows `self` in the mathematical model: the successor modulo 256.
    pub open spec fn spec_next(self) -> Epoch {
        Epoch(((self.0 + 1) % 256) as u8)
    }

    /// The epoch a session starts in.
    pub fn initial() -> (e: Epoch)
        ensures
            e == Epoch(0),
    {
        Epoch(0)
    }

    /// The following epoch; 255 is followed by 0.
    pub fn next(self) -> (e: Epoch)
        ensures
            e == self.spec_next(),
    {
        Epoch(self.0.wrapping_add(1))
    }

    /// The counter's value.
    pub fn value(self) -> (v: u8)
        ensures
            v == self.0,
    {
        self.0
    }
}

} // verus!
