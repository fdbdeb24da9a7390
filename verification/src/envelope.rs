//! The per-message transport envelope and the wrapping sequence counter.

use vstd::prelude::*;

verus! {

/// The next value of the 8-bit correlation counter: increments and wraps
/// modulo 256.
pub open spec fn wrapping_next(s: u8) -> u8 {
    if s == 255 {
        0
    } else {
        (s + 1) as u8
    }
}

/// Transport metadata attached to every outbound request: addressing mode,
/// source identifier, frame-level target, acknowledgment/response flags and
/// the correlation sequence number.
///
/// The sequence number is a correlation aid only; the transport is
/// fire-and-forget and unordered, so it promises neither ordering nor
/// delivery.
#[derive(Clone, Copy, Debug)]
pub struct RequestOptions {
    pub tagged: bool,
    pub source: u32,
    pub target: [u8; 8],
    pub ack_required: bool,
    pub res_required: bool,
    pub sequence: u8,
}

impl RequestOptions {
    /// Advances the correlation counter, wrapping modulo 256; every other
    /// field keeps its value.
    pub fn increment_sequence(&mut self)
        ensures
            final(self).sequence == wrapping_next(old(self).sequence),
            final(self).tagged == old(self).tagged,
            final(self).source == old(self).source,
            final(self).target == old(self).target,
            final(self).ack_required == old(self).ack_required,
            final(self).res_required == old(self).res_required,
    {
        if self.sequence == 255 {
            self.sequence = 0;
        } else {
            self.sequence = self.sequence + 1;
        }
    }
}

/// A monotonically wrapping sequence counter owned by one logical command
/// source. `next` returns the current value, then advances it.
#[derive(Clone, Copy, Debug)]
pub struct Sequencer {
    pub last: u8,
}

impl Sequencer {
    /// A counter that starts at zero.
    pub fn new() -> (r: Sequencer)
        ensures
            r.last == 0u8,
    {
        Sequencer { last: 0 }
    }

    /// Returns the current sequence number and advances the counter with
    /// wraparound; pure counter semantics, no error conditions.
    pub fn next(&mut self) -> (r: u8)
        ensures
            r == old(self).last,
            final(self).last == wrapping_next(old(self).last),
    {
        let current = self.last;
        if self.last == 255 {
            self.last = 0;
        } else {
            self.last = self.last + 1;
        }
        current
    }
}

} // verus!
