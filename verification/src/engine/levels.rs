//! Output level state, written by every sink's mixer each period and read
//! by the meter. Levels are kept as the bit patterns of their `f32` values.

use vstd::prelude::*;

verus! {

/// Level state older than this reads as silence (no sink running).
pub const LEVEL_STALE_MS: u64 = 600;

pub struct OutputLevels {
    rms: u32,
    peak: u32,
    clipping: bool,
    updated_ms: u64,
}

/// A reading `ms` after the last update is stale once more than
/// `LEVEL_STALE_MS` have passed.
pub open spec fn stale(now_ms: u64, updated_ms: u64) -> bool {
    now_ms > updated_ms && now_ms - updated_ms > LEVEL_STALE_MS
}

impl OutputLevels {
    /// (rms, peak, clipping, time of the last update).
    pub closed spec fn state(&self) -> (u32, u32, bool, u64) {
        (self.rms, self.peak, self.clipping, self.updated_ms)
    }

    pub fn new() -> (l: Self)
        ensures
            l.state() == (0u32, 0u32, false, 0u64),
    {
        OutputLevels { rms: 0, peak: 0, clipping: false, updated_ms: 0 }
    }

    /// The stored rms and peak, for smoothing the next update.
    pub fn previous(&self) -> (r: (u32, u32))
        ensures
            r == (self.state().0, self.state().1),
    {
        (self.rms, self.peak)
    }

    /// Store a period's levels, measured at `now_ms`.
    pub fn store(&mut self, rms: u32, peak: u32, clipping: bool, now_ms: u64)
        ensures
            final(self).state() == (rms, peak, clipping, now_ms),
    {
        self.rms = rms;
        self.peak = peak;
        self.clipping = clipping;
        self.updated_ms = now_ms;
    }

    /// (rms, peak, clipping) at `now_ms`: zeros when stale — no sink is
    /// running.
    pub fn read_at(&self, now_ms: u64) -> (r: (u32, u32, bool))
        ensures
            stale(now_ms, self.state().3) ==> r == (0u32, 0u32, false),
            !stale(now_ms, self.state().3) ==> r == (self.state().0, self.state().1, self.state().2),
    {
        if now_ms > self.updated_ms && now_ms - self.updated_ms > LEVEL_STALE_MS {
            (0, 0, false)
        } else {
            (self.rms, self.peak, self.clipping)
        }
    }
}

/// A reading within `LEVEL_STALE_MS` of a store gives back what was stored;
/// one taken later reads as silence.
pub proof fn law_levels_read_back(rms: u32, peak: u32, clipping: bool, at_ms: u64, now_ms: u64)
    ensures
        at_ms <= now_ms <= at_ms + LEVEL_STALE_MS ==> !stale(now_ms, at_ms),
        now_ms > at_ms + LEVEL_STALE_MS ==> stale(now_ms, at_ms),
{
}

} // verus!
