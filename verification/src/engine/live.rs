//! A stream with audio flowing through it: a one-second ring of canonical
//! samples written by the data plane and drained by the mixer, with the
//! stream's volume, mute and target device. Samples are of any copyable
//! type; the daemon uses `f32`.

use std::collections::VecDeque;

use vstd::prelude::*;

use super::convert::MIX_CHANNELS;
use crate::text::str_eq;

verus! {

/// Ring capacity: 1 second of stereo samples (samples, not frames).
pub const RING_CAP: usize = 96000;

/// The ring after appending `samples`: when that would exceed
/// `RING_CAP` (a client writing faster than realtime), only the newest
/// half-capacity is kept.
pub open spec fn after_push<T>(ring: Seq<T>, samples: Seq<T>) -> Seq<T> {
    let all = ring + samples;
    if all.len() > RING_CAP {
        all.skip(all.len() - RING_CAP / 2)
    } else {
        all
    }
}

/// Whole stereo frames that can be pulled into room for `capacity` samples.
pub open spec fn frames_available(buffered: nat, capacity: nat) -> nat {
    let a = buffered / 2;
    let b = capacity / 2;
    if a <= b {
        a
    } else {
        b
    }
}

/// A counter after one more event (wrapping at the top, as an atomic
/// counter does).
pub open spec fn bumped(c: u64) -> u64 {
    if c < u64::MAX {
        (c + 1) as u64
    } else {
        0
    }
}

pub struct LiveStream<T> {
    id: String,
    application: String,
    ring: VecDeque<T>,
    volume: u32,
    muted: bool,
    device: String,
    follows_default: bool,
    starved_periods: u64,
    overflow_events: u64,
}

impl<T> LiveStream<T> {
    /// The ring never holds more than a second of audio.
    #[verifier::type_invariant]
    spec fn bounded(self) -> bool {
        self.ring@.len() <= RING_CAP
    }
}

impl<T: Copy> LiveStream<T> {
    pub fn id(&self) -> (r: &str)
        ensures
            r@ == self.id_view(),
    {
        self.id.as_str()
    }

    pub fn application(&self) -> (r: &str)
        ensures
            r@ == self.application_view(),
    {
        self.application.as_str()
    }

    pub closed spec fn id_view(&self) -> Seq<char> {
        self.id@
    }

    pub closed spec fn application_view(&self) -> Seq<char> {
        self.application@
    }

    /// The buffered samples, oldest first.
    pub closed spec fn ring(&self) -> Seq<T> {
        self.ring@
    }

    pub closed spec fn volume_spec(&self) -> u32 {
        self.volume
    }

    pub closed spec fn muted_spec(&self) -> bool {
        self.muted
    }

    pub closed spec fn device_spec(&self) -> Seq<char> {
        self.device@
    }

    /// The stream was opened without a device and plays on whatever the
    /// default output is.
    pub closed spec fn follows_spec(&self) -> bool {
        self.follows_default
    }

    /// (starved periods, overflow events).
    pub closed spec fn counters(&self) -> (u64, u64) {
        (self.starved_periods, self.overflow_events)
    }

    pub fn new(id: &str, application: &str, device: &str) -> (s: Self)
        ensures
            s.id_view() == id@,
            s.application_view() == application@,
            s.ring() == Seq::<T>::empty(),
            s.volume_spec() == 100,
            !s.muted_spec(),
            s.device_spec() == device@,
            !s.follows_spec(),
            s.counters() == (0u64, 0u64),
    {
        LiveStream {
            id: String::from_str(id),
            application: String::from_str(application),
            ring: VecDeque::new(),
            volume: 100,
            muted: false,
            device: String::from_str(device),
            follows_default: false,
            starved_periods: 0,
            overflow_events: 0,
        }
    }

    /// A stream opened without a device: it plays on the current default
    /// output and follows it from then on.
    pub fn following(id: &str, application: &str, default_output: &str) -> (s: Self)
        ensures
            s.id_view() == id@,
            s.application_view() == application@,
            s.ring() == Seq::<T>::empty(),
            s.volume_spec() == 100,
            !s.muted_spec(),
            s.device_spec() == default_output@,
            s.follows_spec(),
            s.counters() == (0u64, 0u64),
    {
        let mut s = Self::new(id, application, default_output);
        s.follows_default = true;
        s
    }

    pub fn follows_default(&self) -> (r: bool)
        ensures
            r == self.follows_spec(),
    {
        self.follows_default
    }

    /// The default output is now `default_output`: a following stream moves
    /// to it. Returns whether the stream moved (and so changed).
    pub fn follow_default(&mut self, default_output: &str) -> (moved: bool)
        ensures
            moved == (old(self).follows_spec() && old(self).device_spec() != default_output@),
            final(self).device_spec() == if moved {
                default_output@
            } else {
                old(self).device_spec()
            },
            final(self).follows_spec() == old(self).follows_spec(),
            final(self).ring() == old(self).ring(),
            final(self).volume_spec() == old(self).volume_spec(),
            final(self).muted_spec() == old(self).muted_spec(),
            final(self).counters() == old(self).counters(),
            final(self).id_view() == old(self).id_view(),
            final(self).application_view() == old(self).application_view(),
    {
        proof {
            use_type_invariant(&*self);
        }
        if self.follows_default && !str_eq(self.device.as_str(), default_output) {
            self.device = String::from_str(default_output);
            true
        } else {
            false
        }
    }

    pub fn device(&self) -> (d: String)
        ensures
            d@ == self.device_spec(),
    {
        self.device.clone()
    }

    /// An explicit move: the stream plays on `device` and stops following
    /// the default output.
    pub fn set_device(&mut self, device: &str)
        ensures
            final(self).device_spec() == device@,
            !final(self).follows_spec(),
            final(self).ring() == old(self).ring(),
            final(self).volume_spec() == old(self).volume_spec(),
            final(self).muted_spec() == old(self).muted_spec(),
            final(self).counters() == old(self).counters(),
    {
        proof {
            use_type_invariant(&*self);
        }
        self.device = String::from_str(device);
        self.follows_default = false;
    }

    pub fn volume(&self) -> (v: u32)
        ensures
            v == self.volume_spec(),
    {
        self.volume
    }

    /// Set the volume, capped at 100.
    pub fn set_volume(&mut self, volume: u32)
        ensures
            final(self).volume_spec() == if volume <= 100 { volume } else { 100 },
            final(self).ring() == old(self).ring(),
            final(self).muted_spec() == old(self).muted_spec(),
            final(self).device_spec() == old(self).device_spec(),
            final(self).follows_spec() == old(self).follows_spec(),
            final(self).counters() == old(self).counters(),
    {
        proof {
            use_type_invariant(&*self);
        }
        self.volume = if volume <= 100 { volume } else { 100 };
    }

    pub fn muted(&self) -> (m: bool)
        ensures
            m == self.muted_spec(),
    {
        self.muted
    }

    pub fn set_muted(&mut self, muted: bool)
        ensures
            final(self).muted_spec() == muted,
            final(self).ring() == old(self).ring(),
            final(self).volume_spec() == old(self).volume_spec(),
            final(self).device_spec() == old(self).device_spec(),
            final(self).follows_spec() == old(self).follows_spec(),
            final(self).counters() == old(self).counters(),
    {
        proof {
            use_type_invariant(&*self);
        }
        self.muted = muted;
    }

    /// Pull as many whole stereo frames as are buffered and fit in room for
    /// `capacity` samples; the pulled samples, oldest first.
    pub fn take(&mut self, capacity: usize) -> (out: Vec<T>)
        ensures
            out@ == old(self).ring().take(2 * frames_available(old(self).ring().len(), capacity as nat) as int),
            final(self).ring() == old(self).ring().skip(2 * frames_available(old(self).ring().len(), capacity as nat) as int),
            final(self).volume_spec() == old(self).volume_spec(),
            final(self).muted_spec() == old(self).muted_spec(),
            final(self).device_spec() == old(self).device_spec(),
            final(self).follows_spec() == old(self).follows_spec(),
            final(self).counters() == old(self).counters(),
    {
        proof {
            use_type_invariant(&*self);
        }
        let a = self.ring.len() / MIX_CHANNELS;
        let b = capacity / MIX_CHANNELS;
        let frames = if a <= b { a } else { b };
        let n = frames * MIX_CHANNELS;
        assert(n == 2 * frames_available(old(self).ring().len(), capacity as nat));
        let mut rest = VecDeque::new();
        std::mem::swap(&mut rest, &mut self.ring);
        let ghost start = rest@;
        let mut out: Vec<T> = Vec::new();
        let mut i: usize = 0;
        while i < n
            invariant
                n <= start.len(),
                i <= n,
                out@ == start.take(i as int),
                rest@ == start.skip(i as int),
            decreases n - i,
        {
            match rest.pop_front() {
                Some(x) => out.push(x),
                None => {},
            }
            i += 1;
            assert(out@ =~= start.take(i as int));
            assert(rest@ =~= start.skip(i as int));
        }
        self.ring = rest;
        out
    }

    /// Append canonical-format samples. When the ring would overflow, the
    /// oldest audio is dropped down to half the capacity.
    pub fn push(&mut self, samples: &[T])
        ensures
            final(self).ring() == after_push(old(self).ring(), samples@),
            final(self).counters().0 == old(self).counters().0,
            final(self).counters().1 == if old(self).ring().len() + samples@.len() > RING_CAP {
                bumped(old(self).counters().1)
            } else {
                old(self).counters().1
            },
            final(self).volume_spec() == old(self).volume_spec(),
            final(self).muted_spec() == old(self).muted_spec(),
            final(self).device_spec() == old(self).device_spec(),
            final(self).follows_spec() == old(self).follows_spec(),
    {
        proof {
            use_type_invariant(&*self);
        }
        let n = samples.len();
        let have = self.ring.len();
        let half = RING_CAP / 2;
        let mut ring = VecDeque::new();
        std::mem::swap(&mut ring, &mut self.ring);
        let ghost all = ring@ + samples@;
        if n <= RING_CAP - have {
            let mut i: usize = 0;
            while i < n
                invariant
                    n == samples@.len(),
                    i <= n,
                    have + n <= RING_CAP,
                    all == old(self).ring() + samples@,
                    ring@ == old(self).ring() + samples@.take(i as int),
                decreases n - i,
            {
                ring.push_back(samples[i]);
                i += 1;
                assert(ring@ =~= old(self).ring() + samples@.take(i as int));
            }
            assert(samples@.take(n as int) =~= samples@);
            self.ring = ring;
        } else {
            let mut kept: VecDeque<T> = if n >= half {
                VecDeque::new()
            } else {
                ring.split_off(have - (half - n))
            };
            let from = if n >= half { n - half } else { 0 };
            let ghost base = kept@;
            let mut i: usize = from;
            while i < n
                invariant
                    n == samples@.len(),
                    from <= i <= n,
                    kept@ == base + samples@.subrange(from as int, i as int),
                decreases n - i,
            {
                kept.push_back(samples[i]);
                i += 1;
                assert(kept@ =~= base + samples@.subrange(from as int, i as int));
            }
            proof {
                let old_ring = old(self).ring();
                assert(all.len() > RING_CAP);
                if n >= half {
                    assert(kept@ =~= all.skip(all.len() - half));
                } else {
                    assert(base == old_ring.subrange(have - (half - n), have as int));
                    assert(kept@ =~= all.skip(all.len() - half));
                }
            }
            self.ring = kept;
            self.overflow_events = self.overflow_events.wrapping_add(1);
        }
    }

    pub fn note_starved(&mut self)
        ensures
            final(self).counters() == (bumped(old(self).counters().0), old(self).counters().1),
            final(self).ring() == old(self).ring(),
            final(self).volume_spec() == old(self).volume_spec(),
            final(self).muted_spec() == old(self).muted_spec(),
            final(self).device_spec() == old(self).device_spec(),
            final(self).follows_spec() == old(self).follows_spec(),
    {
        proof {
            use_type_invariant(&*self);
        }
        self.starved_periods = self.starved_periods.wrapping_add(1);
    }

    /// Milliseconds of audio buffered (whole frames at 48 kHz).
    pub fn buffered_ms(&self) -> (ms: u64)
        ensures
            ms == (self.ring().len() / 2) * 1000 / 48000,
            ms <= 1000,
    {
        proof {
            use_type_invariant(self);
        }
        let frames = (self.ring.len() / MIX_CHANNELS) as u64;
        frames * 1000 / 48000
    }

    /// (starved periods, overflow events).
    pub fn stats(&self) -> (r: (u64, u64))
        ensures
            r == self.counters(),
    {
        (self.starved_periods, self.overflow_events)
    }
}

/// A push that fits keeps everything; a push that overflows keeps exactly
/// the newest half-capacity — the latest samples written are never the
/// ones dropped.
pub proof fn law_push_keeps_newest<T>(ring: Seq<T>, samples: Seq<T>)
    ensures
        after_push(ring, samples).len() <= RING_CAP || ring.len() > RING_CAP,
        ring.len() + samples.len() <= RING_CAP ==> after_push(ring, samples) == ring + samples,
        ring.len() + samples.len() > RING_CAP ==> after_push(ring, samples).len() == RING_CAP / 2
            && after_push(ring, samples) == (ring + samples).skip(ring.len() + samples.len() - RING_CAP / 2),
{
}

} // verus!
