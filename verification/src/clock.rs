//! Playback clock: the position in a clip, with its speed and its loop.
//!
//! Moments and spans are nanoseconds. The moments come from the caller's monotonic clock,
//! so nothing here waits or looks at the time.

use crate::config::sanitize_speed;
use vstd::prelude::*;

verus! {

/// A span of time, or a moment counted from a fixed origin, in nanoseconds.
pub type Nanos = u128;

/// The clock of one clip.
#[derive(Debug, Clone)]
pub struct PlaybackClock {
    /// When the clock started; `None` while it stands.
    pub started: Option<Nanos>,
    /// Bits of the playback speed.
    pub speed: u64,
    pub looped: bool,
}

/// The time between two moments, zero if `from` is not earlier.
pub open spec fn since(now: Nanos, from: Nanos) -> Nanos {
    if now > from {
        (now - from) as u128
    } else {
        0
    }
}

/// The time between two moments, zero if `from` is not earlier.
pub fn span(now: Nanos, from: Nanos) -> (r: Nanos)
    ensures
        r == since(now, from),
{
    if now > from {
        now - from
    } else {
        0
    }
}

/// The position in a clip of length `duration` after `raw` of its own time. Without a length
/// it is that time. With a loop it starts over after every `duration`; without one it stops
/// at the last moment of the clip.
pub open spec fn place(raw: Nanos, duration: Option<Nanos>, looped: bool) -> Nanos {
    match duration {
        Some(d) => if d == 0 {
            raw
        } else if looped {
            ((raw % d) % 0x1_0000_0000_0000_0000) as u128
        } else if raw < d {
            raw
        } else {
            (d - 1) as u128
        },
        None => raw,
    }
}

impl PlaybackClock {
    /// A clock that has not started. `speed` is the bits of the playback speed.
    pub fn new(speed: u64, looped: bool) -> (c: PlaybackClock)
        ensures
            c.started is None,
            c.speed == crate::config::sane_speed(speed),
            c.looped == looped,
    {
        PlaybackClock { started: None, speed: sanitize_speed(speed), looped }
    }

    /// The time since the clock started, at normal speed. The first call starts it.
    pub fn elapsed(&mut self, now: Nanos) -> (r: Nanos)
        ensures
            final(self).started == Some(
                match old(self).started {
                    Some(t) => t,
                    None => now,
                },
            ),
            r == since(now, final(self).started->0),
            final(self).speed == old(self).speed,
            final(self).looped == old(self).looped,
    {
        let started: Nanos = match self.started {
            Some(t) => t,
            None => now,
        };
        self.started = Some(started);
        span(now, started)
    }

    /// The position in a clip of length `duration`, where `raw` is the elapsed time scaled by
    /// the speed. `None`: the length is unknown.
    pub fn position(&self, raw: Nanos, duration: Option<Nanos>) -> (r: Nanos)
        ensures
            r == place(raw, duration, self.looped),
    {
        match duration {
            Some(d) => if d == 0 {
                raw
            } else if self.looped {
                (raw % d) % 0x1_0000_0000_0000_0000
            } else if raw < d {
                raw
            } else {
                d - 1
            },
            None => raw,
        }
    }

    /// The next call of `elapsed` starts the clock anew.
    pub fn restart(&mut self)
        ensures
            final(self).started is None,
            final(self).speed == old(self).speed,
            final(self).looped == old(self).looped,
    {
        self.started = None;
    }
}

/// A position is always inside the clip.
pub proof fn position_is_inside(raw: Nanos, d: Nanos, looped: bool)
    requires
        d > 0,
    ensures
        place(raw, Some(d), looped) < d,
{
    assert(raw % d < d);
    assert((raw % d) % 0x1_0000_0000_0000_0000 <= raw % d);
}

/// A looping clip shows the same moment again after every pass.
pub proof fn a_pass_changes_nothing(raw: Nanos, d: Nanos, passes: nat)
    requires
        d > 0,
        raw + passes * d <= u128::MAX,
    ensures
        place((raw + passes * d) as u128, Some(d), true) == place(raw, Some(d), true),
{
    vstd::arithmetic::div_mod::lemma_mod_multiples_vanish(passes as int, raw as int, d as int);
    assert(d as int * passes as int + raw as int == raw + passes * d) by (nonlinear_arith);
}

/// Without a loop time runs forward until the last moment and stays there.
pub proof fn without_a_loop_time_is_monotonic(a: Nanos, b: Nanos, d: Nanos)
    requires
        a <= b,
        d > 0,
    ensures
        place(a, Some(d), false) <= place(b, Some(d), false),
        b >= d ==> place(b, Some(d), false) == d - 1,
{
}

} // verus!
