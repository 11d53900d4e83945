//! Laws of the playback clock.

use crate::clock::{span, Nanos, PlaybackClock};
use vstd::arithmetic::div_mod::{lemma_fundamental_div_mod, lemma_small_mod};
use vstd::prelude::*;

verus! {

/// `pos` is a moment of a clip of length `total` after `raw` of its time: inside the clip it is
/// that time; a looped clip starts over after each length; one that is played once stands at its
/// last moment.
pub open spec fn is_moment(raw: Nanos, total: Nanos, looped: bool, pos: int) -> bool {
    &&& 0 <= pos < total
    &&& if looped {
        exists|passes: nat| raw == #[trigger] (passes * total) + pos
    } else if raw < total {
        pos == raw
    } else {
        pos == total - 1
    }
}

/// The place in a clip is a moment of it.
pub proof fn place_is_moment(raw: Nanos, d: Nanos, looped: bool)
    requires
        0 < d <= 0x1_0000_0000_0000_0000,
    ensures
        is_moment(raw, d, looped, crate::clock::place(raw, Some(d), looped) as int),
{
    lemma_fundamental_div_mod(raw as int, d as int);
    let n = raw as int / d as int;
    assert(d as int * n == n * d) by (nonlinear_arith);
    lemma_small_mod((raw % d) as nat, 0x1_0000_0000_0000_0000);
    assert(n >= 0) by (nonlinear_arith)
        requires
            n == raw as int / d as int,
            d > 0,
            raw >= 0,
    ;
    assert(raw == (n as nat) * d + raw % d);
}

/// The position in a clip of known length is the moment that has come, for clips of up to 2^64
/// nanoseconds. Where the length is not known, or zero, time just passes.
pub proof fn the_position_is_the_moment_that_has_come(
    c: PlaybackClock,
    raw: Nanos,
    duration: Option<Nanos>,
    pos: Nanos,
)
    requires
        call_ensures(PlaybackClock::position, (&c, raw, duration), pos),
    ensures
        duration is None ==> pos == raw,
        duration == Some(0u128) ==> pos == raw,
        duration matches Some(d) ==> 0 < d <= 0x1_0000_0000_0000_0000 ==> is_moment(
            raw,
            d,
            c.looped,
            pos as int,
        ),
        duration matches Some(d) ==> d > 0 ==> pos < d,
{
    if let Some(d) = duration {
        if 0 < d <= 0x1_0000_0000_0000_0000 {
            place_is_moment(raw, d, c.looped);
        }
        if d > 0 {
            crate::clock::position_is_inside(raw, d, c.looped);
        }
    }
}

/// Inside a clip time passes as it is, whether the clip is looped or not.
pub proof fn inside_a_clip_time_passes_as_it_is(
    c: PlaybackClock,
    raw: Nanos,
    d: Nanos,
    pos: Nanos,
)
    requires
        call_ensures(PlaybackClock::position, (&c, raw, Some(d)), pos),
        raw < d <= 0x1_0000_0000_0000_0000,
    ensures
        pos == raw,
{
    lemma_small_mod(raw as nat, d as nat);
    lemma_small_mod(raw as nat, 0x1_0000_0000_0000_0000);
}

/// One nanosecond later the position is one nanosecond further, or the clip starts over, or it
/// stands at its end.
pub proof fn time_runs_without_gaps(
    c: PlaybackClock,
    raw: Nanos,
    d: Nanos,
    pos: Nanos,
    next: Nanos,
)
    requires
        0 < d <= 0x1_0000_0000_0000_0000,
        raw < u128::MAX,
        call_ensures(PlaybackClock::position, (&c, raw, Some(d)), pos),
        call_ensures(PlaybackClock::position, (&c, (raw + 1) as u128, Some(d)), next),
    ensures
        pos < d - 1 ==> next == pos + 1,
        pos == d - 1 ==> next == (if c.looped {
            0
        } else {
            d - 1
        }),
{
    lemma_small_mod((raw % d) as nat, 0x1_0000_0000_0000_0000);
    lemma_small_mod(((raw + 1) as u128 % d) as nat, 0x1_0000_0000_0000_0000);
    let n = raw as int / d as int;
    let m = raw as int % d as int;
    lemma_fundamental_div_mod(raw as int, d as int);
    assert(d as int * n == n * d) by (nonlinear_arith);
    if m < d - 1 {
        vstd::arithmetic::div_mod::lemma_fundamental_div_mod_converse(
            raw + 1,
            d as int,
            n,
            m + 1,
        );
    } else {
        assert((n + 1) * d == n * d + d) by (nonlinear_arith);
        vstd::arithmetic::div_mod::lemma_fundamental_div_mod_converse(
            raw + 1,
            d as int,
            n + 1,
            0,
        );
    }
}

/// A span added to its start gives its end; it is nothing where the end does not come later.
pub proof fn a_span_leads_from_start_to_end(now: Nanos, from: Nanos, r: Nanos)
    requires
        call_ensures(span, (now, from), r),
    ensures
        now >= from ==> from + r == now,
        now <= from ==> r == 0,
{
}

/// The first look starts the clock; from then on it tells the time since.
pub proof fn a_clock_tells_the_time_since_its_first_look()
    ensures
        forall|m: &mut PlaybackClock, now: Nanos, r: Nanos| #[trigger]
            call_ensures(PlaybackClock::elapsed, (m, now), r) ==> {
                &&& m.started is None ==> r == 0 && final(m).started == Some(now)
                &&& m.started matches Some(t) ==> final(m).started == Some(t) && (now >= t ==> t + r
                    == now) && (now <= t ==> r == 0)
                &&& final(m).speed == m.speed && final(m).looped == m.looped
            },
        forall|m: &mut PlaybackClock| #[trigger]
            call_ensures(PlaybackClock::restart, (m,), ()) ==> final(m).started is None
                && final(m).speed == m.speed && final(m).looped == m.looped,
        forall|speed: u64, looped: bool, c: PlaybackClock| #[trigger]
            call_ensures(PlaybackClock::new, (speed, looped), c) ==> c.started is None && c.looped
                == looped,
{
}

/// `pos` is a moment of a looped clip that is longer than 2^64 nanoseconds: of the time into the
/// current pass, what is left of whole spans of 2^64.
pub open spec fn is_folded(raw: Nanos, total: Nanos, passes: nat, rest: nat, spans: nat, pos: int) -> bool {
    &&& raw == passes * total + rest
    &&& rest < total
    &&& rest == spans * 0x1_0000_0000_0000_0000 + pos
    &&& 0 <= pos < 0x1_0000_0000_0000_0000
}

/// In a looped clip of any length the position is the time into the current pass, as far as 64 bits
/// hold it.
pub proof fn a_long_loop_is_folded(c: PlaybackClock, raw: Nanos, d: Nanos, pos: Nanos)
    requires
        call_ensures(PlaybackClock::position, (&c, raw, Some(d)), pos),
        c.looped,
        d > 0,
    ensures
        exists|passes: nat, rest: nat, spans: nat| #[trigger]
            is_folded(raw, d, passes, rest, spans, pos as int),
{
    let m: int = 0x1_0000_0000_0000_0000;
    lemma_fundamental_div_mod(raw as int, d as int);
    let n = raw as int / d as int;
    assert(d as int * n == n * d) by (nonlinear_arith);
    assert(n >= 0) by (nonlinear_arith)
        requires
            n == raw as int / d as int,
            d > 0,
            raw >= 0,
    ;
    let rest = (raw % d) as int;
    lemma_fundamental_div_mod(rest, m);
    let k = rest / m;
    assert(k >= 0);
    assert(is_folded(raw, d, n as nat, rest as nat, k as nat, pos as int));
}

} // verus!
