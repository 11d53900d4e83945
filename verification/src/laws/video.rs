//! Laws of the thread of a video and of its source.

use crate::clock::Nanos;
use crate::frame::{Frame, FrameData};
use crate::media::video::pipeline::{DecodedFrame, Next, PipeResult};
use crate::media::video::{
    Action, Phase, Shared, VideoSource, Worker, DROP_LATE, FIRST_FRAME_WAIT, IDLE_AFTER, LONGEST_WAIT,
};
use crate::media::MediaError;
use vstd::prelude::*;

verus! {

/// The thread falls asleep after 400 ms, drops what is more than 80 ms late, waits up to 120 ms for
/// the first frame, and a second at most in one go.
pub proof fn spans_of_time()
    ensures
        IDLE_AFTER == 400_000_000,
        DROP_LATE == 80_000_000,
        FIRST_FRAME_WAIT == 120_000_000,
        LONGEST_WAIT == 1_000_000_000,
{
}

/// Somebody asked for a frame in the 400 ms before `now`.
pub open spec fn is_awake(st: Shared, now: Nanos) -> bool {
    st.watched matches Some(t) && now < t + 400_000_000
}

/// A video is watched for 400 ms after somebody asked for a frame.
pub proof fn a_video_is_watched_for_a_while(st: Shared, now: Nanos, r: bool)
    requires
        call_ensures(Shared::is_watched, (&st, now), r),
    ensures
        r <==> is_awake(st, now),
{
}

/// At first there is no frame, and nobody has asked for one.
pub proof fn at_first_nothing_has_happened(st: Shared, w: Worker, path: String, s: VideoSource)
    requires
        call_ensures(Shared::new, (), st),
        call_ensures(Worker::new, (), w),
        call_ensures(VideoSource::new, (path,), s),
    ensures
        st.latest is None && st.generation == 0 && st.watched is None && !st.quit && st.error is None
            && !st.ended,
        w.origin is None && (w.phase matches Phase::Idle { slept } && !slept),
        s.sent == 0 && s.path@ == path@ && !s.asked,
{
}

/// All but the frame is the same.
pub open spec fn is_same_but_frame(a: Shared, b: Shared) -> bool {
    a.watched == b.watched && a.quit == b.quit && a.error == b.error && a.ended == b.ended
}

/// The frame with these pixels is the last one, and has the next number.
pub open spec fn is_published(a: Shared, b: Shared, data: FrameData) -> bool {
    &&& is_same_but_frame(a, b)
    &&& b.generation == a.generation + 1
    &&& b.latest matches Some(f) && f.generation == a.generation + 1 && f.data == data
}

/// A frame that is ready takes the place of the last one and gets the next number.
pub proof fn frames_are_numbered()
    ensures
        forall|st: &mut Shared, frame: DecodedFrame| #[trigger]
            call_ensures(Shared::publish, (st, frame), ()) ==> is_published(
                *st,
                *final(st),
                frame.data,
            ),
{
}

/// A thread that died leaves an error, the one that it told of or that it died; a source that is
/// dropped asks the thread to end. Nothing else changes.
pub proof fn a_thread_ends()
    ensures
        forall|st: &mut Shared| #[trigger]
            call_ensures(Shared::crashed, (st,), ()) ==> final(st).latest == st.latest
                && final(st).generation == st.generation && final(st).watched == st.watched
                && final(st).quit == st.quit && final(st).ended == st.ended && (st.error is Some
                ==> final(st).error == st.error) && (st.error is None ==> (final(st).error matches Some(e) && e@ == "декодер упал"@)),
        forall|st: &mut Shared| #[trigger]
            call_ensures(Shared::close, (st,), ()) ==> final(st).quit && final(st).latest
                == st.latest && final(st).generation == st.generation && final(st).watched
                == st.watched && final(st).error == st.error && final(st).ended == st.ended,
{
}

/// Wait for the moment `due`, a second at most.
pub open spec fn is_wait(a: Action, due: Nanos, now: Nanos) -> bool {
    a matches Action::Wait(t) && t == (if due - now <= 1_000_000_000 {
        due - now
    } else {
        1_000_000_000
    })
}

/// What the thread does when time passed: it ends if it has to; it decodes while somebody watches,
/// with a new clock after a sleep; it shows the frame that it holds when its moment comes.
pub open spec fn is_tick(
    w: Worker,
    st: Shared,
    now: Nanos,
    v: Worker,
    t: Shared,
    a: Action,
) -> bool {
    if st.quit {
        a is Stop && v.phase is Stopped && t == st
    } else {
        match w.phase {
            Phase::Idle { slept } => {
                &&& t == st
                &&& is_awake(st, now) ==> a is Decode && v.phase is Decoding && (if slept {
                    v.origin is None
                } else {
                    v.origin == w.origin
                })
                &&& !is_awake(st, now) ==> (a matches Action::Wait(d) && d == 400_000_000) && (
                v.phase matches Phase::Idle { slept: s } && s) && v.origin == w.origin
            },
            Phase::Waiting { frame, due } => {
                &&& v.origin == w.origin
                &&& now < due ==> is_wait(a, due, now) && t == st && v.phase == w.phase
                &&& now >= due ==> a is Show && is_published(st, t, frame.data) && (
                v.phase matches Phase::Idle { slept } && !slept)
            },
            _ => a is WaitLong && v == w && t == st,
        }
    }
}

/// Frames are decoded while somebody watches, and shown when their moment comes.
pub proof fn the_thread_goes_by_the_clock()
    ensures
        forall|w: &mut Worker, st: &mut Shared, now: Nanos, a: Action| #[trigger]
            call_ensures(Worker::tick, (w, st, now), a) ==> is_tick(
                *w,
                *st,
                now,
                *final(w),
                *final(st),
                a,
            ),
{
    assert forall|w: &mut Worker, st: &mut Shared, now: Nanos, a: Action| #[trigger]
        call_ensures(Worker::tick, (w, st, now), a) implies is_tick(
        *w,
        *st,
        now,
        *final(w),
        *final(st),
        a,
    ) by {
        tick_is_tick(*w, *st, now, *final(w), *final(st), a);
    }
}

proof fn tick_is_tick(w: Worker, st: Shared, now: Nanos, v: Worker, t: Shared, a: Action)
    requires
        crate::media::video::ticked(w, st, now, v, t, a),
    ensures
        is_tick(w, st, now, v, t, a),
{
}

/// What the thread does with an answer of the pipeline: the first frame starts the clock; of a
/// frame it asks for the time since then; the end stays the end; an error ends the thread.
pub open spec fn is_decoded(
    w: Worker,
    st: Shared,
    next: PipeResult<Next>,
    now: Nanos,
    v: Worker,
    t: Shared,
    a: Action,
) -> bool {
    match next {
        Ok(Next::Frame(f)) => {
            &&& t == st
            &&& v.phase == Phase::Timing(f)
            &&& w.origin is Some ==> v.origin == w.origin
            &&& w.origin is None ==> (v.origin matches Some(o) && o.0 == now && o.1 == f.pts)
            &&& v.origin matches Some(o) && (a matches Action::Scale(gap) && gap == (if f.pts
                >= o.1 {
                f.pts - o.1
            } else {
                0
            }))
        },
        Ok(Next::End) => {
            &&& t.ended
            &&& t.latest == st.latest && t.generation == st.generation && t.watched == st.watched
                && t.quit == st.quit && t.error == st.error
            &&& st.quit ==> a is Stop && v.phase is Stopped
            &&& !st.quit ==> a is WaitLong && v.phase is Ended
        },
        Err(e) => {
            &&& t.error == Some(e)
            &&& t.latest == st.latest && t.generation == st.generation && t.watched == st.watched
                && t.quit == st.quit && t.ended == st.ended
            &&& a is Stop
            &&& v.phase is Stopped
        },
    }
}

/// What the thread does with the time of a frame: it waits for its moment, shows it when the moment
/// has come, and drops it when the moment is more than 80 ms past.
pub open spec fn is_scheduled(
    w: Worker,
    st: Shared,
    frame: DecodedFrame,
    due: Nanos,
    now: Nanos,
    v: Worker,
    t: Shared,
    a: Action,
) -> bool {
    &&& v.origin == w.origin
    &&& now < due && st.quit ==> a is Stop && v.phase is Stopped && t == st
    &&& now < due && !st.quit ==> is_wait(a, due, now) && t == st && v.phase == (Phase::Waiting {
        frame,
        due,
    })
    &&& due <= now <= due + 80_000_000 ==> a is Show && is_published(st, t, frame.data) && (
    v.phase matches Phase::Idle { slept } && !slept)
    &&& now > due + 80_000_000 ==> a is Drop && t == st && (v.phase matches Phase::Idle { slept }
        && !slept)
}

/// A frame is due as long after the start of the clock as it is told.
pub open spec fn is_due(w: Worker, after: Nanos, due: Nanos) -> bool {
    w.origin matches Some(o) && due == (if o.0 + after <= u128::MAX {
        o.0 + after
    } else {
        u128::MAX as int
    })
}

/// A frame waits for its moment; one that is too late is dropped.
pub proof fn frames_are_shown_in_time(due: Nanos)
    ensures
        forall|w: &mut Worker, st: &mut Shared, next: PipeResult<Next>, now: Nanos, a: Action|
            #[trigger]
            call_ensures(Worker::decoded, (w, st, next, now), a) ==> is_decoded(
                *w,
                *st,
                next,
                now,
                *final(w),
                *final(st),
                a,
            ),
        forall|w: &mut Worker, st: &mut Shared, after: Nanos, now: Nanos, a: Action| #[trigger]
            call_ensures(Worker::timed, (w, st, after, now), a) && w.phase is Timing && is_due(
                *w,
                after,
                due,
            ) ==> is_scheduled(
                *w,
                *st,
                w.phase->Timing_0,
                due,
                now,
                *final(w),
                *final(st),
                a,
            ),
{
    assert forall|w: &mut Worker, st: &mut Shared, next: PipeResult<Next>, now: Nanos, a: Action|
        #[trigger]
        call_ensures(Worker::decoded, (w, st, next, now), a) implies is_decoded(
        *w,
        *st,
        next,
        now,
        *final(w),
        *final(st),
        a,
    ) by {
        decoded_is_decoded(*w, *st, next, now, *final(w), *final(st), a);
    }
    assert forall|w: &mut Worker, st: &mut Shared, after: Nanos, now: Nanos, a: Action| #[trigger]
        call_ensures(Worker::timed, (w, st, after, now), a) && w.phase is Timing && is_due(
            *w,
            after,
            due,
        ) implies is_scheduled(
        *w,
        *st,
        w.phase->Timing_0,
        due,
        now,
        *final(w),
        *final(st),
        a,
    ) by {
        timed_is_scheduled(*w, *st, after, due, now, *final(w), *final(st), a);
    }
}

proof fn decoded_is_decoded(
    w: Worker,
    st: Shared,
    next: PipeResult<Next>,
    now: Nanos,
    v: Worker,
    t: Shared,
    a: Action,
)
    requires
        crate::media::video::pictured(w, st, next, now, v, t, a),
    ensures
        is_decoded(w, st, next, now, v, t, a),
{
}

proof fn timed_is_scheduled(
    w: Worker,
    st: Shared,
    after: Nanos,
    due: Nanos,
    now: Nanos,
    v: Worker,
    t: Shared,
    a: Action,
)
    requires
        crate::media::video::scheduled(w, st, after, now, v, t, a),
        w.phase is Timing,
        is_due(w, after, due),
    ensures
        is_scheduled(w, st, w.phase->Timing_0, due, now, v, t, a),
{
}

/// Who asks for a frame is watching; the first who asks, before there is a frame, waits a little.
pub proof fn who_asks_is_watching()
    ensures
        forall|s: &mut VideoSource, st: &mut Shared, now: Nanos, r: bool| #[trigger]
            call_ensures(VideoSource::watch, (s, st, now), r) ==> final(s).sent == s.sent && final(s).path == s.path && final(s).asked && final(st).watched == Some(now) && final(st).latest
                == st.latest && final(st).generation == st.generation && final(st).quit == st.quit
                && final(st).error == st.error && final(st).ended == st.ended && (r
                <==> !s.asked && s.sent == 0 && st.generation == 0),
{
}

/// The wait for the first frame ends with the frame, with an error, with the video or with its
/// time.
pub proof fn patience_ends(st: Shared, deadline: Nanos, now: Nanos, r: Option<Nanos>)
    requires
        call_ensures(VideoSource::patience, (&st, deadline, now), r),
    ensures
        r is Some <==> st.generation == 0 && st.error is None && !st.ended && now < deadline,
        r matches Some(d) ==> now + d == deadline,
{
}

/// What a source gives: a frame that it did not give before, else the error, else nothing.
pub open spec fn is_given(
    s: VideoSource,
    st: Shared,
    z: VideoSource,
    t: Shared,
    r: Result<Option<Frame>, MediaError>,
) -> bool {
    let fresh = st.generation != s.sent;
    &&& z.path == s.path && z.asked == s.asked
    &&& is_same_but_frame(st, t) && t.generation == st.generation
    &&& r is Err <==> st.error is Some && (!fresh || st.generation == 0)
    &&& r matches Err(e) ==> st.error matches Some(why) && (e matches MediaError::Video {
        path,
        reason,
    } && path@ == s.path@ && reason@ == why@)
    &&& r is Err ==> z.sent == s.sent && t.latest == st.latest
    &&& r is Ok && !fresh ==> r->Ok_0 is None && z.sent == s.sent && t.latest == st.latest
    &&& r is Ok && fresh ==> r->Ok_0 == st.latest && z.sent == st.generation && t.latest is None
}

/// A source gives each frame once, and tells an error when there is no frame left.
pub proof fn a_source_gives_each_frame_once()
    ensures
        forall|s: &mut VideoSource, st: &mut Shared, r: Result<Option<Frame>, MediaError>|
            #[trigger] call_ensures(VideoSource::poll, (s, st), r) ==> is_given(
                *s,
                *st,
                *final(s),
                *final(st),
                r,
            ),
{
    assert forall|s: &mut VideoSource, st: &mut Shared, r: Result<Option<Frame>, MediaError>|
        #[trigger] call_ensures(VideoSource::poll, (s, st), r) implies is_given(
        *s,
        *st,
        *final(s),
        *final(st),
        r,
    ) by {
        handed_out_is_given(*s, *st, *final(s), *final(st), r);
    }
}

proof fn handed_out_is_given(
    s: VideoSource,
    st: Shared,
    z: VideoSource,
    t: Shared,
    r: Result<Option<Frame>, MediaError>,
)
    requires
        crate::media::video::handed_out(s, st, z, t, r),
    ensures
        is_given(s, st, z, t, r),
{
}

} // verus!
