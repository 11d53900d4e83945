//! Video: decoding runs in a thread of its own; only the last ready frame comes out.
//!
//! The thread sleeps while nobody asks for frames. After it wakes up, its clock starts at the
//! current frame: time that was slept through is not made up for. The thread itself, its lock
//! and its waiting are the program's; what it does next is decided here.

pub mod backend;
pub mod bitstream;
pub mod decode;
pub mod demux;
pub mod pipeline;
pub mod yuv;

use crate::clock::{span, Nanos};
use crate::frame::Frame;
use crate::media::video::pipeline::{DecodedFrame, Next, PipeResult};
use crate::media::MediaError;
use vstd::prelude::*;
use vstd::string::*;

verus! {

/// How long nobody has to ask for a frame before the thread falls asleep.
pub const IDLE_AFTER: Nanos = 400_000_000;

/// A frame that is later than this is dropped.
pub const DROP_LATE: Nanos = 80_000_000;

/// How long the first request for a new cover waits for the first frame. Without it the first
/// capture of the screen would hold a black rectangle in place of the cover.
pub const FIRST_FRAME_WAIT: Nanos = 120_000_000;

/// The longest time that the thread waits for the moment of a frame in one go.
pub const LONGEST_WAIT: Nanos = 1_000_000_000;

/// What the thread and its source share, under a lock.
pub struct Shared {
    pub latest: Option<Frame>,
    pub generation: u64,
    /// When somebody asked for a frame.
    pub watched: Option<Nanos>,
    pub quit: bool,
    /// The error that ended the thread, for the user.
    pub error: Option<String>,
    pub ended: bool,
}

/// Somebody asked for a frame not long before `now`.
pub open spec fn watched_at(watched: Option<Nanos>, now: Nanos) -> bool {
    watched matches Some(t) && crate::clock::since(now, t) < IDLE_AFTER
}

impl Shared {
    /// The frame that waits has the last number.
    pub open spec fn wf(&self) -> bool {
        self.latest matches Some(f) ==> f.generation == self.generation
    }

    /// Nothing has happened yet.
    pub fn new() -> (r: Shared)
        ensures
            r.wf(),
            r.latest is None,
            r.generation == 0,
            r.watched is None,
            !r.quit,
            r.error is None,
            !r.ended,
    {
        Shared {
            latest: None,
            generation: 0,
            watched: None,
            quit: false,
            error: None,
            ended: false,
        }
    }

    /// Whether somebody is watching.
    pub fn is_watched(&self, now: Nanos) -> (r: bool)
        ensures
            r == watched_at(self.watched, now),
    {
        match self.watched {
            Some(t) => span(now, t) < IDLE_AFTER,
            None => false,
        }
    }

    /// Everything but the frame and its number is the same.
    pub open spec fn same_but_frame(&self, other: &Shared) -> bool {
        &&& self.watched == other.watched
        &&& self.quit == other.quit
        &&& self.error == other.error
        &&& self.ended == other.ended
    }

    /// A frame is ready.
    pub fn publish(&mut self, frame: DecodedFrame)
        requires
            old(self).generation < u64::MAX,
        ensures
            final(self).wf(),
            final(self).shows(old(self), frame),
    {
        self.generation = self.generation + 1;
        self.latest = Some(Frame { generation: self.generation, data: frame.data });
    }

    /// A frame became ready: it has the next number, and an older one that nobody took is gone.
    pub open spec fn shows(&self, before: &Shared, frame: DecodedFrame) -> bool {
        &&& self.same_but_frame(before)
        &&& self.generation == before.generation + 1
        &&& self.latest == Some(Frame { generation: self.generation, data: frame.data })
    }

    /// The thread died. An error that it told of itself comes first.
    pub fn crashed(&mut self)
        ensures
            final(self).latest == old(self).latest,
            final(self).generation == old(self).generation,
            final(self).watched == old(self).watched,
            final(self).quit == old(self).quit,
            final(self).ended == old(self).ended,
            match old(self).error {
                Some(e) => final(self).error == Some(e),
                None => final(self).error matches Some(e) && e@ == "декодер упал"@,
            },
    {
        if self.error.is_none() {
            self.error = Some("декодер упал".to_owned());
        }
    }

    /// The source is dropped: the thread has to end.
    pub fn close(&mut self)
        ensures
            final(self).quit,
            final(self).latest == old(self).latest,
            final(self).generation == old(self).generation,
            final(self).watched == old(self).watched,
            final(self).error == old(self).error,
            final(self).ended == old(self).ended,
    {
        self.quit = true;
    }
}

/// What the thread is doing.
pub enum Phase {
    /// It looks whether somebody is watching.
    Idle { slept: bool },
    /// It waits for the pipeline.
    Decoding,
    /// It holds a frame and asks for its time at the speed of the video.
    Timing(DecodedFrame),
    /// It holds a frame until its moment comes.
    Waiting { frame: DecodedFrame, due: Nanos },
    /// The video is over; the last frame stays.
    Ended,
    Stopped,
}

/// What the thread has to do next.
pub enum Action {
    /// Wait this long, or until something happens; then `tick`.
    Wait(Nanos),
    /// Wait until something happens; then `tick`.
    WaitLong,
    /// Ask the pipeline; then `decoded`.
    Decode,
    /// Divide this time by the speed; then `timed`.
    Scale(Nanos),
    /// A frame is ready: wake up who waits for it; then `tick`.
    Show,
    /// The frame was too late and is gone; then `tick`.
    Drop,
    /// Wake up who waits, and end.
    Stop,
}

/// The thread of a video.
pub struct Worker {
    /// A moment and the time of the frame that was due then.
    pub origin: Option<(Nanos, Nanos)>,
    pub phase: Phase,
}

impl Worker {
    /// Whoever holds a frame knows when the clock started.
    pub open spec fn wf(&self) -> bool {
        self.phase is Timing ==> self.origin is Some
    }

    /// A thread that has just started.
    pub fn new() -> (r: Worker)
        ensures
            r.wf(),
            r.origin is None,
            r.phase == (Phase::Idle { slept: false }),
    {
        Worker { origin: None, phase: Phase::Idle { slept: false } }
    }

    /// Time passed, or something happened.
    pub fn tick(&mut self, st: &mut Shared, now: Nanos) -> (a: Action)
        requires
            old(self).wf(),
            old(self).phase is Idle || old(self).phase is Waiting || old(self).phase is Ended,
            old(st).generation < u64::MAX,
        ensures
            final(self).wf(),
            ticked(*old(self), *old(st), now, *final(self), *final(st), a),
            old(st).wf() ==> final(st).wf(),
    {
        if st.quit {
            self.phase = Phase::Stopped;
            return Action::Stop;
        }
        let mut phase = Phase::Stopped;
        std::mem::swap(&mut phase, &mut self.phase);
        match phase {
            Phase::Idle { slept } => {
                if st.is_watched(now) {
                    if slept {
                        self.origin = None;
                    }
                    self.phase = Phase::Decoding;
                    Action::Decode
                } else {
                    self.phase = Phase::Idle { slept: true };
                    Action::Wait(IDLE_AFTER)
                }
            },
            Phase::Waiting { frame, due } => {
                if due > now {
                    self.phase = Phase::Waiting { frame, due };
                    Action::Wait(short_wait(due, now))
                } else {
                    self.phase = Phase::Idle { slept: false };
                    st.publish(frame);
                    Action::Show
                }
            },
            other => {
                self.phase = other;
                Action::WaitLong
            },
        }
    }

    /// The pipeline answered.
    pub fn decoded(&mut self, st: &mut Shared, next: PipeResult<Next>, now: Nanos) -> (a: Action)
        requires
            old(self).wf(),
            old(self).phase is Decoding,
        ensures
            final(self).wf(),
            pictured(*old(self), *old(st), next, now, *final(self), *final(st), a),
            old(st).wf() ==> final(st).wf(),
    {
        match next {
            Ok(Next::Frame(f)) => {
                let (t0, pts0) = match self.origin {
                    Some((t, p)) => (t, p),
                    None => (now, f.pts),
                };
                self.origin = Some((t0, pts0));
                let gap: Nanos = span(f.pts, pts0);
                self.phase = Phase::Timing(f);
                Action::Scale(gap)
            },
            Ok(Next::End) => {
                st.ended = true;
                if st.quit {
                    self.phase = Phase::Stopped;
                    Action::Stop
                } else {
                    self.phase = Phase::Ended;
                    Action::WaitLong
                }
            },
            Err(e) => {
                st.error = Some(e);
                self.phase = Phase::Stopped;
                Action::Stop
            },
        }
    }

    /// The time of the frame, at the speed of the video, since the clock started. The frame is
    /// held until its moment; one that is too late is dropped, so that the video does not fall
    /// behind more and more.
    pub fn timed(&mut self, st: &mut Shared, after: Nanos, now: Nanos) -> (a: Action)
        requires
            old(self).wf(),
            old(self).phase is Timing,
            old(st).generation < u64::MAX,
        ensures
            final(self).wf(),
            scheduled(*old(self), *old(st), after, now, *final(self), *final(st), a),
            old(st).wf() ==> final(st).wf(),
    {
        let mut phase = Phase::Stopped;
        std::mem::swap(&mut phase, &mut self.phase);
        if let (Phase::Timing(frame), Some((t0, _))) = (phase, self.origin) {
            let due: Nanos = t0.saturating_add(after);
            if due > now {
                self.phase = Phase::Waiting { frame, due };
                return self.tick(st, now);
            }
            self.phase = Phase::Idle { slept: false };
            if now - due > DROP_LATE {
                return Action::Drop;
            }
            st.publish(frame);
            return Action::Show;
        }
        Action::Stop
    }
}

/// What `tick` does: the thread `w` with `st` becomes `v` with `t`, and does `a` next.
pub open spec fn ticked(
    w: Worker,
    st: Shared,
    now: Nanos,
    v: Worker,
    t: Shared,
    a: Action,
) -> bool {
    if st.quit {
        a is Stop && v.phase is Stopped && v.origin == w.origin && t == st
    } else {
        match w.phase {
            Phase::Idle { slept } => {
                &&& t == st
                &&& if watched_at(st.watched, now) {
                    // time that was slept through is not made up for
                    &&& a is Decode
                    &&& v.phase is Decoding
                    &&& v.origin == if slept {
                        None
                    } else {
                        w.origin
                    }
                } else {
                    &&& a == Action::Wait(IDLE_AFTER)
                    &&& v.phase == (Phase::Idle { slept: true })
                    &&& v.origin == w.origin
                }
            },
            Phase::Waiting { frame, due } => {
                &&& v.origin == w.origin
                &&& if due > now {
                    &&& a == Action::Wait(short(due, now))
                    &&& v.phase == w.phase
                    &&& t == st
                } else {
                    &&& a is Show
                    &&& v.phase == (Phase::Idle { slept: false })
                    &&& t.shows(&st, frame)
                }
            },
            _ => a is WaitLong && v == w && t == st,
        }
    }
}

/// What `decoded` does.
pub open spec fn pictured(
    w: Worker,
    st: Shared,
    next: PipeResult<Next>,
    now: Nanos,
    v: Worker,
    t: Shared,
    a: Action,
) -> bool {
    match next {
        Ok(Next::Frame(f)) => {
            &&& t == st
            &&& v.phase == Phase::Timing(f)
            &&& v.origin == Some(
                match w.origin {
                    Some(o) => o,
                    None => (now, f.pts),
                },
            )
            &&& a == Action::Scale(crate::clock::since(f.pts, (v.origin->0).1))
        },
        Ok(Next::End) => {
            &&& t == (Shared { ended: true, ..st })
            &&& v.origin == w.origin
            &&& if st.quit {
                a is Stop && v.phase is Stopped
            } else {
                a is WaitLong && v.phase is Ended
            }
        },
        Err(e) => {
            &&& t == (Shared { error: Some(e), ..st })
            &&& v.origin == w.origin
            &&& a is Stop
            &&& v.phase is Stopped
        },
    }
}

/// What `timed` does.
pub open spec fn scheduled(
    w: Worker,
    st: Shared,
    after: Nanos,
    now: Nanos,
    v: Worker,
    t: Shared,
    a: Action,
) -> bool {
    let due = crate::media::video::pipeline::later((w.origin->0).0, after);
    let frame = w.phase->Timing_0;
    &&& v.origin == w.origin
    &&& if due > now {
        if st.quit {
            a is Stop && v.phase is Stopped && t == st
        } else {
            &&& a == Action::Wait(short(due, now))
            &&& v.phase == (Phase::Waiting { frame, due })
            &&& t == st
        }
    } else if now - due > DROP_LATE {
        &&& a is Drop
        &&& v.phase == (Phase::Idle { slept: false })
        &&& t == st
    } else {
        &&& a is Show
        &&& v.phase == (Phase::Idle { slept: false })
        &&& t.shows(&st, frame)
    }
}

/// How long to wait for the moment `due`, in one go.
pub open spec fn short(due: Nanos, now: Nanos) -> Nanos {
    if due - now < LONGEST_WAIT {
        (due - now) as u128
    } else {
        LONGEST_WAIT
    }
}

fn short_wait(due: Nanos, now: Nanos) -> (r: Nanos)
    requires
        due > now,
    ensures
        r == short(due, now),
{
    if due - now < LONGEST_WAIT {
        due - now
    } else {
        LONGEST_WAIT
    }
}

/// A video as its user sees it.
pub struct VideoSource {
    /// The number of the frame that was handed out last.
    pub sent: u64,
    pub path: String,
    /// Somebody asked for a frame before.
    pub asked: bool,
}

impl VideoSource {
    /// A video whose thread has just started.
    pub fn new(path: String) -> (r: VideoSource)
        ensures
            r.sent == 0,
            r.path == path,
            !r.asked,
    {
        VideoSource { sent: 0, path, asked: false }
    }

    /// Somebody asks for a frame. The result says whether this is the first time and no frame
    /// is there yet, so that it is worth waiting a little: that is done once in the life of a
    /// source.
    pub fn watch(&mut self, st: &mut Shared, now: Nanos) -> (r: bool)
        ensures
            final(self).sent == old(self).sent,
            final(self).path == old(self).path,
            final(self).asked,
            final(st).watched == Some(now),
            final(st).latest == old(st).latest,
            final(st).generation == old(st).generation,
            final(st).quit == old(st).quit,
            final(st).error == old(st).error,
            final(st).ended == old(st).ended,
            r == (!old(self).asked && old(self).sent == 0 && old(st).generation == 0),
    {
        st.watched = Some(now);
        let first = !self.asked;
        self.asked = true;
        first && self.sent == 0 && st.generation == 0
    }

    /// How much longer to wait for the first frame; `None` once a frame is there, none will
    /// come, or the time is up.
    pub fn patience(st: &Shared, deadline: Nanos, now: Nanos) -> (r: Option<Nanos>)
        ensures
            r == if st.generation == 0 && st.error is None && !st.ended && deadline > now {
                Some((deadline - now) as u128)
            } else {
                None
            },
    {
        if st.generation == 0 && st.error.is_none() && !st.ended && deadline > now {
            Some(deadline - now)
        } else {
            None
        }
    }

    /// The frame for the user: the last one that is ready, if it was not handed out before.
    /// An error is told when there is no frame to hand out any more.
    pub fn poll(&mut self, st: &mut Shared) -> (r: Result<Option<Frame>, MediaError>)
        ensures
            handed_out(*old(self), *old(st), *final(self), *final(st), r),
            old(st).wf() ==> final(st).wf(),
    {
        if st.generation == 0 || st.generation == self.sent {
            if let Some(e) = &st.error {
                return Err(MediaError::Video { path: self.path.clone(), reason: e.clone() });
            }
        }
        if st.generation == self.sent {
            return Ok(None);
        }
        self.sent = st.generation;
        Ok(st.latest.take())
    }
}

/// What `poll` does: the source `s` with `st` becomes `z` with `t`, and gives `r`.
pub open spec fn handed_out(
    s: VideoSource,
    st: Shared,
    z: VideoSource,
    t: Shared,
    r: Result<Option<Frame>, MediaError>,
) -> bool {
    &&& z.path == s.path
    &&& z.asked == s.asked
    &&& t.same_but_frame(&st)
    &&& t.generation == st.generation
    &&& match st.error {
        Some(why) if st.generation == 0 || st.generation == s.sent => {
            &&& r matches Err(e) && e.is_video(s.path@, why@)
            &&& z.sent == s.sent
            &&& t.latest == st.latest
        },
        _ => if st.generation == s.sent {
            &&& r == Ok::<Option<Frame>, MediaError>(None)
            &&& z.sent == s.sent
            &&& t.latest == st.latest
        } else {
            &&& r == Ok::<Option<Frame>, MediaError>(st.latest)
            &&& z.sent == st.generation
            &&& t.latest is None
        },
    }
}

/// A frame is handed out once: until the next one is ready there is nothing new, and where
/// decoding failed, that is told.
pub proof fn a_frame_is_handed_out_once(
    s0: VideoSource,
    t0: Shared,
    s1: VideoSource,
    t1: Shared,
    first: Result<Option<Frame>, MediaError>,
    s2: VideoSource,
    t2: Shared,
    second: Result<Option<Frame>, MediaError>,
)
    requires
        handed_out(s0, t0, s1, t1, first),
        handed_out(s1, t1, s2, t2, second),
        first is Ok,
    ensures
        match t0.error {
            Some(why) => second matches Err(e) && e.is_video(s0.path@, why@),
            None => second == Ok::<Option<Frame>, MediaError>(None),
        },
        s2.sent == s1.sent,
{
}

/// A later frame has a larger number: the number of what is handed out is that of the frame
/// that became ready last.
pub proof fn numbers_grow(before: Shared, ready: Shared, frame: DecodedFrame, s: VideoSource, z:
    VideoSource, after: Shared, r: Result<Option<Frame>, MediaError>)
    requires
        ready.shows(&before, frame),
        s.sent <= before.generation,
        handed_out(s, ready, z, after, r),
    ensures
        r matches Ok(Some(f)) && f.generation == before.generation + 1 && f.generation > s.sent
            && f.data == frame.data,
{
}

/// Nothing is decoded while nobody watches.
pub proof fn without_viewers_nothing_is_decoded(
    w: Worker,
    st: Shared,
    now: Nanos,
    v: Worker,
    t: Shared,
    a: Action,
)
    requires
        ticked(w, st, now, v, t, a),
        !watched_at(st.watched, now),
    ensures
        !(a is Decode),
        w.phase is Idle ==> t.generation == st.generation,
{
}

/// After a sleep the clock starts with the next frame: that frame is due at once.
pub proof fn sleep_is_not_made_up_for(
    w: Worker,
    st: Shared,
    woken: Nanos,
    v: Worker,
    f: DecodedFrame,
    now: Nanos,
    x: Worker,
    a: Action,
    b: Action,
)
    requires
        w.phase == (Phase::Idle { slept: true }),
        ticked(w, st, woken, v, st, a),
        a is Decode,
        pictured(v, st, Ok(Next::Frame(f)), now, x, st, b),
    ensures
        x.origin == Some((now, f.pts)),
        b == Action::Scale(0),
{
}

/// A thread that has to end ends at its next step, without waiting for the moment of a frame.
pub proof fn who_has_to_end_ends(
    w: Worker,
    st: Shared,
    now: Nanos,
    v: Worker,
    t: Shared,
    a: Action,
)
    requires
        ticked(w, st, now, v, t, a),
        st.quit,
    ensures
        a is Stop,
        t == st,
{
}

/// Once nobody has asked for a frame for long enough, nobody is watching, until somebody asks
/// again.
pub proof fn interest_fades(watched: Option<Nanos>, asked: Nanos, now: Nanos)
    requires
        watched == Some(asked),
        now >= asked + IDLE_AFTER,
    ensures
        !watched_at(watched, now),
{
}

} // verus!
