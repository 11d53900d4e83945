//! Laws of the registry of covers.

use crate::clock::Nanos;
use crate::config::{ConfigError, PlayParams, Settings};
use crate::frame::Frame;
use crate::laws::notify::was_added;
use crate::media::{Kind, MediaError, Source};
use crate::notify::Notifier;
use crate::registry::{Answers, Cover, CoverView, Opener, Registry, State};
use vstd::prelude::*;

verus! {

/// The user is told of an error behind the messages of `a`; without an error nothing changes.
pub open spec fn is_told(a: Notifier, b: Notifier, error: Option<MediaError>) -> bool {
    match error {
        Some(e) => was_added(a, b, "noshare-cover: "@ + e.message()),
        None => b@ == a@,
    }
}

/// The error of an attempt, if it failed.
pub open spec fn error_of<T>(r: Result<T, MediaError>) -> Option<MediaError> {
    match r {
        Ok(_) => None,
        Err(e) => Some(e),
    }
}

/// The state of a cover after the first attempt to open its source. A missing file is looked for
/// one second later; nothing else is tried again.
pub open spec fn is_opened<S>(state: State<S>, r: Result<S, MediaError>, now: Nanos) -> bool {
    match r {
        Ok(s) => state matches State::Ready { source } && source == s,
        Err(MediaError::Missing(_)) => state matches State::Missing { retry_at } && retry_at == now
            + 1_000_000_000,
        Err(_) => state is Failed,
    }
}

proof fn told<T>(a: Notifier, b: Notifier, r: Result<T, MediaError>)
    requires
        b@ == crate::registry::noted(a@, r),
    ensures
        is_told(a, b, error_of(r)),
{
    if let Err(e) = r {
        crate::laws::notify::is_added(a, b, "noshare-cover: "@ + e.message());
    }
}

/// A new cover shows nothing yet. An error is told.
pub proof fn a_new_cover_shows_nothing<S: Source>()
    ensures
        forall|
            play: PlayParams,
            id: u64,
            r: Result<S, MediaError>,
            now: Nanos,
            n: &mut Notifier,
            c: Cover<S>,
        | #[trigger]
            call_ensures(Cover::<S>::new, (play, id, r, now, n), c) && now + 1_000_000_000
                <= u128::MAX ==> c.play == play && c.id == id && is_opened(c.state, r, now)
                && c.current is None && c.polled_in == 0 && c.last_used == now && is_told(
                *n,
                *final(n),
                error_of(r),
            ),
{
    assert forall|
        play: PlayParams,
        id: u64,
        r: Result<S, MediaError>,
        now: Nanos,
        n: &mut Notifier,
        c: Cover<S>,
    | #[trigger]
        call_ensures(Cover::<S>::new, (play, id, r, now, n), c) && now + 1_000_000_000
            <= u128::MAX implies c.play == play && c.id == id && is_opened(c.state, r, now)
        && c.current is None && c.polled_in == 0 && c.last_used == now && is_told(
        *n,
        *final(n),
        error_of(r),
    ) by {
        told(*n, *final(n), r);
    }
}

/// The file is missing, and the time to look for it has come.
pub open spec fn is_time<S>(c: Cover<S>, now: Nanos) -> bool {
    c.state matches State::Missing { retry_at } && retry_at <= now
}

/// A missing file is looked for when its time has come.
pub proof fn a_missing_file_has_its_time<S: Source>(c: Cover<S>, now: Nanos, r: bool)
    requires
        call_ensures(Cover::<S>::due, (&c, now), r),
    ensures
        r <==> is_time(c, now),
{
}

/// Everything but the state of the source and the picture is the same.
pub open spec fn is_same_cover<S>(a: Cover<S>, b: Cover<S>) -> bool {
    a.play == b.play && a.id == b.id
}

/// The state after a further attempt: a file that is still missing is left alone for one more
/// second, and an error is final.
pub open spec fn is_revived<S>(
    state: State<S>,
    found: Option<Result<S, MediaError>>,
    now: Nanos,
) -> bool {
    match found {
        None => state matches State::Missing { retry_at } && retry_at == now + 1_000_000_000,
        Some(Ok(s)) => state matches State::Ready { source } && source == s,
        Some(Err(_)) => state is Failed,
    }
}

/// A further attempt changes the state alone. An error is told; that the file is still missing is
/// not.
pub proof fn a_file_is_looked_for_again<S: Source>()
    ensures
        forall|
            c: &mut Cover<S>,
            found: Option<Result<S, MediaError>>,
            now: Nanos,
            n: &mut Notifier,
        | #[trigger]
            call_ensures(Cover::<S>::revive, (c, found, now, n), ()) && now + 1_000_000_000
                <= u128::MAX ==> is_same_cover(*c, *final(c)) && is_revived(
                final(c).state,
                found,
                now,
            ) && final(c).current == c.current && final(c).polled_in == c.polled_in
                && final(c).last_used == c.last_used && (match found {
                Some(r) => is_told(*n, *final(n), error_of(r)),
                None => final(n)@ == n@,
            }),
{
    assert forall|
        c: &mut Cover<S>,
        found: Option<Result<S, MediaError>>,
        now: Nanos,
        n: &mut Notifier,
    | #[trigger]
        call_ensures(Cover::<S>::revive, (c, found, now, n), ()) && now + 1_000_000_000
            <= u128::MAX implies is_same_cover(*c, *final(c)) && is_revived(
        final(c).state,
        found,
        now,
    ) && final(c).current == c.current && final(c).polled_in == c.polled_in && final(c).last_used
        == c.last_used && (match found {
        Some(r) => is_told(*n, *final(n), error_of(r)),
        None => final(n)@ == n@,
    }) by {
        if let Some(r) = found {
            told(*n, *final(n), r);
        }
    }
}

/// The picture after what the source said: a new one, the same one, none after an error.
pub open spec fn is_pictured(
    before: Option<Frame>,
    after: Option<Frame>,
    said: Result<Option<Frame>, MediaError>,
) -> bool {
    match said {
        Ok(Some(f)) => after == Some(f),
        Ok(None) => after == before,
        Err(_) => after is None,
    }
}

/// What the source said is shown; an error ends it, and is told.
pub proof fn a_cover_shows_what_its_source_said<S: Source>()
    ensures
        forall|
            c: &mut Cover<S>,
            said: Result<Option<Frame>, MediaError>,
            frame_no: u64,
            n: &mut Notifier,
        | #[trigger]
            call_ensures(Cover::<S>::take, (c, said, frame_no, n), ()) ==> is_same_cover(
                *c,
                *final(c),
            ) && is_pictured(c.current, final(c).current, said) && final(c).polled_in == frame_no
                && final(c).last_used == c.last_used && (if said is Ok {
                final(c).state == c.state
            } else {
                final(c).state is Failed
            }) && is_told(*n, *final(n), error_of(said)),
{
    assert forall|
        c: &mut Cover<S>,
        said: Result<Option<Frame>, MediaError>,
        frame_no: u64,
        n: &mut Notifier,
    | #[trigger] call_ensures(Cover::<S>::take, (c, said, frame_no, n), ()) implies is_same_cover(
        *c,
        *final(c),
    ) && is_pictured(c.current, final(c).current, said) && final(c).polled_in == frame_no
        && final(c).last_used == c.last_used && (if said is Ok {
        final(c).state == c.state
    } else {
        final(c).state is Failed
    }) && is_told(*n, *final(n), error_of(said)) by {
        told(*n, *final(n), said);
    }
}

/// `d` is `c` after its source was asked in frame `frame_no`, unless it was asked in it already.
pub open spec fn is_asked<S>(c: Cover<S>, d: Cover<S>, w: Answers<S>, frame_no: u64) -> bool {
    if c.polled_in == frame_no {
        d.state == c.state && d.current == c.current && d.polled_in == c.polled_in
    } else {
        &&& d.polled_in == frame_no
        &&& is_pictured(c.current, d.current, w.said)
        &&& if w.said is Ok {
            d.state matches State::Ready { source } && source == w.after
        } else {
            d.state is Failed
        }
    }
}

/// `d` is `c` after a look at it.
pub open spec fn is_looked_at<S>(
    c: Cover<S>,
    d: Cover<S>,
    w: Answers<S>,
    frame_no: u64,
    now: Nanos,
) -> bool {
    &&& is_same_cover(c, d)
    &&& d.last_used == now
    &&& c.state is Ready ==> is_asked(c, d, w, frame_no)
    &&& c.state is Failed || (c.state is Missing && !is_time(c, now)) ==> d.state == c.state
        && d.current == c.current && d.polled_in == c.polled_in
    &&& is_time(c, now) ==> match w.found {
        Some(Ok(source)) => if c.polled_in == frame_no {
            d.state == (State::Ready { source }) && d.current == c.current
        } else {
            is_asked(c, d, w, frame_no)
        },
        _ => is_revived(d.state, w.found, now) && d.current == c.current && d.polled_in
            == c.polled_in,
    }
}

/// The error that a look at a cover meets.
pub open spec fn trouble<S>(c: Cover<S>, w: Answers<S>, frame_no: u64, now: Nanos) -> Option<
    MediaError,
> {
    if is_time(c, now) {
        match w.found {
            Some(Err(e)) => Some(e),
            Some(Ok(_)) => if c.polled_in == frame_no {
                None
            } else {
                error_of(w.said)
            },
            None => None,
        }
    } else if c.state is Ready && c.polled_in != frame_no {
        error_of(w.said)
    } else {
        None
    }
}

proof fn a_look<S: Source>(
    c: Cover<S>,
    w: Answers<S>,
    frame_no: u64,
    now: Nanos,
    a: Notifier,
    b: Notifier,
)
    requires
        now + 1_000_000_000 <= u128::MAX,
        b@ == crate::registry::noted_at(a@, c, w, frame_no, now),
    ensures
        is_looked_at(c, crate::registry::looked_at(c, w, frame_no, now), w, frame_no, now),
        is_told(a, b, trouble(c, w, frame_no, now)),
{
    if let Some(e) = trouble(c, w, frame_no, now) {
        crate::laws::notify::is_added(a, b, "noshare-cover: "@ + e.message());
    }
}

/// `s` are the settings that hold: those that were set, else those of the opener.
pub open spec fn holds<S: Source, O: Opener<S>>(a: Registry<S, O>, s: Settings) -> bool {
    match a.settings {
        Some(t) => s == t,
        None => call_ensures(O::defaults, (&a.opener,), s),
    }
}

/// `r` is what the opener gave for `play` under the settings that hold.
pub open spec fn is_source<S: Source, O: Opener<S>>(
    a: Registry<S, O>,
    play: PlayParams,
    r: Result<S, MediaError>,
) -> bool {
    exists|s: Settings|
        holds(a, s) && #[trigger] call_ensures(O::open, (&a.opener, &play, &s), r)
}

/// `there` is what the opener said of the file of `play`.
pub open spec fn is_there<S: Source, O: Opener<S>>(
    a: Registry<S, O>,
    play: PlayParams,
    there: bool,
) -> bool {
    exists|path: &str|
        path@ == play.path@ && #[trigger] call_ensures(O::is_there, (&a.opener, path), there)
}

/// The source that a look at a cover asks, if it asks one.
pub open spec fn whom_to_ask<S>(c: Cover<S>, w: Answers<S>, frame_no: u64, now: Nanos) -> Option<
    S,
> {
    if c.polled_in == frame_no {
        None
    } else {
        match c.state {
            State::Ready { source } => Some(source),
            State::Missing { retry_at } => if retry_at <= now {
                match w.found {
                    Some(Ok(source)) => Some(source),
                    _ => None,
                }
            } else {
                None
            },
            State::Failed => None,
        }
    }
}

/// Only covers, numbers and notes differ.
pub open spec fn is_same_registry<S: Source, O: Opener<S>>(
    a: Registry<S, O>,
    b: Registry<S, O>,
) -> bool {
    a.settings == b.settings && a.epoch == b.epoch && a.frame_no == b.frame_no && a.opener
        == b.opener
}

/// Cover `i` was there, and a look at it made `b` of `a`.
pub open spec fn looked_at_old<S: Source, O: Opener<S>>(
    a: Registry<S, O>,
    b: Registry<S, O>,
    play: PlayParams,
    now: Nanos,
    i: int,
    w: Answers<S>,
) -> bool {
    let c = a.covers@[i];
    &&& b.covers@.len() == a.covers@.len()
    &&& b.next_id == a.next_id
    &&& is_looked_at(c, b.covers@[i], w, a.frame_no, now)
    &&& is_told(a.notifier, b.notifier, trouble(c, w, a.frame_no, now))
    &&& is_time(c, now) ==> is_there(a, play, w.found is Some) && (w.found matches Some(r)
        ==> is_source(a, play, r))
}

/// There was no cover for `play`; a new one came last, and was looked at.
pub open spec fn looked_at_new<S: Source, O: Opener<S>>(
    a: Registry<S, O>,
    b: Registry<S, O>,
    play: PlayParams,
    now: Nanos,
    w: Answers<S>,
    c: Cover<S>,
) -> bool {
    let i = a.covers@.len() as int;
    &&& b.covers@.len() == i + 1
    &&& b.next_id == a.next_id + 1
    &&& forall|j: int| 0 <= j < i ==> (#[trigger] a.covers@[j]).play.key() != play.key()
    &&& is_source(a, play, w.opened)
    &&& c.id == a.next_id
    &&& c.play.path@ == play.path@
    &&& c.play.speed == play.speed
    &&& c.play.looped == play.looped
    &&& is_opened(c.state, w.opened, now)
    &&& c.current is None
    &&& c.polled_in == 0
    &&& is_looked_at(c, b.covers@[i], w, a.frame_no, now)
    &&& is_told(
        a.notifier,
        b.notifier,
        if w.opened is Err {
            error_of(w.opened)
        } else {
            trouble(c, w, a.frame_no, now)
        },
    )
}

/// A look at the cover for `play`, which is number `i`, made `b` of `a`.
pub open spec fn is_look<S: Source, O: Opener<S>>(
    a: Registry<S, O>,
    b: Registry<S, O>,
    play: PlayParams,
    now: Nanos,
    i: int,
    w: Answers<S>,
) -> bool {
    &&& is_same_registry(a, b)
    &&& 0 <= i < b.covers@.len()
    &&& b.covers@[i].play.key() == play.key()
    &&& forall|j: int|
        0 <= j < a.covers@.len() && j != i ==> #[trigger] b.covers@[j] == a.covers@[j]
    &&& if i < a.covers@.len() {
        a.covers@[i].play.key() == play.key() && looked_at_old(a, b, play, now, i, w)
    } else {
        exists|c: Cover<S>| #[trigger] looked_at_new(a, b, play, now, w, c)
    }
}

/// The source that a look at cover `i` asks, if it asks one: that of the cover, or the one that was
/// just opened.
pub open spec fn who_is_asked<S: Source, O: Opener<S>>(
    a: Registry<S, O>,
    now: Nanos,
    i: int,
    w: Answers<S>,
) -> Option<S> {
    if i < a.covers@.len() {
        whom_to_ask(a.covers@[i], w, a.frame_no, now)
    } else if a.frame_no == 0 {
        None
    } else {
        match w.opened {
            Ok(source) => Some(source),
            Err(_) => None,
        }
    }
}

proof fn opened_by<S: Source, O: Opener<S>>(
    a: Registry<S, O>,
    play: PlayParams,
    r: Result<S, MediaError>,
)
    requires
        a.opens(play, r),
    ensures
        is_source(a, play, r),
{
    let s = choose|s: Settings|
        a.in_force(s) && #[trigger] call_ensures(O::open, (&a.opener, &play, &s), r);
    assert(holds(a, s));
}

/// What serves a window is a look at its cover.
pub proof fn serves_is_a_look<S: Source, O: Opener<S>>(
    a: Registry<S, O>,
    b: Registry<S, O>,
    play: PlayParams,
    now: Nanos,
    i: int,
    w: Answers<S>,
)
    requires
        a.wf(),
        now + 1_000_000_000 <= u128::MAX,
        b.serves(&a, play, now, i, w),
        a.opener_said(play, now, w),
    ensures
        is_look(a, b, play, now, i, w),
        a.source_asked(play, now, w) == who_is_asked(a, now, i, w),
{
    crate::registry::found_is_there(a.covers@, play.key());
    match crate::registry::found(a.covers@, play.key()) {
        Some(k) => {
            let c = a.covers@[i];
            a_look(c, w, a.frame_no, now, a.notifier, b.notifier);
            if is_time(c, now) {
                assert(a.retries(play, w.found));
                if let Some(r) = w.found {
                    opened_by(a, play, r);
                }
            }
            assert(looked_at_old(a, b, play, now, i, w));
        },
        None => {
            let c = a.cover_for(b.covers@[i].play, now, w);
            opened_by(a, play, w.opened);
            assert(b.covers@[i] == crate::registry::looked_at(c, w, a.frame_no, now));
            assert(c.play@ == play@);
            if let Err(e) = w.opened {
                crate::laws::notify::is_added(
                    a.notifier,
                    b.notifier,
                    "noshare-cover: "@ + e.message(),
                );
                a_look_without_notes(c, w, a.frame_no, now);
            } else {
                a_look(c, w, a.frame_no, now, a.notifier, b.notifier);
            }
            assert(looked_at_new(a, b, play, now, w, c));
        },
    }
}

proof fn a_look_without_notes<S: Source>(c: Cover<S>, w: Answers<S>, frame_no: u64, now: Nanos)
    requires
        now + 1_000_000_000 <= u128::MAX,
    ensures
        is_looked_at(c, crate::registry::looked_at(c, w, frame_no, now), w, frame_no, now),
{
}

/// A look at a cover opens its source once, looks for a missing file in its time, asks the source
/// once per frame and shows what it says. No other cover changes.
pub proof fn a_look_changes_one_cover<S: Source, O: Opener<S>>()
    ensures
        forall|r: &mut Registry<S, O>, play: &PlayParams, now: Nanos, i: usize| #[trigger]
            call_ensures(Registry::<S, O>::refresh, (r, play, now), i) && r.wf() && now
                + 1_000_000_000 <= u128::MAX ==> exists|w: Answers<S>| #[trigger]
                is_look(*r, *final(r), *play, now, i as int, w) && (who_is_asked(
                    *r,
                    now,
                    i as int,
                    w,
                ) matches Some(source) ==> exists|m: &mut S|
                    *m == source && *final(m) == w.after && #[trigger] call_ensures(
                        S::poll,
                        (m, now),
                        w.said,
                    )),
{
    assert forall|r: &mut Registry<S, O>, play: &PlayParams, now: Nanos, i: usize| #[trigger]
        call_ensures(Registry::<S, O>::refresh, (r, play, now), i) && r.wf() && now + 1_000_000_000
            <= u128::MAX implies exists|w: Answers<S>| #[trigger]
        is_look(*r, *final(r), *play, now, i as int, w) && (who_is_asked(
            *r,
            now,
            i as int,
            w,
        ) matches Some(source) ==> exists|m: &mut S|
            *m == source && *final(m) == w.after && #[trigger] call_ensures(
                S::poll,
                (m, now),
                w.said,
            )) by {
        let w = choose|w: Answers<S>| #[trigger]
            final(r).serves(r, *play, now, i as int, w) && r.opener_said(*play, now, w) && (
            r.source_asked(*play, now, w) matches Some(source) ==> exists|m: &mut S|
                *m == source && *final(m) == w.after && #[trigger] call_ensures(
                    S::poll,
                    (m, now),
                    w.said,
                ));
        serves_is_a_look(*r, *final(r), *play, now, i as int, w);
    }
}

/// `view` is what cover `c` shows.
pub open spec fn is_view<S>(view: Option<CoverView<'_>>, c: Cover<S>) -> bool {
    match c.current {
        Some(f) => view matches Some(v) && v.id == c.id && *v.frame == f,
        None => view is None,
    }
}

/// A window gets the frame of its cover and the number of the cover.
pub proof fn a_window_gets_its_cover<S: Source, O: Opener<S>>()
    ensures
        forall|r: &mut Registry<S, O>, play: &PlayParams, now: Nanos, v: Option<CoverView<'_>>|
            #[trigger]
            call_ensures(Registry::<S, O>::resolve, (r, play, now), v) && r.wf() && now
                + 1_000_000_000 <= u128::MAX ==> exists|i: int, w: Answers<S>| #[trigger]
                is_look(*r, *final(r), *play, now, i, w) && is_view(v, final(r).covers@[i]) && (
                who_is_asked(*r, now, i, w) matches Some(source) ==> exists|m: &mut S|
                    *m == source && *final(m) == w.after && #[trigger] call_ensures(
                        S::poll,
                        (m, now),
                        w.said,
                    )),
{
    assert forall|r: &mut Registry<S, O>, play: &PlayParams, now: Nanos, v: Option<CoverView<'_>>|
        #[trigger]
        call_ensures(Registry::<S, O>::resolve, (r, play, now), v) && r.wf() && now + 1_000_000_000
            <= u128::MAX implies exists|i: int, w: Answers<S>| #[trigger]
        is_look(*r, *final(r), *play, now, i, w) && is_view(v, final(r).covers@[i]) && (
        who_is_asked(*r, now, i, w) matches Some(source) ==> exists|m: &mut S|
            *m == source && *final(m) == w.after && #[trigger] call_ensures(
                S::poll,
                (m, now),
                w.said,
            )) by {
        let (i, w) = choose|i: int, w: Answers<S>| #[trigger]
            final(r).serves(r, *play, now, i, w) && r.opener_said(*play, now, w) && (
            r.source_asked(*play, now, w) matches Some(source) ==> exists|m: &mut S|
                *m == source && *final(m) == w.after && #[trigger] call_ensures(
                    S::poll,
                    (m, now),
                    w.said,
                )) && match final(r).covers@[i].current {
                Some(f) => v matches Some(u) && u.id == final(r).covers@[i].id && *u.frame == f,
                None => v is None,
            };
        serves_is_a_look(*r, *final(r), *play, now, i, w);
    }
}

/// The covers of `b` are those of `a` that stay: the default one, and those that somebody showed in
/// the last thirty seconds.
pub open spec fn is_evicted<S: Source, O: Opener<S>>(
    a: Registry<S, O>,
    b: Registry<S, O>,
    default: PlayParams,
    now: Nanos,
) -> bool {
    &&& is_same_registry(a, b)
    &&& a.next_id == b.next_id
    &&& a.notifier == b.notifier
    &&& forall|i: int|
        0 <= i < a.covers@.len() ==> (b.covers@.contains(#[trigger] a.covers@[i])
            <==> a.covers@[i].play.key() == default.key() || now < a.covers@[i].last_used
            + 30_000_000_000)
    &&& forall|k: int| 0 <= k < b.covers@.len() ==> a.covers@.contains(#[trigger] b.covers@[k])
    &&& forall|k: int, l: int|
        0 <= k < l < b.covers@.len() ==> (#[trigger] b.covers@[k]).id < (
        #[trigger] b.covers@[l]).id
}

proof fn kept_are_evicted<S: Source, O: Opener<S>>(
    a: Registry<S, O>,
    b: Registry<S, O>,
    default: PlayParams,
    now: Nanos,
)
    requires
        b.wf(),
        b.same_frame(&a),
        b.next_id == a.next_id,
        b.notifier == a.notifier,
        b.covers@ == crate::registry::kept_covers(a.covers@, default.key(), now),
    ensures
        is_evicted(a, b, default, now),
{
    let f = |c: Cover<S>| crate::registry::is_kept(c, default.key(), now);
    crate::registry::filter_only(a.covers@, f);
    assert forall|i: int| 0 <= i < a.covers@.len() implies (b.covers@.contains(
        #[trigger] a.covers@[i],
    ) <==> a.covers@[i].play.key() == default.key() || now < a.covers@[i].last_used
        + 30_000_000_000) by {
        if a.covers@[i].play.key() == default.key() {
            crate::registry::the_default_cover_stays(a.covers@, default.key(), now, i);
        } else {
            crate::registry::unused_covers_leave(a.covers@, default.key(), now, i);
        }
    }
    assert forall|k: int| 0 <= k < b.covers@.len() implies a.covers@.contains(
        #[trigger] b.covers@[k],
    ) by {
        assert(b.covers@[k] == a.covers@.filter(f)[k]);
    }
}

/// Covers that nobody has shown for thirty seconds leave; the others stay, in their order.
pub proof fn covers_leave_after_thirty_seconds<S: Source, O: Opener<S>>()
    ensures
        forall|r: &mut Registry<S, O>, default: &PlayParams, now: Nanos| #[trigger]
            call_ensures(Registry::<S, O>::evict, (r, default, now), ()) ==> is_evicted(
                *r,
                *final(r),
                *default,
                now,
            ),
        forall|r: &mut Registry<S, O>, now: Nanos| #[trigger]
            call_ensures(Registry::<S, O>::end_frame, (r, now), ()) ==> exists|s: Settings|
                #[trigger] holds(*r, s) && is_evicted(
                    *r,
                    *final(r),
                    PlayParams { path: s.path_cover, speed: s.speed, looped: s.looped },
                    now,
                ),
{
    assert forall|r: &mut Registry<S, O>, default: &PlayParams, now: Nanos| #[trigger]
        call_ensures(Registry::<S, O>::evict, (r, default, now), ()) implies is_evicted(
        *r,
        *final(r),
        *default,
        now,
    ) by {
        kept_are_evicted(*r, *final(r), *default, now);
    }
    assert forall|r: &mut Registry<S, O>, now: Nanos| #[trigger]
        call_ensures(Registry::<S, O>::end_frame, (r, now), ()) implies exists|s: Settings|
        #[trigger] holds(*r, s) && is_evicted(
            *r,
            *final(r),
            PlayParams { path: s.path_cover, speed: s.speed, looped: s.looped },
            now,
        ) by {
        let s = choose|s: Settings| #[trigger]
            r.in_force(s) && final(r).covers@ == crate::registry::kept_covers(
                r.covers@,
                s.key(),
                now,
            );
        let default = PlayParams { path: s.path_cover, speed: s.speed, looped: s.looped };
        assert(default.key() == s.key());
        kept_are_evicted(*r, *final(r), default, now);
        assert(holds(*r, s));
    }
}

/// The notes after a change of settings: what waits still waits, what came last may come again,
/// and an error of the configuration is told.
pub open spec fn is_renewed(a: Notifier, b: Notifier, error: Option<ConfigError>) -> bool {
    match error {
        Some(e) => exists|m: Notifier| #[trigger]
            crate::laws::notify::was_reset(a, m) && was_added(m, b, e.message()),
        None => crate::laws::notify::was_reset(a, b),
    }
}

proof fn renewed(a: Notifier, b: Notifier, error: Option<ConfigError>)
    requires
        b@ == crate::registry::reset_notes(a@, error),
    ensures
        is_renewed(a, b, error),
{
    match error {
        Some(e) => {
            let m = Notifier { last: None, queue: a.queue };
            assert(m@ == (None::<Seq<char>>, a@.1));
            crate::laws::notify::is_reset(a, m);
            crate::laws::notify::is_added(m, b, e.message());
        },
        None => {
            crate::laws::notify::is_reset(a, b);
        },
    }
}

/// `b` starts over: new settings, the next epoch, no cover.
pub open spec fn starts_over<S: Source, O: Opener<S>>(
    a: Registry<S, O>,
    b: Registry<S, O>,
    settings: Settings,
    error: Option<ConfigError>,
) -> bool {
    &&& b.settings == Some(settings)
    &&& b.epoch == a.epoch + 1
    &&& b.covers@.len() == 0
    &&& b.next_id == a.next_id
    &&& b.opener == a.opener
    &&& is_renewed(a.notifier, b.notifier, error)
}

/// A reset drops every cover and begins the next epoch.
pub proof fn a_reset_starts_over<S: Source, O: Opener<S>>()
    ensures
        forall|r: &mut Registry<S, O>, settings: Settings, error: Option<ConfigError>| #[trigger]
            call_ensures(Registry::<S, O>::reset, (r, settings, error), ()) ==> starts_over(
                *r,
                *final(r),
                settings,
                error,
            ) && final(r).frame_no == r.frame_no,
{
    assert forall|r: &mut Registry<S, O>, settings: Settings, error: Option<ConfigError>| #[trigger]
        call_ensures(Registry::<S, O>::reset, (r, settings, error), ()) implies starts_over(
        *r,
        *final(r),
        settings,
        error,
    ) && final(r).frame_no == r.frame_no by {
        renewed(r.notifier, final(r).notifier, error);
    }
}

/// The default cover of the settings was looked at after a fresh start.
pub open spec fn is_ready<S: Source, O: Opener<S>>(
    a: Registry<S, O>,
    b: Registry<S, O>,
    settings: Settings,
    error: Option<ConfigError>,
    now: Nanos,
    mid: Registry<S, O>,
    play: PlayParams,
    w: Answers<S>,
) -> bool {
    &&& starts_over(a, mid, settings, error)
    &&& mid.frame_no == a.frame_no + 1
    &&& play.path@ == settings.path_cover@
    &&& play.speed == settings.speed
    &&& play.looped == settings.looped
    &&& is_look(mid, b, play, now, 0, w)
}

/// Settings that hold already change nothing; others start over, and where they name a file its
/// cover is made at once.
pub proof fn new_settings_start_over<S: Source, O: Opener<S>>()
    ensures
        forall|
            r: &mut Registry<S, O>,
            settings: Settings,
            error: Option<ConfigError>,
            now: Nanos,
        | #[trigger]
            call_ensures(Registry::<S, O>::set_settings, (r, settings, error, now), ()) && now
                + 1_000_000_000 <= u128::MAX && r.frame_no < u64::MAX && r.wf() ==> {
                if r.settings matches Some(s) && s.equals(&settings) {
                    *final(r) == *r
                } else if settings.path_cover@.len() == 0 {
                    starts_over(*r, *final(r), settings, error) && final(r).frame_no == r.frame_no
                } else {
                    final(r).covers@.len() == 1 && exists|
                        mid: Registry<S, O>,
                        play: PlayParams,
                        w: Answers<S>,
                    | #[trigger]
                        is_ready(*r, *final(r), settings, error, now, mid, play, w)
                }
            },
{
    assert forall|
        r: &mut Registry<S, O>,
        settings: Settings,
        error: Option<ConfigError>,
        now: Nanos,
    | #[trigger]
        call_ensures(Registry::<S, O>::set_settings, (r, settings, error, now), ()) && now
            + 1_000_000_000 <= u128::MAX && r.frame_no < u64::MAX && r.wf() implies {
        if r.settings matches Some(s) && s.equals(&settings) {
            *final(r) == *r
        } else if settings.path_cover@.len() == 0 {
            starts_over(*r, *final(r), settings, error) && final(r).frame_no == r.frame_no
        } else {
            final(r).covers@.len() == 1 && exists|
                mid: Registry<S, O>,
                play: PlayParams,
                w: Answers<S>,
            | #[trigger]
                is_ready(*r, *final(r), settings, error, now, mid, play, w)
        }
    } by {
        if !r.has_settings(&settings) {
            if settings.path_cover@.len() == 0 {
                renewed(r.notifier, final(r).notifier, error);
            } else {
                let (mid, play, w) = choose|
                    mid: Registry<S, O>,
                    play: PlayParams,
                    w: Answers<S>,
                | #[trigger]
                    final(r).serves(&mid, play, now, 0, w) && mid.restarted(
                        r,
                        settings,
                        error,
                        (r.frame_no + 1) as u64,
                    ) && play@ == settings.plays() && mid.opener_said(play, now, w);
                renewed(r.notifier, mid.notifier, error);
                assert(mid.notifier.wf()) by {
                    assert(mid.notifier@.1.len() == mid.notifier.queue@.len());
                    assert(r.notifier@.1.len() == r.notifier.queue@.len());
                }
                serves_is_a_look(mid, *final(r), play, now, 0, w);
                assert(is_ready(*r, *final(r), settings, error, now, mid, play, w));
            }
        }
    }
}

/// The frames of the screen are counted one by one; nothing else changes.
pub proof fn frames_are_counted<S: Source, O: Opener<S>>()
    ensures
        forall|r: &mut Registry<S, O>| #[trigger]
            call_ensures(Registry::<S, O>::begin_frame, (r,), ()) ==> final(r).frame_no
                == r.frame_no + 1 && final(r).settings == r.settings && final(r).epoch == r.epoch
                && final(r).covers == r.covers && final(r).next_id == r.next_id
                && final(r).notifier == r.notifier && final(r).opener == r.opener,
{
}

/// What a registry tells of itself: how many covers it has and which, the epoch, the settings.
pub proof fn a_registry_tells_what_it_has<S: Source, O: Opener<S>>(
    r: Registry<S, O>,
    ids: Vec<u64>,
    n: usize,
    empty: bool,
    epoch: u64,
    defaults: Settings,
    settings: Settings,
)
    requires
        call_ensures(Registry::<S, O>::live_ids, (&r,), ids),
        call_ensures(Registry::<S, O>::len, (&r,), n),
        call_ensures(Registry::<S, O>::is_empty, (&r,), empty),
        call_ensures(Registry::<S, O>::epoch, (&r,), epoch),
        call_ensures(Registry::<S, O>::settings, (&r, defaults), settings),
    ensures
        ids@.len() == r.covers@.len() == n,
        forall|i: int| 0 <= i < ids@.len() ==> #[trigger] ids@[i] == r.covers@[i].id,
        empty <==> r.covers@.len() == 0,
        epoch == r.epoch,
        r.settings is None ==> settings == defaults,
        r.settings matches Some(s) ==> settings.path_cover@ == s.path_cover@ && settings.looped
            == s.looped && settings.speed == s.speed && settings.backend == s.backend && (
        settings.gpu_device is Some <==> s.gpu_device is Some),
        r.settings matches Some(s) ==> settings.gpu_device matches Some(d) ==> s.gpu_device matches Some(
            e,
        ) && d@ == e@,
{
}

/// A new registry has no cover, no settings and no message; its first cover gets the number 1.
pub proof fn a_new_registry_is_empty<S: Source, O: Opener<S>>(opener: O, r: Registry<S, O>)
    requires
        call_ensures(Registry::<S, O>::with_opener, (opener,), r),
    ensures
        r.opener == opener,
        r.settings is None,
        r.epoch == 0,
        r.covers@.len() == 0,
        r.next_id == 1,
        r.frame_no == 0,
        r.notifier.queue@.len() == 0,
        r.notifier.last is None,
{
    assert(r.notifier@.1.len() == r.notifier.queue@.len());
}

/// The source of the cover says that it is a picture that moves.
pub open spec fn can_move<S: Source>(c: Cover<S>) -> bool {
    c.state matches State::Ready { source } && exists|kind: Kind| #[trigger]
        call_ensures(S::kind, (&source,), kind) && (kind is Gif || kind is Video)
}

/// The cover has no source, or one that says that it is a still.
pub open spec fn can_rest<S: Source>(c: Cover<S>) -> bool {
    c.state matches State::Ready { source } ==> exists|kind: Kind| #[trigger]
        call_ensures(S::kind, (&source,), kind) && kind is Still
}

/// Something moves if and only if a GIF or a video was shown in the last thirty seconds.
pub proof fn only_what_is_shown_moves<S: Source, O: Opener<S>>(
    reg: Registry<S, O>,
    now: Nanos,
    r: bool,
)
    requires
        call_ensures(Registry::<S, O>::animating, (&reg, now), r),
    ensures
        r ==> exists|i: int|
            0 <= i < reg.covers@.len() && can_move(#[trigger] reg.covers@[i]) && now
                < reg.covers@[i].last_used + 30_000_000_000,
        !r ==> forall|i: int|
            0 <= i < reg.covers@.len() && now < (#[trigger] reg.covers@[i]).last_used
                + 30_000_000_000 ==> can_rest(reg.covers@[i]),
{
    if r {
        let i = choose|i: int|
            0 <= i < reg.covers@.len() && crate::registry::moves(
                #[trigger] reg.covers@[i],
                now,
                crate::registry::EVICT_AFTER,
            );
        a_mover(reg.covers@[i], now, crate::registry::EVICT_AFTER);
    } else {
        assert forall|i: int|
            0 <= i < reg.covers@.len() && now < (#[trigger] reg.covers@[i]).last_used
                + 30_000_000_000 implies can_rest(reg.covers@[i]) by {
            a_rester(reg.covers@[i], now, crate::registry::EVICT_AFTER);
        }
    }
}

/// A cover that moves can move, and was shown in time.
pub proof fn a_mover<S: Source>(c: Cover<S>, now: Nanos, within: Nanos)
    requires
        crate::registry::moves(c, now, within),
        within > 0,
    ensures
        can_move(c),
        now < c.last_used + within,
{
    let kind = choose|kind: Kind| #[trigger]
        call_ensures(S::kind, (&c.state->source,), kind) && kind != Kind::Still;
    assert(call_ensures(S::kind, (&c.state->source,), kind));
    assert(kind is Gif || kind is Video);
}

/// A cover that rests and was shown in time can rest.
pub proof fn a_rester<S: Source>(c: Cover<S>, now: Nanos, within: Nanos)
    requires
        crate::registry::rests(c, now, within),
        now < c.last_used + within,
        within > 0,
    ensures
        can_rest(c),
{
    if let State::Ready { source } = c.state {
        let kind = choose|kind: Kind| #[trigger]
            call_ensures(S::kind, (&c.state->source,), kind) && kind == Kind::Still;
        assert(call_ensures(S::kind, (&source,), kind));
    }
}

/// A cover is found by its parameters, and only if there is one with them.
pub proof fn covers_are_found_by_parameters<S: Source, O: Opener<S>>(
    reg: Registry<S, O>,
    play: PlayParams,
    r: Option<usize>,
)
    requires
        call_ensures(Registry::<S, O>::position, (&reg, &play), r),
    ensures
        r matches Some(i) ==> i < reg.covers@.len() && reg.covers@[i as int].play.key()
            == play.key(),
        r is None ==> forall|i: int|
            0 <= i < reg.covers@.len() ==> (#[trigger] reg.covers@[i]).play.key() != play.key(),
{
    crate::registry::found_is_there(reg.covers@, play.key());
}

/// A new cover came last, with the next number.
pub open spec fn is_enrolled<S: Source, O: Opener<S>>(
    a: Registry<S, O>,
    b: Registry<S, O>,
    play: PlayParams,
    result: Result<S, MediaError>,
    now: Nanos,
) -> bool {
    &&& is_same_registry(a, b)
    &&& b.next_id == a.next_id + 1
    &&& b.covers@.len() == a.covers@.len() + 1
    &&& forall|i: int| 0 <= i < a.covers@.len() ==> #[trigger] b.covers@[i] == a.covers@[i]
    &&& is_told(a.notifier, b.notifier, error_of(result))
    &&& ({
        let c = b.covers@.last();
        &&& c.play.path@ == play.path@ && c.play.speed == play.speed && c.play.looped == play.looped
        &&& c.id == a.next_id
        &&& is_opened(c.state, result, now)
        &&& c.current is None && c.polled_in == 0 && c.last_used == now
    })
}

proof fn enrolled<S: Source, O: Opener<S>>(
    a: Registry<S, O>,
    b: Registry<S, O>,
    play: PlayParams,
    result: Result<S, MediaError>,
    now: Nanos,
)
    requires
        now + 1_000_000_000 <= u128::MAX,
        b.same_frame(&a),
        b.next_id == a.next_id + 1,
        b.notifier@ == crate::registry::noted(a.notifier@, result),
        b.covers@.len() == a.covers@.len() + 1,
        b.covers@.drop_last() == a.covers@,
        ({
            let c = b.covers@.last();
            &&& c.play@ == play@
            &&& c.id == a.next_id
            &&& c.state == crate::registry::opened(result, now)
            &&& c.current is None
            &&& c.polled_in == 0
            &&& c.last_used == now
        }),
    ensures
        is_enrolled(a, b, play, result, now),
{
    told(a.notifier, b.notifier, result);
    assert(b.covers@.last().play@ == play@);
    assert forall|i: int| 0 <= i < a.covers@.len() implies #[trigger] b.covers@[i]
        == a.covers@[i] by {
        assert(b.covers@.drop_last()[i] == b.covers@[i]);
    }
}

/// New covers come last, and are numbered one by one.
pub proof fn new_covers_come_last<S: Source, O: Opener<S>>()
    ensures
        forall|r: &mut Registry<S, O>, play: &PlayParams, result: Result<S, MediaError>, now: Nanos|
            #[trigger]
            call_ensures(Registry::<S, O>::enroll, (r, play, result, now), ()) && now
                + 1_000_000_000 <= u128::MAX ==> is_enrolled(*r, *final(r), *play, result, now),
{
    assert forall|r: &mut Registry<S, O>, play: &PlayParams, result: Result<S, MediaError>, now: Nanos|
        #[trigger]
        call_ensures(Registry::<S, O>::enroll, (r, play, result, now), ()) && now + 1_000_000_000
            <= u128::MAX implies is_enrolled(*r, *final(r), *play, result, now) by {
        enrolled(*r, *final(r), *play, result, now);
    }
}

} // verus!
