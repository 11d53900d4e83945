//! Registry of covers: one source per file, speed and loop, no matter how many windows show
//! it.
//!
//! - New global settings: everything is reset and the epoch is bumped; textures of an older
//!   epoch are stale.
//! - The file is missing: one more try per second, and no look at the disk on every frame.
//! - The file cannot be opened: one notification, no further try until the settings change.
//! - A cover that was not shown for a while: its source is closed.

use crate::clock::{span, Nanos};
use crate::config::{ConfigError, PlayParams, Settings};
use crate::frame::Frame;
use crate::media::{Kind, MediaError, Source};
use crate::notify::Notifier;
use vstd::prelude::*;
use vstd::string::*;

verus! {

/// How long a missing file is left alone.
pub const MISSING_RETRY: Nanos = 1_000_000_000;

/// How long a cover that nobody shows is kept.
pub const EVICT_AFTER: Nanos = 30_000_000_000;

/// What the registry asks of the world.
pub trait Opener<S: Source> {
    /// Opens a source.
    fn open(&self, play: &PlayParams, settings: &Settings) -> Result<S, MediaError>;

    /// Whether there is a file of that name.
    fn is_there(&self, path: &str) -> bool;

    /// The settings as long as none were set.
    fn defaults(&self) -> Settings;
}

/// The state of a cover.
pub enum State<S> {
    /// The source works.
    Ready { source: S },
    Missing { retry_at: Nanos },
    Failed,
}

/// One cover.
pub struct Cover<S> {
    pub play: PlayParams,
    pub id: u64,
    pub state: State<S>,
    pub current: Option<Frame>,
    /// The number of the frame in which the source was asked last.
    pub polled_in: u64,
    pub last_used: Nanos,
}

/// What is drawn: the number of the cover, which a texture cache can go by, and the frame.
pub struct CoverView<'a> {
    pub id: u64,
    pub frame: &'a Frame,
}

/// The message about a source that failed.
pub open spec fn complaint(e: MediaError) -> Seq<char> {
    "noshare-cover: "@ + e.message()
}

/// The notes after an attempt.
pub open spec fn noted<T>(n: crate::notify::Notes, r: Result<T, MediaError>) -> crate::notify::Notes {
    match r {
        Ok(_) => n,
        Err(e) => crate::notify::pushed(n, complaint(e)),
    }
}

/// The state of a cover whose source was opened for the first time. Only a missing file is
/// tried again.
pub open spec fn opened<S>(r: Result<S, MediaError>, now: Nanos) -> State<S> {
    match r {
        Ok(source) => State::Ready { source },
        Err(MediaError::Missing(_)) => State::Missing { retry_at: (now + MISSING_RETRY) as u128 },
        Err(_) => State::Failed,
    }
}

/// The state of a cover whose file was missing, at its next try. `found` is what opening it
/// gave, `None` if the file is still missing.
pub open spec fn revived<S>(found: Option<Result<S, MediaError>>, now: Nanos) -> State<S> {
    match found {
        Some(Ok(source)) => State::Ready { source },
        Some(Err(_)) => State::Failed,
        None => State::Missing { retry_at: (now + MISSING_RETRY) as u128 },
    }
}

/// Tells the user about a source that failed.
fn complain(notifier: &mut Notifier, e: &MediaError)
    requires
        old(notifier).wf(),
    ensures
        final(notifier).wf(),
        final(notifier)@ == crate::notify::pushed(old(notifier)@, complaint(*e)),
{
    let mut msg = "noshare-cover: ".to_owned();
    let text = e.text();
    msg.append(text.as_str());
    notifier.push(msg);
}

/// What the world answered during one look at a cover. Where a question was not asked, its
/// answer does not matter.
pub struct Answers<S> {
    /// What opening the source of a new cover gave.
    pub opened: Result<S, MediaError>,
    /// What the next try of a missing file gave, `None` if the file is still missing.
    pub found: Option<Result<S, MediaError>>,
    /// The source after it was asked for its frame.
    pub after: S,
    /// What the source said.
    pub said: Result<Option<Frame>, MediaError>,
}

/// A cover after the next try of a missing file, if it was time for one.
pub open spec fn tried<S: Source>(
    c: Cover<S>,
    found: Option<Result<S, MediaError>>,
    now: Nanos,
) -> Cover<S> {
    if c.is_due(now) {
        Cover { state: revived(found, now), ..c }
    } else {
        c
    }
}

/// A cover after its source was asked, if it had to be asked in frame `frame_no`.
pub open spec fn asked<S: Source>(
    c: Cover<S>,
    after: S,
    said: Result<Option<Frame>, MediaError>,
    frame_no: u64,
) -> Cover<S> {
    match c.state {
        State::Ready { source } => if c.polled_in != frame_no {
            Cover {
                polled_in: frame_no,
                state: match said {
                    Ok(_) => State::Ready { source: after },
                    Err(_) => State::Failed,
                },
                current: match said {
                    Ok(Some(f)) => Some(f),
                    Ok(None) => c.current,
                    Err(_) => None,
                },
                ..c
            }
        } else {
            c
        },
        _ => c,
    }
}

/// A cover after one look at it.
pub open spec fn looked_at<S: Source>(
    c: Cover<S>,
    w: Answers<S>,
    frame_no: u64,
    now: Nanos,
) -> Cover<S> {
    asked(tried(Cover { last_used: now, ..c }, w.found, now), w.after, w.said, frame_no)
}

/// The notes after one look at a cover.
pub open spec fn noted_at<S: Source>(
    n: crate::notify::Notes,
    c: Cover<S>,
    w: Answers<S>,
    frame_no: u64,
    now: Nanos,
) -> crate::notify::Notes {
    let m = match w.found {
        Some(r) => if c.is_due(now) {
            noted(n, r)
        } else {
            n
        },
        None => n,
    };
    if tried(c, w.found, now).is_owed(frame_no) {
        noted(m, w.said)
    } else {
        m
    }
}

impl<S: Source> Cover<S> {
    /// A cover without a working source shows nothing.
    pub open spec fn wf(&self) -> bool {
        !(self.state is Ready) ==> self.current is None
    }

    /// The file was missing, and it is time to look again.
    pub open spec fn is_due(&self, now: Nanos) -> bool {
        self.state matches State::Missing { retry_at } && now >= retry_at
    }

    /// A new cover. `result` is what opening its source gave.
    pub fn new(
        play: PlayParams,
        id: u64,
        result: Result<S, MediaError>,
        now: Nanos,
        notifier: &mut Notifier,
    ) -> (c: Cover<S>)
        requires
            old(notifier).wf(),
            now + MISSING_RETRY <= u128::MAX,
        ensures
            c.wf(),
            c.play == play,
            c.id == id,
            c.state == opened(result, now),
            c.current is None,
            c.polled_in == 0,
            c.last_used == now,
            final(notifier).wf(),
            final(notifier)@ == noted(old(notifier)@, result),
    {
        let state = match result {
            Ok(source) => State::Ready { source },
            Err(e) => {
                complain(notifier, &e);
                match e {
                    MediaError::Missing(_) => State::Missing { retry_at: now + MISSING_RETRY },
                    _ => State::Failed,
                }
            },
        };
        Cover { play, id, state, current: None, polled_in: 0, last_used: now }
    }

    /// Whether the file was missing and it is time to look again.
    pub fn due(&self, now: Nanos) -> (r: bool)
        ensures
            r == self.is_due(now),
    {
        match &self.state {
            State::Missing { retry_at } => now >= *retry_at,
            _ => false,
        }
    }

    /// The next try of a missing file. `found` is what opening it gave, `None` if it is still
    /// missing.
    pub fn revive(
        &mut self,
        found: Option<Result<S, MediaError>>,
        now: Nanos,
        notifier: &mut Notifier,
    )
        requires
            old(self).wf(),
            old(self).is_due(now),
            old(notifier).wf(),
            now + MISSING_RETRY <= u128::MAX,
        ensures
            final(self).wf(),
            final(self).state == revived(found, now),
            final(self).play == old(self).play,
            final(self).id == old(self).id,
            final(self).current == old(self).current,
            final(self).polled_in == old(self).polled_in,
            final(self).last_used == old(self).last_used,
            final(notifier).wf(),
            final(notifier)@ == match found {
                Some(r) => noted(old(notifier)@, r),
                None => old(notifier)@,
            },
    {
        self.state = match found {
            Some(Ok(source)) => State::Ready { source },
            Some(Err(e)) => {
                complain(notifier, &e);
                State::Failed
            },
            None => State::Missing { retry_at: now + MISSING_RETRY },
        };
    }

    /// Whether the source has to be asked in frame `frame_no`. A cover shown in several
    /// windows is asked once per frame.
    pub open spec fn is_owed(&self, frame_no: u64) -> bool {
        self.state is Ready && self.polled_in != frame_no
    }

    /// Takes what the source said in frame `frame_no`.
    pub fn take(
        &mut self,
        said: Result<Option<Frame>, MediaError>,
        frame_no: u64,
        notifier: &mut Notifier,
    )
        requires
            old(self).is_owed(frame_no),
            old(notifier).wf(),
        ensures
            final(self).wf(),
            final(self).play == old(self).play,
            final(self).id == old(self).id,
            final(self).last_used == old(self).last_used,
            final(self).polled_in == frame_no,
            final(self).state == match said {
                Ok(_) => old(self).state,
                Err(_) => State::Failed,
            },
            final(self).current == match said {
                Ok(Some(f)) => Some(f),
                Ok(None) => old(self).current,
                Err(_) => None,
            },
            final(notifier).wf(),
            final(notifier)@ == noted(old(notifier)@, said),
    {
        self.polled_in = frame_no;
        match said {
            Ok(Some(f)) => {
                self.current = Some(f);
            },
            Ok(None) => {},
            Err(e) => {
                complain(notifier, &e);
                self.state = State::Failed;
                self.current = None;
            },
        }
    }

    /// Asks the source, if it has to be asked in frame `frame_no`. The ghost result is the
    /// source after it was asked, and what it said.
    fn poll(&mut self, frame_no: u64, now: Nanos, notifier: &mut Notifier) -> (g: Ghost<
        (S, Result<Option<Frame>, MediaError>),
    >)
        requires
            old(self).wf(),
            old(notifier).wf(),
        ensures
            final(self).wf(),
            final(notifier).wf(),
            *final(self) == asked(*old(self), g@.0, g@.1, frame_no),
            final(notifier)@ == (if old(self).is_owed(frame_no) {
                noted(old(notifier)@, g@.1)
            } else {
                old(notifier)@
            }),
            old(self).is_owed(frame_no) ==> exists|m: &mut S|
                *m == old(self).state->source && *final(m) == g@.0 && #[trigger] call_ensures(
                    S::poll,
                    (m, now),
                    g@.1,
                ),
    {
        let owed = self.polled_in != frame_no;
        let mut said = None;
        let ghost mut after: S = arbitrary();
        if let State::Ready { source } = &mut self.state {
            if owed {
                said = Some(source.poll(now));
                proof {
                    after = *source;
                }
            }
        }
        match said {
            Some(r) => {
                let ghost answer = r;
                self.take(r, frame_no, notifier);
                Ghost((after, answer))
            },
            None => Ghost(arbitrary()),
        }
    }
}

/// All covers.
pub struct Registry<S: Source, O: Opener<S>> {
    pub settings: Option<Settings>,
    pub epoch: u64,
    /// In the order in which they were made.
    pub covers: Vec<Cover<S>>,
    pub next_id: u64,
    pub frame_no: u64,
    pub notifier: Notifier,
    pub opener: O,
}

/// Where the cover for `key` is.
pub open spec fn found<S: Source>(covers: Seq<Cover<S>>, key: crate::config::PlayKey) -> Option<
    int,
>
    decreases covers.len(),
{
    if covers.len() == 0 {
        None
    } else if covers.last().play.key() == key {
        Some(covers.len() - 1)
    } else {
        found(covers.drop_last(), key)
    }
}

/// `found` gives a cover with these parameters, and none only where there is none.
pub proof fn found_is_there<S: Source>(covers: Seq<Cover<S>>, key: crate::config::PlayKey)
    ensures
        match found(covers, key) {
            Some(i) => 0 <= i < covers.len() && covers[i].play.key() == key,
            None => forall|i: int| 0 <= i < covers.len() ==> (#[trigger] covers[i]).play.key() != key,
        },
    decreases covers.len(),
{
    if covers.len() > 0 && covers.last().play.key() != key {
        let rest = covers.drop_last();
        found_is_there(rest, key);
        if found(rest, key) is None {
            assert forall|i: int| 0 <= i < covers.len() implies (#[trigger] covers[i]).play.key()
                != key by {
                if i < covers.len() - 1 {
                    assert(rest[i].play.key() != key);
                }
            }
        }
    }
}

impl<S: Source, O: Opener<S>> Registry<S, O> {
    /// Covers have different parameters and different numbers, all of them handed out.
    pub open spec fn wf(&self) -> bool {
        &&& self.notifier.wf()
        &&& forall|i: int| 0 <= i < self.covers@.len() ==> (#[trigger] self.covers@[i]).wf()
        &&& forall|i: int|
            0 <= i < self.covers@.len() ==> (#[trigger] self.covers@[i]).id < self.next_id
        &&& forall|i: int, j: int|
            0 <= i < j < self.covers@.len() ==> (#[trigger] self.covers@[i]).id < (
            #[trigger] self.covers@[j]).id && self.covers@[i].play.key() != self.covers@[j].play.key()
    }

    /// Nothing but the covers, the numbers handed out and the notes may differ.
    pub open spec fn same_frame(&self, other: &Registry<S, O>) -> bool {
        &&& self.settings == other.settings
        &&& self.epoch == other.epoch
        &&& self.frame_no == other.frame_no
        &&& self.opener == other.opener
    }

    /// `s` are the settings in force: those that were set, else what the opener says.
    pub open spec fn in_force(&self, s: Settings) -> bool {
        match self.settings {
            Some(t) => s == t,
            None => call_ensures(O::defaults, (&self.opener,), s),
        }
    }

    /// `r` is what opening the source of `play` gave under the settings in force.
    pub open spec fn opens(&self, play: PlayParams, r: Result<S, MediaError>) -> bool {
        exists|s: Settings|
            self.in_force(s) && #[trigger] call_ensures(O::open, (&self.opener, &play, &s), r)
    }

    /// `found` is what the next try of the missing file of `play` gave.
    pub open spec fn retries(
        &self,
        play: PlayParams,
        found: Option<Result<S, MediaError>>,
    ) -> bool {
        exists|path: &str, there: bool|
            path@ == play.path@ && #[trigger] call_ensures(
                O::is_there,
                (&self.opener, path),
                there,
            ) && there == (found is Some) && (found matches Some(r) ==> self.opens(play, r))
    }

    /// The opener answered as `w` says, as far as it was asked.
    pub open spec fn opener_said(&self, play: PlayParams, now: Nanos, w: Answers<S>) -> bool {
        match found(self.covers@, play.key()) {
            Some(i) => self.covers@[i].is_due(now) ==> self.retries(play, w.found),
            None => self.opens(play, w.opened),
        }
    }

    /// The cover for `play` as a look at it finds it: the one that is there, or a new one with
    /// the next number.
    pub open spec fn cover_for(&self, play: PlayParams, now: Nanos, w: Answers<S>) -> Cover<S> {
        match found(self.covers@, play.key()) {
            Some(i) => self.covers@[i],
            None => Cover {
                play,
                id: self.next_id,
                state: opened(w.opened, now),
                current: None,
                polled_in: 0,
                last_used: now,
            },
        }
    }

    /// The registry after a look at the cover for `play`, which is number `i`, with the answers
    /// `w`. Every other cover is as it was. A new cover comes last.
    pub open spec fn serves(
        &self,
        before: &Registry<S, O>,
        play: PlayParams,
        now: Nanos,
        i: int,
        w: Answers<S>,
    ) -> bool {
        &&& self.same_frame(before)
        &&& 0 <= i < self.covers@.len()
        &&& self.covers@[i].play.key() == play.key()
        &&& ({
            let c = before.cover_for(self.covers@[i].play, now, w);
            match found(before.covers@, play.key()) {
                Some(k) => {
                    &&& i == k
                    &&& self.next_id == before.next_id
                    &&& self.covers@ == before.covers@.update(
                        i,
                        looked_at(c, w, before.frame_no, now),
                    )
                    &&& self.notifier@ == noted_at(
                        before.notifier@,
                        c,
                        w,
                        before.frame_no,
                        now,
                    )
                },
                None => {
                    &&& i == before.covers@.len()
                    &&& self.covers@[i].play@ == play@
                    &&& self.next_id == before.next_id + 1
                    &&& self.covers@ == before.covers@.push(
                        looked_at(c, w, before.frame_no, now),
                    )
                    &&& self.notifier@ == noted_at(
                        noted(before.notifier@, w.opened),
                        c,
                        w,
                        before.frame_no,
                        now,
                    )
                },
            }
        })
    }

    /// The source that is asked during a look at the cover for `play`, if one is.
    pub open spec fn source_asked(&self, play: PlayParams, now: Nanos, w: Answers<S>) -> Option<
        S,
    > {
        let c = tried(self.cover_for(play, now, w), w.found, now);
        if c.is_owed(self.frame_no) {
            Some(c.state->source)
        } else {
            None
        }
    }

    /// An empty registry, which opens its sources with `opener`.
    pub fn with_opener(opener: O) -> (r: Registry<S, O>)
        ensures
            r.wf(),
            r.opener == opener,
            r.settings is None,
            r.epoch == 0,
            r.covers@.len() == 0,
            r.next_id == 1,
            r.frame_no == 0,
            r.notifier@ == (None::<Seq<char>>, Seq::<Seq<char>>::empty()),
    {
        Registry {
            settings: None,
            epoch: 0,
            covers: Vec::new(),
            next_id: 1,
            frame_no: 0,
            notifier: Notifier::default(),
            opener,
        }
    }

    /// Where the cover for `play` is.
    pub fn position(&self, play: &PlayParams) -> (r: Option<usize>)
        ensures
            match r {
                Some(i) => found(self.covers@, play.key()) == Some(i as int) && i < self.covers@.len()
                    && self.covers@[i as int].play.key() == play.key(),
                None => found(self.covers@, play.key()) is None,
            },
    {
        let mut i: usize = self.covers.len();
        assert(self.covers@.take(i as int) =~= self.covers@);
        while i > 0
            invariant
                i <= self.covers@.len(),
                found(self.covers@, play.key()) == found(self.covers@.take(i as int), play.key()),
            decreases i,
        {
            if self.covers[i - 1].play.same(play) {
                return Some(i - 1);
            }
            assert(self.covers@.take(i as int).drop_last() =~= self.covers@.take(i - 1));
            i -= 1;
        }
        None
    }

    /// Adds the cover for `play`. `result` is what opening its source gave.
    pub fn enroll(&mut self, play: &PlayParams, result: Result<S, MediaError>, now: Nanos)
        requires
            old(self).wf(),
            found(old(self).covers@, play.key()) is None,
            old(self).next_id < u64::MAX,
            now + MISSING_RETRY <= u128::MAX,
        ensures
            final(self).wf(),
            final(self).same_frame(old(self)),
            final(self).next_id == old(self).next_id + 1,
            final(self).notifier@ == noted(old(self).notifier@, result),
            final(self).covers@.len() == old(self).covers@.len() + 1,
            final(self).covers@.drop_last() == old(self).covers@,
            ({
                let c = final(self).covers@.last();
                &&& c.play@ == play@
                &&& c.id == old(self).next_id
                &&& c.state == opened(result, now)
                &&& c.current is None
                &&& c.polled_in == 0
                &&& c.last_used == now
            }),
    {
        proof {
            found_is_there(self.covers@, play.key());
        }
        let id: u64 = self.next_id;
        self.next_id = id + 1;
        let cover = Cover::new(play.copy(), id, result, now, &mut self.notifier);
        self.covers.push(cover);
        assert(self.covers@.drop_last() =~= old(self).covers@);
    }

    /// Opens the source of `play` under the settings in force.
    fn open_source(&self, play: &PlayParams) -> (r: Result<S, MediaError>)
        ensures
            self.opens(*play, r),
    {
        match &self.settings {
            Some(s) => self.opener.open(play, s),
            None => {
                let s = self.opener.defaults();
                self.opener.open(play, &s)
            },
        }
    }

    /// Looks at cover `i`, which is the one for `play`: a missing file that is due is looked for,
    /// and a source that was not asked in this frame is asked. The ghost result is what was answered.
    fn look(&mut self, i: usize, play: &PlayParams, now: Nanos) -> (w: Ghost<Answers<S>>)
        requires
            old(self).wf(),
            i < old(self).covers@.len(),
            now + MISSING_RETRY <= u128::MAX,
        ensures
            final(self).wf(),
            final(self).same_frame(old(self)),
            final(self).next_id == old(self).next_id,
            final(self).covers@ == old(self).covers@.update(
                i as int,
                looked_at(old(self).covers@[i as int], w@, old(self).frame_no, now),
            ),
            final(self).notifier@ == noted_at(
                old(self).notifier@,
                old(self).covers@[i as int],
                w@,
                old(self).frame_no,
                now,
            ),
            old(self).covers@[i as int].is_due(now) ==> old(self).retries(*play, w@.found),
            tried(old(self).covers@[i as int], w@.found, now).is_owed(old(self).frame_no)
                ==> exists|m: &mut S|
                *m == tried(old(self).covers@[i as int], w@.found, now).state->source && *final(m)
                    == w@.after && #[trigger] call_ensures(S::poll, (m, now), w@.said),
    {
        let ghost mut tries: Option<Result<S, MediaError>> = None;
        if self.covers[i].due(now) {
            let path = play.path.as_str();
            let there = self.opener.is_there(path);
            assert(call_ensures(O::is_there, (&old(self).opener, path), there));
            let result = if there {
                Some(self.open_source(play))
            } else {
                None
            };
            proof {
                tries = result;
                assert(old(self).retries(*play, tries));
            }
            self.covers[i].revive(result, now, &mut self.notifier);
        }
        self.covers[i].last_used = now;
        let Ghost(g) = self.covers[i].poll(self.frame_no, now, &mut self.notifier);
        let ghost w = Answers { opened: arbitrary(), found: tries, after: g.0, said: g.1 };
        assert(self.covers@ =~= old(self).covers@.update(
            i as int,
            looked_at(old(self).covers@[i as int], w, old(self).frame_no, now),
        ));
        Ghost(w)
    }

    /// Makes the cover for a window ready to be drawn: opens its source if it is new, looks
    /// for a missing file, asks the source once per frame.
    pub fn refresh(&mut self, play: &PlayParams, now: Nanos) -> (i: usize)
        requires
            old(self).wf(),
            old(self).next_id < u64::MAX,
            now + MISSING_RETRY <= u128::MAX,
        ensures
            final(self).wf(),
            exists|w: Answers<S>| #[trigger]
                final(self).serves(old(self), *play, now, i as int, w) && old(self).opener_said(
                    *play,
                    now,
                    w,
                ) && (old(self).source_asked(*play, now, w) matches Some(source)
                    ==> exists|m: &mut S|
                    *m == source && *final(m) == w.after && #[trigger] call_ensures(
                        S::poll,
                        (m, now),
                        w.said,
                    )),
    {
        let ghost mut first: Result<S, MediaError> = arbitrary();
        let i: usize = match self.position(play) {
            Some(i) => i,
            None => {
                let result = self.open_source(play);
                proof {
                    first = result;
                }
                self.enroll(play, result, now);
                self.covers.len() - 1
            },
        };
        let ghost mid = *self;
        let Ghost(g) = self.look(i, play, now);
        let ghost w = Answers { opened: first, found: g.found, after: g.after, said: g.said };
        proof {
            if found(old(self).covers@, play.key()) is None {
                assert(mid.covers@ =~= old(self).covers@.push(mid.covers@.last()));
                assert(self.covers@ =~= old(self).covers@.push(
                    looked_at(mid.covers@.last(), w, self.frame_no, now),
                ));
            }
            assert(self.serves(old(self), *play, now, i as int, w));
        }
        i
    }

    /// The cover for a window. `None` means that there is nothing to draw: no file, an error,
    /// or no frame yet.
    pub fn resolve(&mut self, play: &PlayParams, now: Nanos) -> (r: Option<CoverView<'_>>)
        requires
            old(self).wf(),
            old(self).next_id < u64::MAX,
            now + MISSING_RETRY <= u128::MAX,
        ensures
            final(self).wf(),
            exists|i: int, w: Answers<S>| #[trigger]
                final(self).serves(old(self), *play, now, i, w) && old(self).opener_said(
                    *play,
                    now,
                    w,
                ) && (old(self).source_asked(*play, now, w) matches Some(source)
                    ==> exists|m: &mut S|
                    *m == source && *final(m) == w.after && #[trigger] call_ensures(
                        S::poll,
                        (m, now),
                        w.said,
                    )) && match final(self).covers@[i].current {
                    Some(f) => r matches Some(v) && v.id == final(self).covers@[i].id && *v.frame
                        == f,
                    None => r is None,
                },
    {
        let i: usize = self.refresh(play, now);
        let cover = &self.covers[i];
        match &cover.current {
            Some(frame) => Some(CoverView { id: cover.id, frame }),
            None => None,
        }
    }

    /// The number of the settings.
    pub fn epoch(&self) -> (r: u64)
        ensures
            r == self.epoch,
    {
        self.epoch
    }

    /// The settings, or `defaults` if none were set.
    pub fn settings(&self, defaults: Settings) -> (r: Settings)
        ensures
            match self.settings {
                Some(s) => {
                    &&& r.path_cover@ == s.path_cover@
                    &&& r.looped == s.looped
                    &&& r.speed == s.speed
                    &&& r.backend == s.backend
                    &&& crate::config::text_of(r.gpu_device) == crate::config::text_of(s.gpu_device)
                },
                None => r == defaults,
            },
    {
        match &self.settings {
            Some(s) => s.copy(),
            None => defaults,
        }
    }

    /// The notes for the user.
    pub fn notifier(&mut self) -> (r: &mut Notifier)
        ensures
            *r == old(self).notifier,
            final(self).notifier == *final(r),
            final(self).same_frame(old(self)),
            final(self).covers == old(self).covers,
            final(self).next_id == old(self).next_id,
    {
        &mut self.notifier
    }

    /// Counts one more frame of the screen.
    pub fn begin_frame(&mut self)
        requires
            old(self).wf(),
            old(self).frame_no < u64::MAX,
        ensures
            final(self).wf(),
            final(self).frame_no == old(self).frame_no + 1,
            final(self).settings == old(self).settings,
            final(self).epoch == old(self).epoch,
            final(self).covers == old(self).covers,
            final(self).next_id == old(self).next_id,
            final(self).notifier == old(self).notifier,
            final(self).opener == old(self).opener,
    {
        self.frame_no = self.frame_no + 1;
    }

    /// The settings are in force already.
    pub open spec fn has_settings(&self, settings: &Settings) -> bool {
        self.settings matches Some(s) && s.equals(settings)
    }

    /// The registry without covers, under new settings, in frame `frame_no`.
    pub open spec fn restarted(
        &self,
        before: &Registry<S, O>,
        settings: Settings,
        error: Option<ConfigError>,
        frame_no: u64,
    ) -> bool {
        &&& self.settings == Some(settings)
        &&& self.epoch == before.epoch + 1
        &&& self.covers@.len() == 0
        &&& self.next_id == before.next_id
        &&& self.frame_no == frame_no
        &&& self.notifier@ == reset_notes(before.notifier@, error)
        &&& self.opener == before.opener
    }

    /// Drops every cover and starts over with new settings.
    pub fn reset(&mut self, settings: Settings, error: Option<ConfigError>)
        requires
            old(self).wf(),
            old(self).epoch < u64::MAX,
        ensures
            final(self).wf(),
            final(self).restarted(old(self), settings, error, old(self).frame_no),
    {
        self.covers.clear();
        self.settings = Some(settings);
        self.epoch = self.epoch + 1;
        self.notifier.reset();
        if let Some(e) = error {
            self.notifier.push(e.text());
        }
    }

    /// New global settings. If they changed, everything is reset, and the default cover is
    /// opened up front, so that the first capture of the screen already has a frame.
    pub fn set_settings(&mut self, settings: Settings, error: Option<ConfigError>, now: Nanos)
        requires
            old(self).wf(),
            old(self).epoch < u64::MAX,
            old(self).frame_no < u64::MAX,
            old(self).next_id < u64::MAX,
            now + MISSING_RETRY <= u128::MAX,
        ensures
            final(self).wf(),
            old(self).has_settings(&settings) ==> *final(self) == *old(self),
            !old(self).has_settings(&settings) && settings.path_cover@.len() == 0
                ==> final(self).restarted(old(self), settings, error, old(self).frame_no),
            !old(self).has_settings(&settings) && settings.path_cover@.len() > 0
                ==> final(self).covers@.len() == 1 && exists|
                mid: Registry<S, O>,
                play: PlayParams,
                w: Answers<S>,
            | #[trigger]
                final(self).serves(&mid, play, now, 0, w) && mid.restarted(
                    old(self),
                    settings,
                    error,
                    (old(self).frame_no + 1) as u64,
                ) && play@ == settings.plays() && mid.opener_said(play, now, w) && (
                mid.source_asked(play, now, w) matches Some(source) ==> exists|m: &mut S|
                    *m == source && *final(m) == w.after && #[trigger] call_ensures(
                        S::poll,
                        (m, now),
                        w.said,
                    )),
    {
        if let Some(s) = &self.settings {
            if s.same(&settings) {
                return ;
            }
        }
        let play = settings.default_play();
        self.reset(settings, error);
        if play.path.as_str().unicode_len() == 0 {
            return ;
        }
        self.begin_frame();
        let _ = self.refresh(&play, now);
    }

    /// Closes the covers that nobody has shown for a while. The cover with the parameters
    /// `default` stays.
    pub fn evict(&mut self, default: &PlayParams, now: Nanos)
        requires
            old(self).wf(),
        ensures
            final(self).wf(),
            final(self).same_frame(old(self)),
            final(self).next_id == old(self).next_id,
            final(self).notifier == old(self).notifier,
            final(self).covers@ == old(self).covers@.filter(
                |c: Cover<S>| is_kept(c, default.key(), now),
            ),
    {
        let ghost keep = |c: Cover<S>| is_kept(c, default.key(), now);
        let ghost all = self.covers@;
        let n: usize = self.covers.len();
        let mut i: usize = 0;
        let ghost mut done: int = 0;
        proof {
            assert(all.take(0) =~= Seq::empty());
            reveal(Seq::filter);
            assert(all.skip(0) =~= all);
            assert(Seq::<Cover<S>>::empty().filter(keep) + all =~= all);
        }
        while i < self.covers.len()
            invariant
                self.wf(),
                self.same_frame(old(self)),
                self.next_id == old(self).next_id,
                self.notifier == old(self).notifier,
                0 <= done <= all.len(),
                i == all.take(done).filter(keep).len(),
                self.covers@ == all.take(done).filter(keep) + all.skip(done),
                keep == (|c: Cover<S>| is_kept(c, default.key(), now)),
            decreases all.len() - done,
        {
            let ghost before = self.covers@;
            let c = &self.covers[i];
            let kept = c.play.same(default) || span(now, c.last_used) < EVICT_AFTER;
            proof {
                assert(before[i as int] == all.skip(done)[0]);
                assert(all.take(done + 1) =~= all.take(done).push(all[done]));
                filter_push(all.take(done), all[done], keep);
                assert(kept == keep(all[done]));
            }
            if kept {
                i += 1;
                proof {
                    assert(self.covers@ =~= all.take(done + 1).filter(keep) + all.skip(done + 1));
                }
            } else {
                let _ = self.covers.remove(i);
                proof {
                    assert(self.covers@ =~= before.remove(i as int));
                    assert(self.covers@ =~= all.take(done + 1).filter(keep) + all.skip(done + 1));
                    assert forall|a: int| 0 <= a < self.covers@.len() implies #[trigger] self.covers@[a]
                        == before[if a < i { a } else { a + 1 }] by {}
                }
            }
            proof {
                done = done + 1;
            }
        }
        proof {
            assert(all.take(done) =~= all);
            assert(self.covers@ =~= all.filter(keep));
        }
    }

    /// End of a frame: closes the covers that nobody has shown for a while. The default cover
    /// is never closed.
    pub fn end_frame(&mut self, now: Nanos)
        requires
            old(self).wf(),
        ensures
            final(self).wf(),
            final(self).same_frame(old(self)),
            final(self).next_id == old(self).next_id,
            final(self).notifier == old(self).notifier,
            exists|s: Settings| #[trigger]
                old(self).in_force(s) && final(self).covers@ == kept_covers(
                    old(self).covers@,
                    s.key(),
                    now,
                ),
    {
        let default = match &self.settings {
            Some(s) => {
                assert(self.in_force(*s));
                s.default_play()
            },
            None => {
                let s = self.opener.defaults();
                assert(self.in_force(s));
                s.default_play()
            },
        };
        self.evict(&default, now);
        assert(self.covers@ == kept_covers(old(self).covers@, default.key(), now));
    }

    /// Whether a cover that moves (a video, a GIF) is alive. Covers that nobody shows any
    /// more do not count. Each source is asked what it is.
    pub fn animating(&self, now: Nanos) -> (r: bool)
        ensures
            r ==> exists|i: int|
                0 <= i < self.covers@.len() && moves(#[trigger] self.covers@[i], now, EVICT_AFTER),
            !r ==> forall|i: int|
                0 <= i < self.covers@.len() ==> rests(#[trigger] self.covers@[i], now, EVICT_AFTER),
    {
        self.moving(now, EVICT_AFTER)
    }

    /// Whether a cover that moves (a video, a GIF) was shown less than `within` before `now`.
    pub(crate) fn moving(&self, now: Nanos, within: Nanos) -> (r: bool)
        ensures
            r ==> exists|i: int|
                0 <= i < self.covers@.len() && moves(#[trigger] self.covers@[i], now, within),
            !r ==> forall|i: int|
                0 <= i < self.covers@.len() ==> rests(#[trigger] self.covers@[i], now, within),
    {
        let mut i: usize = 0;
        while i < self.covers.len()
            invariant
                i <= self.covers@.len(),
                forall|j: int| 0 <= j < i ==> rests(#[trigger] self.covers@[j], now, within),
            decreases self.covers@.len() - i,
        {
            let c = &self.covers[i];
            if let State::Ready { source } = &c.state {
                let kind = source.kind();
                assert(call_ensures(S::kind, (&self.covers@[i as int].state->source,), kind));
                if kind != Kind::Still && span(now, c.last_used) < within {
                    assert(moves(self.covers@[i as int], now, within));
                    return true;
                }
            }
            i += 1;
        }
        false
    }

    /// The numbers of the covers that are alive; textures of other numbers can be freed.
    pub fn live_ids(&self) -> (r: Vec<u64>)
        ensures
            r@ == self.covers@.map_values(|c: Cover<S>| c.id),
    {
        let mut out: Vec<u64> = Vec::new();
        let mut i: usize = 0;
        while i < self.covers.len()
            invariant
                i <= self.covers@.len(),
                out@.len() == i,
                forall|j: int| 0 <= j < i ==> out@[j] == (#[trigger] self.covers@[j]).id,
            decreases self.covers@.len() - i,
        {
            out.push(self.covers[i].id);
            i += 1;
        }
        assert(out@ =~= self.covers@.map_values(|c: Cover<S>| c.id));
        out
    }

    /// How many covers there are.
    pub fn len(&self) -> (r: usize)
        ensures
            r == self.covers@.len(),
    {
        self.covers.len()
    }

    /// Whether there is no cover.
    pub fn is_empty(&self) -> (r: bool)
        ensures
            r == (self.covers@.len() == 0),
    {
        self.covers.len() == 0
    }
}

/// The notes after a reset: earlier messages may be repeated, and an error of the
/// configuration is told.
pub open spec fn reset_notes(n: crate::notify::Notes, error: Option<ConfigError>) -> crate::notify::Notes {
    match error {
        Some(e) => crate::notify::pushed((None, n.1), e.message()),
        None => (None, n.1),
    }
}

/// A cover stays: it is the default one, or somebody showed it not long ago.
pub open spec fn is_kept<S: Source>(
    c: Cover<S>,
    default: crate::config::PlayKey,
    now: Nanos,
) -> bool {
    c.play.key() == default || crate::clock::since(now, c.last_used) < EVICT_AFTER
}

/// The covers that stay at the end of a frame.
pub open spec fn kept_covers<S: Source>(
    covers: Seq<Cover<S>>,
    default: crate::config::PlayKey,
    now: Nanos,
) -> Seq<Cover<S>> {
    covers.filter(|c: Cover<S>| is_kept(c, default, now))
}

/// The cover has a source, which says that it is a video or a GIF, and somebody showed it less than
/// `within` before `now`.
pub open spec fn moves<S: Source>(c: Cover<S>, now: Nanos, within: Nanos) -> bool {
    &&& c.state is Ready
    &&& exists|kind: Kind| #[trigger]
        call_ensures(S::kind, (&c.state->source,), kind) && kind != Kind::Still
    &&& crate::clock::since(now, c.last_used) < within
}

/// The cover has no source, or one that says that it is a picture, or nobody showed it less than
/// `within` before `now`.
pub open spec fn rests<S: Source>(c: Cover<S>, now: Nanos, within: Nanos) -> bool {
    ||| !(c.state is Ready)
    ||| exists|kind: Kind| #[trigger]
        call_ensures(S::kind, (&c.state->source,), kind) && kind == Kind::Still
    ||| crate::clock::since(now, c.last_used) >= within
}

/// Where a source always says the same, its cover moves or rests, not both.
pub proof fn a_cover_moves_or_rests<S: Source>(c: Cover<S>, now: Nanos, within: Nanos, kind: Kind)
    requires
        c.state is Ready,
        call_ensures(S::kind, (&c.state->source,), kind),
        forall|k: Kind| #[trigger] call_ensures(S::kind, (&c.state->source,), k) ==> k == kind,
    ensures
        moves(c, now, within) == !rests(c, now, within),
        moves(c, now, within) == (kind != Kind::Still && crate::clock::since(now, c.last_used)
            < within),
{
}

proof fn filter_push<A>(s: Seq<A>, a: A, f: spec_fn(A) -> bool)
    ensures
        s.push(a).filter(f) == (if f(a) {
            s.filter(f).push(a)
        } else {
            s.filter(f)
        }),
{
    reveal(Seq::filter);
    assert(s.push(a).drop_last() =~= s);
}

proof fn found_at<S: Source, O: Opener<S>>(r: Registry<S, O>, key: crate::config::PlayKey, i: int)
    requires
        r.wf(),
        0 <= i < r.covers@.len(),
        r.covers@[i].play.key() == key,
    ensures
        found(r.covers@, key) == Some(i),
{
    found_is_there(r.covers@, key);
    if let Some(j) = found(r.covers@, key) {
        if i < j {
            assert(r.covers@[i].play.key() != r.covers@[j].play.key());
        } else if j < i {
            assert(r.covers@[j].play.key() != r.covers@[i].play.key());
        }
    }
}

/// A cover that several windows show is asked once per frame: the second window of a frame
/// gets the same frame from the same cover, and the source is not touched.
pub proof fn a_frame_polls_once<S: Source, O: Opener<S>>(
    r0: Registry<S, O>,
    r1: Registry<S, O>,
    r2: Registry<S, O>,
    play: PlayParams,
    again: PlayParams,
    first: Nanos,
    second: Nanos,
    i: int,
    j: int,
    w1: Answers<S>,
    w2: Answers<S>,
)
    requires
        play.key() == again.key(),
        r1.wf(),
        r1.serves(&r0, play, first, i, w1),
        r2.serves(&r1, again, second, j, w2),
        r1.covers@[i].state is Ready,
    ensures
        i == j,
        r2.covers@[j] == (Cover { last_used: second, ..r1.covers@[i] }),
        r2.notifier@ == r1.notifier@,
        !r1.asks_opener(again, second),
        r1.source_asked(again, second, w2) is None,
{
    found_is_there(r0.covers@, play.key());
    let c = r0.cover_for(r1.covers@[i].play, first, w1);
    assert(r1.covers@[i] == looked_at(c, w1, r0.frame_no, first));
    found_at(r1, play.key(), i);
}

/// A source that failed is told of once: until the settings change it stays failed, nothing
/// is drawn, and no message comes.
pub proof fn errors_notify_once<S: Source, O: Opener<S>>(
    r0: Registry<S, O>,
    r1: Registry<S, O>,
    r2: Registry<S, O>,
    play: PlayParams,
    again: PlayParams,
    first: Nanos,
    second: Nanos,
    i: int,
    j: int,
    w1: Answers<S>,
    w2: Answers<S>,
)
    requires
        play.key() == again.key(),
        r1.wf(),
        r2.wf(),
        r1.serves(&r0, play, first, i, w1),
        r2.serves(&r1, again, second, j, w2),
        r1.covers@[i].state is Failed,
    ensures
        r2.covers@[j].state is Failed,
        r2.covers@[j].current is None,
        r2.notifier@ == r1.notifier@,
{
    found_at(r1, play.key(), i);
    assert(r2.covers@[j].wf());
}

/// A missing file is left alone until its time comes: no message, nothing to draw, and the
/// time does not move.
pub proof fn missing_files_are_left_alone<S: Source, O: Opener<S>>(
    r0: Registry<S, O>,
    r1: Registry<S, O>,
    r2: Registry<S, O>,
    play: PlayParams,
    again: PlayParams,
    first: Nanos,
    second: Nanos,
    i: int,
    j: int,
    w1: Answers<S>,
    w2: Answers<S>,
)
    requires
        play.key() == again.key(),
        r1.wf(),
        r2.wf(),
        r1.serves(&r0, play, first, i, w1),
        r2.serves(&r1, again, second, j, w2),
        r1.covers@[i].state matches State::Missing { retry_at } && second < retry_at,
    ensures
        r2.covers@[j].state == r1.covers@[i].state,
        r2.covers@[j].current is None,
        r2.notifier@ == r1.notifier@,
{
    found_at(r1, play.key(), i);
    assert(r2.covers@[j].wf());
}

/// The default cover is never evicted, however long nobody has shown it.
pub proof fn the_default_cover_stays<S: Source>(
    covers: Seq<Cover<S>>,
    default: crate::config::PlayKey,
    now: Nanos,
    i: int,
)
    requires
        0 <= i < covers.len(),
        covers[i].play.key() == default,
    ensures
        kept_covers(covers, default, now).contains(covers[i]),
{
    filter_keeps(covers, |c: Cover<S>| is_kept(c, default, now), i);
}

/// Of the other covers, those stay that somebody showed not long ago, and no others.
pub proof fn unused_covers_leave<S: Source>(
    covers: Seq<Cover<S>>,
    default: crate::config::PlayKey,
    now: Nanos,
    i: int,
)
    requires
        0 <= i < covers.len(),
        covers[i].play.key() != default,
    ensures
        kept_covers(covers, default, now).contains(covers[i]) <==> crate::clock::since(
            now,
            covers[i].last_used,
        ) < EVICT_AFTER,
{
    let f = |c: Cover<S>| is_kept(c, default, now);
    if f(covers[i]) {
        filter_keeps(covers, f, i);
    }
    filter_only(covers, f);
    if kept_covers(covers, default, now).contains(covers[i]) {
        let k = choose|k: int|
            0 <= k < covers.filter(f).len() && covers.filter(f)[k] == covers[i];
        assert(f(covers.filter(f)[k]));
    }
}

/// However many windows show a file at one speed, looped or not, there is one cover for them:
/// one source and one number.
pub proof fn windows_share_a_cover<S: Source, O: Opener<S>>(
    r0: Registry<S, O>,
    r1: Registry<S, O>,
    play: PlayParams,
    now: Nanos,
    i: int,
    w: Answers<S>,
    j: int,
)
    requires
        r1.wf(),
        r1.serves(&r0, play, now, i, w),
        0 <= j < r1.covers@.len(),
    ensures
        r1.covers@[j].play.key() == play.key() <==> i == j,
{
    found_at(r1, play.key(), i);
    if r1.covers@[j].play.key() == play.key() {
        found_at(r1, play.key(), j);
    }
}

/// Two windows, one after the other, get the same cover, with one number, if and only if they show
/// the same file at the same speed, looped or not.
pub proof fn other_parameters_get_another_cover<S: Source, O: Opener<S>>(
    r0: Registry<S, O>,
    r1: Registry<S, O>,
    r2: Registry<S, O>,
    play: PlayParams,
    other: PlayParams,
    first: Nanos,
    second: Nanos,
    i: int,
    j: int,
    w1: Answers<S>,
    w2: Answers<S>,
)
    requires
        r1.wf(),
        r2.wf(),
        r1.serves(&r0, play, first, i, w1),
        r2.serves(&r1, other, second, j, w2),
    ensures
        r1.covers@[i].id == r2.covers@[j].id <==> play.key() == other.key(),
        r1.covers@[i].id == r2.covers@[j].id <==> i == j,
{
    found_at(r1, play.key(), i);
    found_is_there(r1.covers@, other.key());
    match found(r1.covers@, other.key()) {
        Some(k) => {
            if i < k {
                assert(r1.covers@[i].id < r1.covers@[k].id);
            } else if k < i {
                assert(r1.covers@[k].id < r1.covers@[i].id);
            }
        },
        None => {
            assert(r1.covers@[i].id < r1.next_id);
        },
    }
}

/// Covers that are alive have different numbers.
pub proof fn live_ids_are_different<S: Source, O: Opener<S>>(r: Registry<S, O>, i: int, j: int)
    requires
        r.wf(),
        0 <= i < j < r.covers@.len(),
    ensures
        r.covers@[i].id != r.covers@[j].id,
{
}

/// What happens to a registry while its settings stay the same.
pub enum Step<S> {
    /// A window asks for its cover, which is number `i`, with the answers `w`.
    Resolve { play: PlayParams, now: Nanos, i: int, w: Answers<S> },
    /// A frame of the screen begins.
    Begin,
    /// A frame of the screen ends.
    End { default: crate::config::PlayKey, now: Nanos },
    /// The user is told a message.
    Tell,
}

/// `step` leads from `a` to `b`.
pub open spec fn leads<S: Source, O: Opener<S>>(
    a: Registry<S, O>,
    b: Registry<S, O>,
    step: Step<S>,
) -> bool {
    match step {
        Step::Resolve { play, now, i, w } => b.serves(&a, play, now, i, w) && a.opener_said(
            play,
            now,
            w,
        ),
        Step::Begin => b == (Registry { frame_no: b.frame_no, ..a }) && b.frame_no == a.frame_no
            + 1,
        Step::End { default, now } => {
            &&& b.same_frame(&a)
            &&& b.next_id == a.next_id
            &&& b.notifier == a.notifier
            &&& b.covers@ == kept_covers(a.covers@, default, now)
        },
        Step::Tell => b == (Registry { notifier: b.notifier, ..a }) && b.notifier@ == (
            a.notifier@.0,
            crate::notify::popped(a.notifier@.1),
        ),
    }
}

/// The states of a registry, one step apart.
pub open spec fn is_run<S: Source, O: Opener<S>>(
    run: Seq<Registry<S, O>>,
    steps: Seq<Step<S>>,
) -> bool {
    &&& run.len() == steps.len() + 1
    &&& forall|m: int| 0 <= m < run.len() ==> (#[trigger] run[m]).wf()
    &&& forall|m: int, n: int|
        #![trigger run[m], run[n]]
        0 <= m && n == m + 1 && n < run.len() ==> leads(run[m], run[n], steps[m])
}

impl<S: Source, O: Opener<S>> Registry<S, O> {
    /// The cover with the parameters `key` is alive.
    pub open spec fn is_alive(&self, key: crate::config::PlayKey) -> bool {
        found(self.covers@, key) is Some
    }

    /// The cover with the parameters `key`.
    pub open spec fn cover(&self, key: crate::config::PlayKey) -> Cover<S> {
        self.covers@[found(self.covers@, key)->0]
    }

    /// A look at the cover for `play` opens a source or looks for its file.
    pub open spec fn asks_opener(&self, play: PlayParams, now: Nanos) -> bool {
        !self.is_alive(play.key()) || self.cover(play.key()).is_due(now)
    }
}

/// What a step does to the cover with the parameters `key`, as long as it stays alive: a look at
/// it is a look at it, and nothing else touches it.
proof fn a_cover_goes_on<S: Source, O: Opener<S>>(
    a: Registry<S, O>,
    b: Registry<S, O>,
    step: Step<S>,
    key: crate::config::PlayKey,
)
    requires
        a.wf(),
        b.wf(),
        leads(a, b, step),
        a.is_alive(key),
        b.is_alive(key),
    ensures
        match step {
            Step::Resolve { play, now, i, w } if play.key() == key => {
                &&& i == found(b.covers@, key)->0
                &&& b.cover(key) == looked_at(a.cover(key), w, a.frame_no, now)
                &&& b.notifier@ == noted_at(a.notifier@, a.cover(key), w, a.frame_no, now)
            },
            _ => b.cover(key) == a.cover(key),
        },
{
    found_is_there(a.covers@, key);
    found_is_there(b.covers@, key);
    let p = found(a.covers@, key)->0;
    let q = found(b.covers@, key)->0;
    match step {
        Step::Resolve { play, now, i, w } => {
            if play.key() == key {
                found_at(b, key, i);
            } else {
                found_is_there(a.covers@, play.key());
                assert(b.covers@[p] == a.covers@[p]);
                found_at(b, key, p);
            }
        },
        Step::End { default, now } => {
            let f = |c: Cover<S>| is_kept(c, default, now);
            filter_only(a.covers@, f);
            assert(b.covers@[q] == a.covers@.filter(f)[q]);
            assert(a.covers@.contains(b.covers@[q]));
            let k = choose|k: int| 0 <= k < a.covers@.len() && a.covers@[k] == b.covers@[q];
            found_at(a, key, k);
        },
        _ => {},
    }
}

/// The states that a cover can be in after its source could not be opened at the time `t`: only a
/// missing file is tried again, and not before its time.
pub open spec fn after_failing<S: Source>(c: Cover<S>, e: MediaError, t: Nanos) -> bool {
    if e is Missing {
        c.state matches State::Missing { retry_at } ==> retry_at >= t + MISSING_RETRY
    } else {
        c.state is Failed
    }
}

proof fn a_failure_lasts<S: Source, O: Opener<S>>(
    run: Seq<Registry<S, O>>,
    steps: Seq<Step<S>>,
    play: PlayParams,
    t: Nanos,
    e: MediaError,
    m: int,
)
    requires
        is_run(run, steps),
        steps.len() > 0,
        steps[0] matches Step::Resolve { play: p, now, i, w } && p == play && now == t && w.opened
            == Err::<S, MediaError>(e),
        t + MISSING_RETRY <= u128::MAX,
        !run[0].is_alive(play.key()),
        forall|n: int| 0 < n < run.len() ==> (#[trigger] run[n]).is_alive(play.key()),
        forall|n: int|
            0 < n < steps.len() ==> ((#[trigger] steps[n]) matches Step::Resolve { play, now, i, w }
                ==> now + MISSING_RETRY <= u128::MAX),
        1 <= m < run.len(),
    ensures
        after_failing(run[m].cover(play.key()), e, t),
    decreases m,
{
    let key = play.key();
    if m == 1 {
        let (a, b) = (run[0], run[1]);
        assert(leads(a, b, steps[0]));
        if let Step::Resolve { play: p, now, i, w } = steps[0] {
            found_at(b, key, i);
        }
    } else {
        a_failure_lasts(run, steps, play, t, e, m - 1);
        assert(leads(run[m - 1], run[m], steps[m - 1]));
        assert(run[m - 1].is_alive(key) && run[m].is_alive(key));
        a_cover_goes_on(run[m - 1], run[m], steps[m - 1], key);
    }
}

/// A source that cannot be opened is told of once. As long as the settings stay and the cover is
/// not dropped, every later look finds nothing to draw, says nothing, and does not ask the
/// opener.
pub proof fn a_failure_is_told_once<S: Source, O: Opener<S>>(
    run: Seq<Registry<S, O>>,
    steps: Seq<Step<S>>,
    play: PlayParams,
    t: Nanos,
    e: MediaError,
    m: int,
    again: PlayParams,
    now: Nanos,
    i: int,
    w: Answers<S>,
)
    requires
        is_run(run, steps),
        steps.len() > 0,
        steps[0] matches Step::Resolve { play: p, now, i, w } && p == play && now == t && w.opened
            == Err::<S, MediaError>(e),
        t + MISSING_RETRY <= u128::MAX,
        !run[0].is_alive(play.key()),
        forall|n: int| 0 < n < run.len() ==> (#[trigger] run[n]).is_alive(play.key()),
        forall|n: int|
            0 < n < steps.len() ==> ((#[trigger] steps[n]) matches Step::Resolve { play, now, i, w }
                ==> now + MISSING_RETRY <= u128::MAX),
        !(e is Missing),
        0 < m < steps.len(),
        steps[m] == (Step::Resolve { play: again, now, i, w }),
        again.key() == play.key(),
    ensures
        run[1].notifier@ == crate::notify::pushed(run[0].notifier@, complaint(e)),
        run[1].cover(play.key()).current is None,
        run[m + 1].cover(play.key()).current is None,
        run[m + 1].notifier@ == run[m].notifier@,
        !run[m].asks_opener(again, now),
{
    let key = play.key();
    assert(leads(run[0], run[1], steps[0]));
    if let Step::Resolve { play: p, now: n0, i: i0, w: w0 } = steps[0] {
        found_at(run[1], key, i0);
    }
    a_failure_lasts(run, steps, play, t, e, 1);
    a_failure_lasts(run, steps, play, t, e, m);
    a_failure_lasts(run, steps, play, t, e, m + 1);
    assert(leads(run[m], run[m + 1], steps[m]));
    assert(run[m].is_alive(key) && run[m + 1].is_alive(key));
    a_cover_goes_on(run[m], run[m + 1], steps[m], key);
    found_is_there(run[1].covers@, key);
    found_is_there(run[m + 1].covers@, key);
    assert(run[1].cover(key).wf() && run[m + 1].cover(key).wf());
}

/// A missing file is told of once and tried again: the opener is asked no earlier than one
/// waiting time after the first look, and the source is opened only where the file is there. A
/// file that is still missing is left alone for one more waiting time, without a word.
pub proof fn a_missing_file_is_tried_again<S: Source, O: Opener<S>>(
    run: Seq<Registry<S, O>>,
    steps: Seq<Step<S>>,
    play: PlayParams,
    t: Nanos,
    e: MediaError,
    m: int,
    again: PlayParams,
    now: Nanos,
    i: int,
    w: Answers<S>,
)
    requires
        is_run(run, steps),
        steps.len() > 0,
        steps[0] matches Step::Resolve { play: p, now, i, w } && p == play && now == t && w.opened
            == Err::<S, MediaError>(e),
        t + MISSING_RETRY <= u128::MAX,
        !run[0].is_alive(play.key()),
        forall|n: int| 0 < n < run.len() ==> (#[trigger] run[n]).is_alive(play.key()),
        forall|n: int|
            0 < n < steps.len() ==> ((#[trigger] steps[n]) matches Step::Resolve { play, now, i, w }
                ==> now + MISSING_RETRY <= u128::MAX),
        e is Missing,
        0 < m < steps.len(),
        steps[m] == (Step::Resolve { play: again, now, i, w }),
        again.key() == play.key(),
    ensures
        run[1].notifier@ == crate::notify::pushed(run[0].notifier@, complaint(e)),
        run[1].cover(play.key()).state == (State::<S>::Missing {
            retry_at: (t + MISSING_RETRY) as u128,
        }),
        run[m].asks_opener(again, now) ==> now >= t + MISSING_RETRY && run[m].retries(
            again,
            w.found,
        ),
        run[m].cover(play.key()).state is Missing && (!run[m].asks_opener(again, now)
            || w.found is None) ==> {
            &&& run[m + 1].notifier@ == run[m].notifier@
            &&& run[m + 1].cover(play.key()).current is None
            &&& run[m + 1].cover(play.key()).state == (if run[m].asks_opener(again, now) {
                State::<S>::Missing { retry_at: (now + MISSING_RETRY) as u128 }
            } else {
                run[m].cover(play.key()).state
            })
        },
{
    let key = play.key();
    assert(leads(run[0], run[1], steps[0]));
    if let Step::Resolve { play: p, now: n0, i: i0, w: w0 } = steps[0] {
        found_at(run[1], key, i0);
    }
    a_failure_lasts(run, steps, play, t, e, m);
    assert(leads(run[m], run[m + 1], steps[m]));
    assert(run[m].is_alive(key) && run[m + 1].is_alive(key));
    a_cover_goes_on(run[m], run[m + 1], steps[m], key);
    found_is_there(run[m + 1].covers@, key);
    assert(run[m + 1].cover(key).wf());
}

/// What meets the condition of a filter stays.
pub proof fn filter_keeps<A>(s: Seq<A>, f: spec_fn(A) -> bool, i: int)
    requires
        0 <= i < s.len(),
        f(s[i]),
    ensures
        s.filter(f).contains(s[i]),
    decreases s.len(),
{
    reveal(Seq::filter);
    let rest = s.drop_last();
    if i == s.len() - 1 {
        assert(s.filter(f) == rest.filter(f).push(s[i]));
        assert(s.filter(f)[rest.filter(f).len() as int] == s[i]);
    } else {
        filter_keeps(rest, f, i);
        let k = choose|k: int| 0 <= k < rest.filter(f).len() && rest.filter(f)[k] == s[i];
        assert(s.filter(f)[k] == s[i]);
    }
}

/// What a filter leaves meets its condition and was there.
pub proof fn filter_only<A>(s: Seq<A>, f: spec_fn(A) -> bool)
    ensures
        forall|k: int|
            0 <= k < s.filter(f).len() ==> f(#[trigger] s.filter(f)[k]) && s.contains(
                s.filter(f)[k],
            ),
    decreases s.len(),
{
    reveal(Seq::filter);
    if s.len() > 0 {
        let rest = s.drop_last();
        filter_only(rest, f);
        assert forall|k: int| 0 <= k < s.filter(f).len() implies f(#[trigger] s.filter(f)[k])
            && s.contains(s.filter(f)[k]) by {
            if k < rest.filter(f).len() {
                let a = rest.filter(f)[k];
                let i = choose|i: int| 0 <= i < rest.len() && rest[i] == a;
                assert(s[i] == a);
            } else {
                assert(s[s.len() - 1] == s.filter(f)[k]);
            }
        }
    }
}

} // verus!
