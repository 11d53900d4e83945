//! Laws of animated GIFs.

use crate::clock::Nanos;
use crate::frame::{Frame, FrameData};
use crate::laws::clock::is_moment;
use crate::media::gif::{background, composed, Disposal, GifFrame, GifSource};
use crate::media::gif_file::RawFrame;
use crate::media::MediaError;
use vstd::prelude::*;

verus! {

/// Where byte `k` of the pixel in column `x` of row `y` stands in a picture `w` pixels wide: rows
/// from the top, pixels from the left, four bytes each.
pub open spec fn spot(w: int, x: int, y: int, k: int) -> int {
    4 * (y * w + x) + k
}

/// The frame lies over column `x` of row `y`.
pub open spec fn lies_over(f: GifFrame, x: int, y: int) -> bool {
    f.left <= x < f.left + f.width && f.top <= y < f.top + f.height
}

/// `now` is `before` with the frame on it: under each opaque pixel of the frame its colour, blue
/// first and opaque, and everywhere else what was there.
pub open spec fn is_drawn(
    now: Seq<u8>,
    before: Seq<u8>,
    w: int,
    h: int,
    f: GifFrame,
) -> bool {
    &&& now.len() == 4 * w * h
    &&& forall|x: int, y: int, k: int|
        0 <= x < w && 0 <= y < h && 0 <= k < 4 ==> {
            let n = (y - f.top) * f.width + (x - f.left);
            now[#[trigger] spot(w, x, y, k)] == (if lies_over(f, x, y) && f.rgba@[4 * n + 3] != 0 {
                if k == 0 {
                    f.rgba@[4 * n + 2]
                } else if k == 1 {
                    f.rgba@[4 * n + 1]
                } else if k == 2 {
                    f.rgba@[4 * n]
                } else {
                    255u8
                }
            } else {
                before[spot(w, x, y, k)]
            })
        }
}

/// `base` is what is left of the canvas when its frame `f` goes: a frame that is kept stays, one
/// with disposal Background leaves its rectangle in that colour, and one with disposal Previous
/// leaves what was kept aside for it.
pub open spec fn is_left(
    base: Seq<u8>,
    canvas: Seq<u8>,
    aside: Option<Seq<u8>>,
    w: int,
    h: int,
    f: GifFrame,
    bg: Seq<u8>,
) -> bool {
    match f.dispose {
        Disposal::Background => forall|x: int, y: int, k: int|
            0 <= x < w && 0 <= y < h && 0 <= k < 4 ==> base[#[trigger] spot(w, x, y, k)] == (
            if lies_over(f, x, y) {
                bg[k]
            } else {
                canvas[spot(w, x, y, k)]
            }),
        Disposal::Previous => aside == Some(base),
        _ => base == canvas,
    }
}

proof fn is_drawn_here(c: Seq<u8>, w: nat, h: nat, f: GifFrame)
    ensures
        is_drawn(crate::media::gif::drawn(c, w, h, f), c, w as int, h as int, f),
{
    let func = |x: int, y: int, k: int|
        if f.draws(x, y) {
            crate::media::gif::drawn_byte(f, x, y, k)
        } else {
            crate::media::gif::byte_at(c, w as int, x, y, k)
        };
    let now = crate::media::gif::drawn(c, w, h, f);
    assert(now == crate::media::gif::picture(w, h, func));
    assert forall|x: int, y: int, k: int| 0 <= x < w && 0 <= y < h && 0 <= k < 4 implies now[
    #[trigger] spot(w as int, x, y, k)] == func(x, y, k) by {
        crate::media::gif::picture_byte(w, h, func, x, y, k);
    }
    assert forall|x: int, y: int, k: int| 0 <= x < w && 0 <= y < h && 0 <= k < 4 implies {
        let n = (y - f.top) * f.width + (x - f.left);
        now[#[trigger] spot(w as int, x, y, k)] == (if lies_over(f, x, y) && f.rgba@[4 * n + 3]
            != 0 {
            if k == 0 {
                f.rgba@[4 * n + 2]
            } else if k == 1 {
                f.rgba@[4 * n + 1]
            } else if k == 2 {
                f.rgba@[4 * n]
            } else {
                255u8
            }
        } else {
            c[spot(w as int, x, y, k)]
        })
    } by {
        assert(now[spot(w as int, x, y, k)] == func(x, y, k));
    }
}

proof fn is_left_here(c: crate::media::gif::Canvas, w: nat, h: nat, f: GifFrame, bg: Seq<u8>)
    requires
        f.dispose == Disposal::Previous ==> c.1 is Some,
    ensures
        is_left(
            crate::media::gif::disposed(c, w, h, f, bg).0,
            c.0,
            c.1,
            w as int,
            h as int,
            f,
            bg,
        ),
{
    if f.dispose == Disposal::Background {
        let func = |x: int, y: int, k: int|
            if f.covers(x, y) {
                bg[k]
            } else {
                crate::media::gif::byte_at(c.0, w as int, x, y, k)
            };
        let base = crate::media::gif::erased(c.0, w, h, f, bg);
        assert(base == crate::media::gif::picture(w, h, func));
        assert forall|x: int, y: int, k: int| 0 <= x < w && 0 <= y < h && 0 <= k < 4 implies base[
        #[trigger] spot(w as int, x, y, k)] == (if lies_over(f, x, y) {
            bg[k]
        } else {
            c.0[spot(w as int, x, y, k)]
        }) by {
            crate::media::gif::picture_byte(w, h, func, x, y, k);
        }
    }
}

/// The canvas of an animation that shows nothing yet is all background.
pub open spec fn is_bare(canvas: Seq<u8>, w: int, h: int, bg: Seq<u8>) -> bool {
    &&& canvas.len() == 4 * w * h
    &&& forall|x: int, y: int, k: int|
        0 <= x < w && 0 <= y < h && 0 <= k < 4 ==> canvas[#[trigger] spot(w, x, y, k)] == bg[k]
}

/// The canvas is built frame by frame: it starts as background, and each frame is drawn over what
/// the frame before it leaves. Where a frame has to go without a trace, what was there before it
/// is kept aside.
pub proof fn the_canvas_is_built_frame_by_frame(
    frames: Seq<GifFrame>,
    w: nat,
    h: nat,
    bg: Seq<u8>,
    n: nat,
)
    requires
        n < frames.len(),
    ensures
        is_bare(composed(frames, w, h, bg, 0).0, w as int, h as int, bg),
        exists|base: Seq<u8>|
            {
                &&& #[trigger] is_drawn(
                    composed(frames, w, h, bg, n + 1).0,
                    base,
                    w as int,
                    h as int,
                    frames[n as int],
                )
                &&& n == 0 ==> base == composed(frames, w, h, bg, 0).0
                &&& n > 0 ==> is_left(
                    base,
                    composed(frames, w, h, bg, n).0,
                    composed(frames, w, h, bg, n).1,
                    w as int,
                    h as int,
                    frames[n - 1],
                    bg,
                )
                &&& frames[n as int].dispose == Disposal::Previous ==> composed(
                    frames,
                    w,
                    h,
                    bg,
                    n + 1,
                ).1 == Some(base)
            },
{
    let func = |x: int, y: int, k: int| bg[k];
    let bare = crate::media::gif::blank(w, h, bg);
    assert(bare == crate::media::gif::picture(w, h, func));
    assert forall|x: int, y: int, k: int| 0 <= x < w && 0 <= y < h && 0 <= k < 4 implies bare[
    #[trigger] spot(w as int, x, y, k)] == bg[k] by {
        crate::media::gif::picture_byte(w, h, func, x, y, k);
    }
    let c = composed(frames, w, h, bg, n);
    let next = composed(frames, w, h, bg, n + 1);
    if n == 0 {
        is_drawn_here(c.0, w, h, frames[0]);
        assert(next == crate::media::gif::added(c, w, h, frames[0]));
        assert(is_drawn(next.0, c.0, w as int, h as int, frames[n as int]));
    } else {
        let base = crate::media::gif::disposed(c, w, h, frames[n - 1], bg);
        is_left_here(c, w, h, frames[n - 1], bg);
        is_drawn_here(base.0, w, h, frames[n as int]);
        assert((n + 1 - 1) as nat == n);
        assert(next == crate::media::gif::added(base, w, h, frames[n as int]));
        assert(is_drawn(next.0, base.0, w as int, h as int, frames[n as int]));
    }
}

/// The number of the next frame.
pub open spec fn next_of(a: GifSource) -> int {
    match a.shown {
        Some(i) => i + 1,
        None => 0,
    }
}

/// `b` shows the next frame of `a` over `base`, which is what the shown frame leaves.
pub open spec fn drew_over(a: GifSource, b: GifSource, base: Seq<u8>) -> bool {
    &&& is_drawn(b.canvas@, base, a.width as int, a.height as int, a.frames@[next_of(a)])
    &&& a.shown is None ==> base == a.canvas@
    &&& a.shown matches Some(i) ==> is_left(
        base,
        a.canvas@,
        a.state().1,
        a.width as int,
        a.height as int,
        a.frames@[i as int],
        a.bg@,
    )
    &&& a.frames@[next_of(a)].dispose == Disposal::Previous ==> (b.backup matches Some(v) && v@
        == base)
}

/// The animation went one frame further.
pub open spec fn went_on(a: GifSource, b: GifSource) -> bool {
    &&& b.shown matches Some(i) && i == next_of(a)
    &&& b.frames == a.frames && b.width == a.width && b.height == a.height && b.bg == a.bg
    &&& b.generation == a.generation && b.sent == a.sent
    &&& exists|base: Seq<u8>| #[trigger] drew_over(a, b, base)
}

proof fn went_on_here(a: GifSource, b: GifSource)
    requires
        a.wf(),
        b.wf(),
        b.same_animation(&a),
        b.generation == a.generation,
        b.sent == a.sent,
        a.count() < a.frames@.len(),
        b.count() == a.count() + 1,
    ensures
        went_on(a, b),
{
    let (w, h, n) = (a.width as nat, a.height as nat, a.count());
    the_canvas_is_built_frame_by_frame(a.frames@, w, h, a.bg@, n);
    let base = choose|base: Seq<u8>|
        {
            &&& #[trigger] is_drawn(
                composed(a.frames@, w, h, a.bg@, n + 1).0,
                base,
                w as int,
                h as int,
                a.frames@[n as int],
            )
            &&& n == 0 ==> base == composed(a.frames@, w, h, a.bg@, 0).0
            &&& n > 0 ==> is_left(
                base,
                composed(a.frames@, w, h, a.bg@, n).0,
                composed(a.frames@, w, h, a.bg@, n).1,
                w as int,
                h as int,
                a.frames@[n - 1],
                a.bg@,
            )
            &&& a.frames@[n as int].dispose == Disposal::Previous ==> composed(
                a.frames@,
                w,
                h,
                a.bg@,
                n + 1,
            ).1 == Some(base)
        };
    assert(b.state() == b.after(n + 1));
    assert(b.state() == composed(a.frames@, w, h, a.bg@, n + 1));
    assert(is_drawn(b.canvas@, base, w as int, h as int, a.frames@[n as int]));
    assert(a.state() == composed(a.frames@, w, h, a.bg@, n));
    assert(a.shown is None ==> base == a.canvas@);
    assert(a.shown matches Some(i) ==> is_left(
        base,
        a.canvas@,
        a.state().1,
        w as int,
        h as int,
        a.frames@[i as int],
        a.bg@,
    ));
    assert(a.frames@[n as int].dispose == Disposal::Previous ==> b.state().1 == Some(base));
    assert(drew_over(a, b, base));
}

/// A step disposes of the shown frame and draws the next one; behind the last frame nothing
/// happens.
pub proof fn a_step_draws_the_next_frame()
    ensures
        forall|m: &mut GifSource| #[trigger]
            call_ensures(GifSource::step, (m,), ()) && m.wf() ==> (if m.count()
                < m.frames@.len() {
                went_on(*m, *final(m))
            } else {
                *final(m) == *m
            }),
{
    assert forall|m: &mut GifSource| #[trigger]
        call_ensures(GifSource::step, (m,), ()) && m.wf() && m.count()
            < m.frames@.len() implies went_on(*m, *final(m)) by {
        went_on_here(*m, *final(m));
    }
}

/// When frame `n` comes: after the frames before it have been shown for their time.
pub open spec fn start_of(frames: Seq<GifFrame>, n: int) -> int
    decreases frames.len(),
{
    if n <= 0 || frames.len() == 0 {
        0
    } else {
        frames[0].delay + start_of(frames.drop_first(), n - 1)
    }
}

proof fn starts_add_up(frames: Seq<GifFrame>, n: nat)
    requires
        n <= frames.len(),
    ensures
        start_of(frames, n as int) == crate::media::gif::time_of(frames, n),
    decreases frames.len() + n,
{
    if n > 0 {
        front_first(frames, n);
        starts_add_up(frames.drop_first(), (n - 1) as nat);
    }
}

proof fn front_first(frames: Seq<GifFrame>, n: nat)
    requires
        0 < n <= frames.len(),
    ensures
        crate::media::gif::time_of(frames, n) == frames[0].delay + crate::media::gif::time_of(
            frames.drop_first(),
            (n - 1) as nat,
        ),
    decreases n,
{
    if n > 1 {
        front_first(frames, (n - 1) as nat);
        assert(frames.drop_first()[n - 2] == frames[n - 1]);
    } else {
        assert(crate::media::gif::time_of(frames, 0) == 0);
    }
}

/// At a moment of the animation that frame is seen which has begun and whose successor has not.
pub proof fn the_frame_of_the_moment_is_seen(g: GifSource, pos: Nanos, i: usize)
    requires
        g.frames_wf(),
        call_ensures(GifSource::frame_at, (&g, pos), i),
    ensures
        i < g.frames@.len(),
        start_of(g.frames@, i as int) <= pos,
        pos < start_of(g.frames@, i + 1) || i == g.frames@.len() - 1,
{
    starts_add_up(g.frames@, i as nat);
    starts_add_up(g.frames@, (i + 1) as nat);
}

/// What a look at the animation does.
pub open spec fn was_looked_at(a: GifSource, raw: Nanos, b: GifSource, r: Option<Frame>) -> bool {
    &&& b.frames == a.frames && b.width == a.width && b.height == a.height && b.bg == a.bg
    &&& b.clock == a.clock
    &&& b.shown matches Some(k) && b.sent == Some(k) && k < a.frames@.len() && (start_of(
        a.frames@,
        a.frames@.len() as int,
    ) <= 0x1_0000_0000_0000_0000 ==> exists|pos: int| #[trigger]
        is_moment(
            raw,
            start_of(a.frames@, a.frames@.len() as int) as u128,
            a.clock.looped,
            pos,
        ) && start_of(a.frames@, k as int) <= pos < start_of(a.frames@, k + 1))
    &&& b.canvas@ == composed(
        a.frames@,
        a.width as nat,
        a.height as nat,
        a.bg@,
        (b.shown->0 + 1) as nat,
    ).0
    &&& match r {
        Some(f) => {
            &&& a.sent != b.sent
            &&& f.generation == a.generation + 1 == b.generation
            &&& f.data matches FrameData::Cpu(c) && c.pixels@ == b.canvas@ && c.width == a.width
                && c.height == a.height && c.stride == 4 * a.width
        },
        None => a.sent == b.sent && b.generation == a.generation,
    }
}

proof fn was_looked_at_here(a: GifSource, raw: Nanos, b: GifSource, r: Option<Frame>)
    requires
        a.wf(),
        b.polled(&a, raw, r),
    ensures
        was_looked_at(a, raw, b, r),
{
    let n = a.frames@.len();
    let k = b.shown->0;
    starts_add_up(a.frames@, n);
    starts_add_up(a.frames@, k as nat);
    starts_add_up(a.frames@, (k + 1) as nat);
    assert(a.frames@[n - 1].wf());
    assert(a.total > 0);
    let pos = crate::clock::place(raw, Some(a.total), a.clock.looped);
    crate::clock::position_is_inside(raw, a.total, a.clock.looped);
    if a.total <= 0x1_0000_0000_0000_0000 {
        crate::laws::clock::place_is_moment(raw, a.total, a.clock.looped);
        assert(is_moment(raw, a.total, a.clock.looped, pos as int));
    }
    assert(b.state() == b.after(b.count()));
    assert(start_of(a.frames@, n as int) == a.total);
    assert(start_of(a.frames@, n as int) as u128 == a.total);
    assert(start_of(a.frames@, k as int) <= pos < start_of(a.frames@, k + 1));
    assert(b.canvas@ == a.after((k + 1) as nat).0);
}

/// A look shows the frame of the moment, composited from the frames up to it, and hands it out if
/// it was not handed out last, with the next number.
pub proof fn a_look_shows_the_frame_of_the_moment()
    ensures
        forall|m: &mut GifSource, raw: Nanos, r: Option<Frame>| #[trigger]
            call_ensures(GifSource::poll, (m, raw), r) && m.wf() && m.generation < u64::MAX
                ==> was_looked_at(*m, raw, *final(m), r),
{
    assert forall|m: &mut GifSource, raw: Nanos, r: Option<Frame>| #[trigger]
        call_ensures(GifSource::poll, (m, raw), r) && m.wf() && m.generation
            < u64::MAX implies was_looked_at(*m, raw, *final(m), r) by {
        was_looked_at_here(*m, raw, *final(m), r);
    }
}

proof fn bare_here(g: GifSource)
    requires
        g.wf(),
        g.shown is None,
    ensures
        is_bare(g.canvas@, g.width as int, g.height as int, g.bg@),
        g.backup is None,
{
    the_canvas_is_built_frame_by_frame(g.frames@, g.width as nat, g.height as nat, g.bg@, 0);
    assert(g.state() == g.after(0));
}

/// A cleared canvas is all background, and nothing is kept aside; showing a frame ends at that
/// frame.
pub proof fn a_cleared_canvas_is_bare()
    ensures
        forall|m: &mut GifSource| #[trigger]
            call_ensures(GifSource::clear_canvas, (m,), ()) && m.frames_wf() ==> final(m).shown
                is None && final(m).backup is None && is_bare(
                final(m).canvas@,
                m.width as int,
                m.height as int,
                m.bg@,
            ),
        forall|m: &mut GifSource, target: usize| #[trigger]
            call_ensures(GifSource::show, (m, target), ()) && m.wf() && target < m.frames@.len()
                ==> final(m).shown == Some(target) && final(m).canvas@ == composed(
                m.frames@,
                m.width as nat,
                m.height as nat,
                m.bg@,
                (target + 1) as nat,
            ).0,
{
    assert forall|m: &mut GifSource| #[trigger]
        call_ensures(GifSource::clear_canvas, (m,), ()) && m.frames_wf() implies final(m).shown
        is None && final(m).backup is None && is_bare(
        final(m).canvas@,
        m.width as int,
        m.height as int,
        m.bg@,
    ) by {
        bare_here(*final(m));
    }
    assert forall|m: &mut GifSource, target: usize| #[trigger]
        call_ensures(GifSource::show, (m, target), ()) && m.wf() && target
            < m.frames@.len() implies final(m).shown == Some(target) && final(m).canvas@
        == composed(
        m.frames@,
        m.width as nat,
        m.height as nat,
        m.bg@,
        (target + 1) as nat,
    ).0 by {
        shown_here(*m, *final(m), target);
    }
}

proof fn shown_here(a: GifSource, b: GifSource, target: usize)
    requires
        b.wf(),
        b.shown == Some(target),
        b.same_animation(&a),
    ensures
        b.canvas@ == composed(
            a.frames@,
            a.width as nat,
            a.height as nat,
            a.bg@,
            (target + 1) as nat,
        ).0,
{
    assert(b.state() == b.after(b.count()));
}

/// `f` is the frame that a file tells of: its place, size and pixels, its time in hundredths of a
/// second, of which less than two count as ten, and what becomes of it.
pub open spec fn is_frame(
    f: GifFrame,
    delay: u16,
    dispose: u8,
    place: (u16, u16),
    size: (u16, u16),
    rgba: Seq<u8>,
) -> bool {
    &&& f.left == place.0 && f.top == place.1
    &&& f.width == size.0 && f.height == size.1
    &&& f.rgba@ == rgba
    &&& delay >= 2 ==> f.delay == 10_000_000 * delay
    &&& delay < 2 ==> f.delay == 100_000_000
    &&& dispose == 1 <==> f.dispose == Disposal::Keep
    &&& dispose == 2 <==> f.dispose == Disposal::Background
    &&& dispose == 3 <==> f.dispose == Disposal::Previous
}

/// A frame of a file is taken as the file tells it.
pub proof fn a_frame_is_as_its_file_tells(raw: RawFrame, f: GifFrame)
    requires
        raw.rgba@.len() == 4 * raw.width * raw.height,
        call_ensures(GifFrame::from_raw, (raw,), f),
    ensures
        is_frame(
            f,
            raw.delay,
            raw.dispose,
            (raw.left, raw.top),
            (raw.width, raw.height),
            raw.rgba@,
        ),
{
}

/// The background is the entry of the colour table, blue first and opaque; without such an entry
/// it is clear.
pub proof fn the_background_is_an_entry_of_the_table(
    index: Option<usize>,
    palette: Option<Vec<u8>>,
    bg: [u8; 4],
)
    requires
        call_ensures(background, (index, &palette), bg),
    ensures
        match (index, palette) {
            (Some(i), Some(p)) => if 3 * (i + 1) <= p@.len() {
                bg@[0] == p@[3 * i + 2] && bg@[1] == p@[3 * i + 1] && bg@[2] == p@[3 * i] && bg@[3]
                    == 255
            } else {
                bg@ == seq![0u8, 0u8, 0u8, 0u8]
            },
            _ => bg@ == seq![0u8, 0u8, 0u8, 0u8],
        },
{
}

/// A file that opens gives its own size and all of its frames in order; nothing is shown yet, and
/// the canvas is bare.
pub proof fn a_file_opens_as_it_is(
    path: &str,
    bytes: Vec<u8>,
    speed: u64,
    looped: bool,
    g: GifSource,
)
    requires
        call_ensures(GifSource::open, (path, bytes, speed, looped), Ok(g)),
        bytes@.len() >= 13 ==> 4 * (bytes@[6] + 256 * bytes@[7]) * (bytes@[8] + 256 * bytes@[9])
            <= usize::MAX,
    ensures
        crate::media::gif_file::header(bytes@) is Ok,
        g.width == bytes@[6] + 256 * bytes@[7] && g.width > 0,
        g.height == bytes@[8] + 256 * bytes@[9] && g.height > 0,
        g.frames@.len() > 0,
        crate::media::gif_file::frame(bytes@, g.frames@.len()) == Ok::<
            Option<(u16, u8, (u16, u16), (u16, u16), Seq<u8>)>,
            Seq<char>,
        >(None),
        forall|i: int|
            0 <= i < g.frames@.len() ==> (crate::media::gif_file::frame(
                bytes@,
                i as nat,
            ) matches Ok(Some(raw)) && is_frame(
                #[trigger] g.frames@[i],
                raw.0,
                raw.1,
                raw.2,
                raw.3,
                raw.4,
            )),
        g.shown is None && g.sent is None && g.generation == 0 && g.clock.started is None,
        g.clock.looped == looped,
        is_bare(g.canvas@, g.width as int, g.height as int, g.bg@),
{
    let n = choose|n: nat| #[trigger]
        crate::media::gif::frames_until(bytes@, n) && match crate::media::gif_file::frame(
            bytes@,
            n,
        ) {
            Err(why) => false,
            Ok(Some(_)) => false,
            Ok(None) => n > 0 && g.frames@.len() == n,
        };
    bare_here(g);
    assert forall|i: int| 0 <= i < g.frames@.len() implies (crate::media::gif_file::frame(
        bytes@,
        i as nat,
    ) matches Ok(Some(raw)) && is_frame(
        #[trigger] g.frames@[i],
        raw.0,
        raw.1,
        raw.2,
        raw.3,
        raw.4,
    )) by {
        let raw = (crate::media::gif_file::frame(bytes@, i as nat)->Ok_0)->0;
        assert(g.frames@[i].is_of(raw));
    }
}

/// Frames that were read make an animation of their size; a file without a size or without frames
/// is refused, and says so.
pub proof fn frames_make_an_animation(
    path: &str,
    width: u16,
    height: u16,
    bg: [u8; 4],
    frames: Vec<GifFrame>,
    speed: u64,
    looped: bool,
    r: Result<GifSource, MediaError>,
)
    requires
        forall|i: int| 0 <= i < frames@.len() ==> (#[trigger] frames@[i]).wf(),
        4 * width * height <= usize::MAX,
        call_ensures(GifSource::from_frames, (path, width, height, bg, frames, speed, looped), r),
    ensures
        r is Ok <==> width > 0 && height > 0 && frames@.len() > 0,
        r matches Ok(g) ==> g.width == width && g.height == height && g.bg@ == bg@ && g.frames@
            == frames@ && g.total == start_of(frames@, frames@.len() as int) && is_bare(
            g.canvas@,
            width as int,
            height as int,
            bg@,
        ),
        r matches Err(e) ==> (e matches MediaError::Open { path: p, reason: why } && p@ == path@
            && why@ == (if width == 0 || height == 0 {
            "empty GIF"@
        } else {
            "GIF has no frames"@
        })),
{
    if let Ok(g) = r {
        bare_here(g);
        starts_add_up(frames@, frames@.len());
    }
}

/// The time of an animation starts with the first look; a look at the time changes nothing else.
pub proof fn an_animation_tells_the_time_since_its_first_look()
    ensures
        forall|s: &mut GifSource, now: crate::clock::Nanos, r: crate::clock::Nanos| #[trigger]
            call_ensures(GifSource::elapsed, (s, now), r) ==> (s.clock.started is None ==> r == 0
                && final(s).clock.started == Some(now)) && (s.clock.started matches Some(t)
                ==> final(s).clock.started == Some(t) && (now >= t ==> r == now - t) && (now < t
                ==> r == 0)) && final(s).clock.speed == s.clock.speed && final(s).clock.looped
                == s.clock.looped && final(s).canvas == s.canvas && final(s).shown == s.shown
                && final(s).generation == s.generation && final(s).sent == s.sent,
{
}

} // verus!
