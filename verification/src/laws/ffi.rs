//! Laws of what crosses the C interface.

use crate::clock::Nanos;
use crate::config::{expand_home, sanitize_speed, truthy, Settings};
use crate::extra::{for_monitor, Clients, CoverRect, Fill};
use crate::ffi::{
    message_len, nsc_animating, nsc_cover_alive, nsc_extra_rects, nsc_resolve, nsc_take_notification,
    NscExtraRect, NscFrame, NscPlane, NscPlayRequest,
};
use crate::frame::{DmaBufPlane, Frame, FrameData};
use crate::laws::config::{is_given, is_word};
use crate::laws::registry::{can_move, can_rest, holds, is_look};
use crate::media::Source;
use crate::registry::{Answers, CoverView, Opener, Registry};
use vstd::prelude::*;

verus! {

/// There is no plane.
pub open spec fn is_no_plane(p: NscPlane) -> bool {
    p.fd == 0 && p.offset == 0 && p.stride == 0
}

/// The plane of a frame.
pub open spec fn is_plane(p: NscPlane, d: DmaBufPlane) -> bool {
    p.fd == d.fd && p.offset == d.offset && p.stride == d.stride
}

/// Nothing but numbers.
pub open spec fn is_nothing(f: NscFrame<'_>, id: u64, generation: u64) -> bool {
    &&& f.cover_id == id
    &&& f.generation == generation
    &&& f.kind == 0
    &&& f.width == 0
    &&& f.height == 0
    &&& f.stride == 0
    &&& f.pixels is None
    &&& f.fourcc == 0
    &&& f.modifier == 0
    &&& f.plane_count == 0
    &&& forall|i: int| 0 <= i < 4 ==> is_no_plane(#[trigger] f.planes@[i])
}

/// `f` is the picture `frame` of cover `id`. Pixels in memory are kind 1, in the format `AR24`
/// (0x34325241); those in video memory are kind 2, in their own format, plane by plane.
pub open spec fn is_picture(f: NscFrame<'_>, id: u64, frame: Frame) -> bool {
    &&& f.cover_id == id
    &&& f.generation == frame.generation
    &&& match frame.data {
        FrameData::Cpu(c) => {
            &&& f.kind == 1
            &&& f.width == c.width
            &&& f.height == c.height
            &&& f.stride == c.stride
            &&& f.pixels matches Some(p) && p@ == c.pixels@
            &&& f.fourcc == 0x34325241
            &&& f.modifier == 0
            &&& f.plane_count == 0
            &&& forall|i: int| 0 <= i < 4 ==> is_no_plane(#[trigger] f.planes@[i])
        },
        FrameData::DmaBuf(d) => {
            &&& f.kind == 2
            &&& f.width == d.width
            &&& f.height == d.height
            &&& f.stride == 0
            &&& f.pixels is None
            &&& f.fourcc == d.fourcc
            &&& f.modifier == d.modifier
            &&& f.plane_count == d.planes@.len()
            &&& forall|i: int|
                0 <= i < d.planes@.len() ==> is_plane(#[trigger] f.planes@[i], d.planes@[i])
            &&& forall|i: int|
                d.planes@.len() <= i < 4 ==> is_no_plane(#[trigger] f.planes@[i])
        },
    }
}

/// The frame has more planes than four.
pub open spec fn has_too_many_planes(frame: Frame) -> bool {
    frame.data matches FrameData::DmaBuf(d) && d.planes@.len() > 4
}

proof fn shown_is_pictured(f: NscFrame<'_>, id: u64, frame: Frame)
    requires
        f.shows(id, frame),
    ensures
        is_picture(f, id, frame),
        !has_too_many_planes(frame),
{
}

proof fn blank_is_nothing(f: NscFrame<'_>, id: u64, generation: u64)
    requires
        f.is_blank(id, generation),
    ensures
        is_nothing(f, id, generation),
{
}

/// The frame of a cover is handed out as it is; one with more than four planes is not drawn.
pub proof fn a_frame_is_handed_out_as_it_is(view: CoverView<'_>, r: (bool, NscFrame<'_>))
    requires
        call_ensures(NscFrame::from_view, (&view,), r),
    ensures
        r.0 <==> !has_too_many_planes(*view.frame),
        r.0 ==> is_picture(r.1, view.id, *view.frame),
        !r.0 ==> is_nothing(r.1, view.id, view.frame.generation),
{
    if r.0 {
        shown_is_pictured(r.1, view.id, *view.frame);
    } else {
        blank_is_nothing(r.1, view.id, view.frame.generation);
    }
}

/// An empty frame is nothing to draw.
pub proof fn an_empty_frame_is_nothing(f: NscFrame<'_>, p: NscPlane)
    requires
        call_ensures(NscFrame::empty, (), f),
        call_ensures(<NscPlane as Default>::default, (), p),
    ensures
        is_nothing(f, 0, 0),
        is_no_plane(p),
{
}

/// What a window asks for: the path, speed and loop of its rule, where the rule gives them, else
/// those of the settings.
pub open spec fn is_asked_for(
    play: (Seq<char>, u64, bool),
    req: NscPlayRequest<'_>,
    home: Option<&str>,
    s: Settings,
    path: (&str, String),
    speed: (&str, u64),
    looped: (&str, bool),
) -> bool {
    is_word(req.rule_path, path.0) && is_word(req.rule_speed, speed.0) && is_word(
        req.rule_loop,
        looped.0,
    ) && call_ensures(expand_home, (path.0, home), path.1) && (req.rule_number matches Some(n)
        ==> call_ensures(sanitize_speed, (n,), speed.1)) && call_ensures(
        truthy,
        (looped.0,),
        looped.1,
    ) ==> {
        &&& play.0 == (if is_given(req.rule_path, path.0) {
            path.1@
        } else {
            s.path_cover@
        })
        &&& play.1 == (if !is_given(req.rule_speed, speed.0) {
            s.speed
        } else if req.rule_number is Some {
            speed.1
        } else {
            0x3ff0_0000_0000_0000
        })
        &&& play.2 == (if is_given(req.rule_loop, looped.0) {
            looped.1
        } else {
            s.looped
        })
    }
}

/// What is handed out is the picture of the cover, if it has one that can be drawn.
pub open spec fn is_result(r: (bool, NscFrame<'_>), current: Option<Frame>, id: u64) -> bool {
    match current {
        None => !r.0 && is_nothing(r.1, 0, 0),
        Some(f) => if has_too_many_planes(f) {
            !r.0 && is_nothing(r.1, id, f.generation)
        } else {
            r.0 && is_picture(r.1, id, f)
        },
    }
}

proof fn asked_for(
    play: (Seq<char>, u64, bool),
    req: NscPlayRequest<'_>,
    home: Option<&str>,
    s: Settings,
    path: (&str, String),
    speed: (&str, u64),
    looped: (&str, bool),
)
    requires
        crate::ffi::is_request(play, req, home, s.plays()),
    ensures
        is_asked_for(play, req, home, s, path, speed, looped),
{
}

/// A window gets the picture of the cover that its rule and the settings ask for.
pub proof fn a_window_gets_what_it_asks_for<S: Source, O: Opener<S>>(
    path: (&str, String),
    speed: (&str, u64),
    looped: (&str, bool),
)
    ensures
        forall|
            reg: &mut Registry<S, O>,
            req: &NscPlayRequest<'_>,
            home: Option<&str>,
            now: Nanos,
            r: (bool, NscFrame<'_>),
        | #[trigger]
            call_ensures(nsc_resolve::<S, O>, (reg, req, home, now), r) && reg.wf() && now
                + 1_000_000_000 <= u128::MAX ==> exists|
                s: Settings,
                play: crate::config::PlayParams,
                i: int,
                w: Answers<S>,
            |
                #![trigger holds(*reg, s), is_look(*reg, *final(reg), play, now, i, w)]
                holds(*reg, s) && is_asked_for(
                    (play.path@, play.speed, play.looped),
                    *req,
                    home,
                    s,
                    path,
                    speed,
                    looped,
                ) && is_look(*reg, *final(reg), play, now, i, w) && is_result(
                    r,
                    final(reg).covers@[i].current,
                    final(reg).covers@[i].id,
                ),
{
    assert forall|
        reg: &mut Registry<S, O>,
        req: &NscPlayRequest<'_>,
        home: Option<&str>,
        now: Nanos,
        r: (bool, NscFrame<'_>),
    | #[trigger]
        call_ensures(nsc_resolve::<S, O>, (reg, req, home, now), r) && reg.wf() && now
            + 1_000_000_000 <= u128::MAX implies exists|
        s: Settings,
        play: crate::config::PlayParams,
        i: int,
        w: Answers<S>,
    |
        #![trigger holds(*reg, s), is_look(*reg, *final(reg), play, now, i, w)]
        holds(*reg, s) && is_asked_for(
            (play.path@, play.speed, play.looped),
            *req,
            home,
            s,
            path,
            speed,
            looped,
        ) && is_look(*reg, *final(reg), play, now, i, w) && is_result(
            r,
            final(reg).covers@[i].current,
            final(reg).covers@[i].id,
        ) by {
        let (s, play, i, w) = choose|
            s: Settings,
            play: crate::config::PlayParams,
            i: int,
            w: Answers<S>,
        |
            #![trigger reg.in_force(s), final(reg).serves(reg, play, now, i, w)]
            reg.in_force(s) && crate::ffi::is_request(play@, *req, home, s.plays())
                && final(reg).serves(reg, play, now, i, w) && reg.opener_said(play, now, w)
                && match final(reg).covers@[i].current {
                None => !r.0 && r.1.is_blank(0, 0),
                Some(f) => if f.data matches FrameData::DmaBuf(d) && d.planes@.len()
                    > crate::ffi::MAX_PLANES {
                    !r.0 && r.1.is_blank(final(reg).covers@[i].id, f.generation)
                } else {
                    r.0 && r.1.shows(final(reg).covers@[i].id, f)
                },
            };
        crate::laws::registry::serves_is_a_look(*reg, *final(reg), play, now, i, w);
        asked_for(play@, *req, home, s, path, speed, looped);
        assert(holds(*reg, s));
        assert(is_result(r, final(reg).covers@[i].current, final(reg).covers@[i].id));
    }
}

/// Something is drawn anew if and only if a GIF or a video was shown in the last second.
pub proof fn only_what_was_shown_lately_moves<S: Source, O: Opener<S>>(
    reg: Registry<S, O>,
    now: Nanos,
    r: bool,
)
    requires
        call_ensures(nsc_animating::<S, O>, (&reg, now), r),
    ensures
        r ==> exists|i: int|
            0 <= i < reg.covers@.len() && can_move(#[trigger] reg.covers@[i]) && now
                < reg.covers@[i].last_used + 1_000_000_000,
        !r ==> forall|i: int|
            0 <= i < reg.covers@.len() && now < (#[trigger] reg.covers@[i]).last_used
                + 1_000_000_000 ==> can_rest(reg.covers@[i]),
{
    if r {
        let i = choose|i: int|
            0 <= i < reg.covers@.len() && crate::registry::moves(
                #[trigger] reg.covers@[i],
                now,
                1_000_000_000,
            );
        crate::laws::registry::a_mover(reg.covers@[i], now, 1_000_000_000);
    } else {
        assert forall|i: int|
            0 <= i < reg.covers@.len() && now < (#[trigger] reg.covers@[i]).last_used
                + 1_000_000_000 implies can_rest(reg.covers@[i]) by {
            crate::laws::registry::a_rester(reg.covers@[i], now, 1_000_000_000);
        }
    }
}

/// A number is alive if and only if a cover has it.
pub proof fn a_number_is_alive_with_its_cover<S: Source, O: Opener<S>>(
    reg: Registry<S, O>,
    id: u64,
    r: bool,
)
    requires
        call_ensures(nsc_cover_alive::<S, O>, (&reg, id), r),
    ensures
        r ==> exists|i: int| 0 <= i < reg.covers@.len() && (#[trigger] reg.covers@[i]).id == id,
        !r ==> forall|i: int| 0 <= i < reg.covers@.len() ==> (#[trigger] reg.covers@[i]).id != id,
{
}

/// As much of a message goes into a buffer as leaves room for a zero and cuts no character.
pub proof fn a_message_is_cut_between_characters(msg: &str, cap: usize, n: usize, k: int)
    requires
        call_ensures(message_len, (msg, cap), n),
    ensures
        n < cap,
        n <= vstd::utf8::encode_utf8(msg@).len(),
        vstd::utf8::valid_utf8(vstd::utf8::encode_utf8(msg@).subrange(0, n as int)),
        vstd::utf8::encode_utf8(msg@).len() < cap ==> n == vstd::utf8::encode_utf8(msg@).len(),
        0 <= k < cap && k <= vstd::utf8::encode_utf8(msg@).len()
            && vstd::utf8::is_char_boundary(vstd::utf8::encode_utf8(msg@), k) ==> k <= n,
{
    crate::ffi::a_cut_message_is_a_text(msg@, cap, n as int);
}

/// `r` is the front of the first message, which is gone from the registry; the rest is as it was.
pub open spec fn is_message<S: Source, O: Opener<S>>(
    a: Registry<S, O>,
    b: Registry<S, O>,
    cap: usize,
    r: Option<Vec<u8>>,
) -> bool {
    &&& b.settings == a.settings && b.epoch == a.epoch && b.frame_no == a.frame_no && b.opener
        == a.opener && b.covers == a.covers && b.next_id == a.next_id
    &&& r is None <==> cap == 0 || a.notifier.queue@.len() == 0
    &&& r is None ==> b.notifier@ == a.notifier@
    &&& r matches Some(bytes) ==> {
        let all = vstd::utf8::encode_utf8(a.notifier.queue@[0]@);
        &&& bytes@.len() < cap
        &&& bytes@.len() <= all.len()
        &&& bytes@ == all.subrange(0, bytes@.len() as int)
        &&& all.len() < cap ==> bytes@ == all
        &&& vstd::utf8::valid_utf8(bytes@)
        &&& forall|k: int|
            bytes@.len() < k < cap && k <= all.len() ==> !#[trigger] vstd::utf8::is_char_boundary(
                all,
                k,
            )
        &&& b.notifier.queue@.len() == a.notifier.queue@.len() - 1
        &&& crate::laws::notify::goes_on(a.notifier, b.notifier, 1)
        &&& b.notifier.last is Some <==> a.notifier.last is Some
    }
}

proof fn message_is_taken<S: Source, O: Opener<S>>(
    a: Registry<S, O>,
    b: Registry<S, O>,
    cap: usize,
    r: Option<Vec<u8>>,
)
    requires
        b.same_frame(&a),
        b.covers == a.covers,
        b.next_id == a.next_id,
        if cap == 0 || a.notifier@.1.len() == 0 {
            r is None && b.notifier@ == a.notifier@
        } else {
            let bytes = vstd::utf8::encode_utf8(a.notifier@.1.first());
            &&& b.notifier@ == (a.notifier@.0, a.notifier@.1.drop_first())
            &&& r matches Some(t) && crate::ffi::is_cut(bytes, cap, t@.len() as int) && t@
                == bytes.subrange(0, t@.len() as int)
        },
    ensures
        is_message(a, b, cap, r),
{
    assert(a.notifier@.1.len() == a.notifier.queue@.len());
    if let Some(bytes) = r {
        let text = a.notifier@.1.first();
        assert(text == a.notifier.queue@[0]@);
        crate::ffi::a_cut_message_is_a_text(text, cap, bytes@.len() as int);
        let all = vstd::utf8::encode_utf8(text);
        assert(all.len() < cap ==> bytes@ =~= all);
        crate::laws::notify::is_taken_text(a.notifier, b.notifier);
    }
}

/// Messages are told one by one, the oldest first, each as far as it fits.
pub proof fn messages_are_told_one_by_one<S: Source, O: Opener<S>>()
    ensures
        forall|reg: &mut Registry<S, O>, cap: usize, r: Option<Vec<u8>>| #[trigger]
            call_ensures(nsc_take_notification::<S, O>, (reg, cap), r) ==> is_message(
                *reg,
                *final(reg),
                cap,
                r,
            ),
{
    assert forall|reg: &mut Registry<S, O>, cap: usize, r: Option<Vec<u8>>| #[trigger]
        call_ensures(nsc_take_notification::<S, O>, (reg, cap), r) implies is_message(
        *reg,
        *final(reg),
        cap,
        r,
    ) by {
        message_is_taken(*reg, *final(reg), cap, r);
    }
}

/// `e` is the rectangle `r`; filled with black it has the number 0, with a cover 1.
pub open spec fn is_sent(e: NscExtraRect, r: CoverRect) -> bool {
    &&& e.x == r.x
    &&& e.y == r.y
    &&& e.w == r.w
    &&& e.h == r.h
    &&& e.rounding == r.rounding
    &&& e.window == r.window
    &&& e.fill == match r.fill {
        Fill::Black => 0u32,
        Fill::WindowCover => 1u32,
    }
}

/// The first rectangles of a monitor are handed out, as many as fit, and how many there are.
pub proof fn rectangles_are_handed_out(
    clients: Clients,
    monitor: i64,
    cap: usize,
    r: (Vec<NscExtraRect>, usize),
    all: Vec<CoverRect>,
)
    requires
        call_ensures(nsc_extra_rects, (&clients, monitor, cap), r),
        call_ensures(for_monitor, (&clients, monitor), all),
    ensures
        r.1 == all@.len(),
        r.0@.len() <= cap,
        r.0@.len() == cap || r.0@.len() == all@.len(),
        r.0@.len() <= all@.len(),
        forall|i: int| 0 <= i < r.0@.len() ==> is_sent(#[trigger] r.0@[i], all@[i]),
{
}

} // verus!
