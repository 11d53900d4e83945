//! What crosses the C interface of the plugin, as plain values: requests, frames, rectangles,
//! notifications. Pointers and their lifetimes are the program's.

use crate::clock::Nanos;
use crate::config::{PlayParams, Settings};
use crate::extra::{for_monitor, Clients};
use crate::frame::{FrameData, DRM_FORMAT_ARGB8888};
use crate::media::Source;
use crate::registry::{Answers, CoverView, Opener, Registry};
use vstd::prelude::*;
use vstd::string::*;

verus! {

pub const NSC_FRAME_NONE: u32 = 0;

pub const NSC_FRAME_CPU: u32 = 1;

pub const NSC_FRAME_DMABUF: u32 = 2;

/// How long after it was shown a cover counts as shown.
pub const SHOWN_LATELY: Nanos = 1_000_000_000;

/// How many planes a frame can have.
pub const MAX_PLANES: usize = 4;

/// Overrides of a window rule. `None`: the rule does not set the value.
pub struct NscPlayRequest<'a> {
    pub rule_path: Option<&'a str>,
    pub rule_speed: Option<&'a str>,
    /// The bits of the number that `rule_speed` spells, `None` if it spells none.
    pub rule_number: Option<u64>,
    pub rule_loop: Option<&'a str>,
}

/// One plane of a frame in video memory.
#[derive(Debug, Clone, Copy, PartialEq, Eq, Structural)]
pub struct NscPlane {
    pub fd: i32,
    pub offset: u32,
    pub stride: u32,
}

/// No plane.
pub open spec fn no_plane() -> NscPlane {
    NscPlane { fd: 0, offset: 0, stride: 0 }
}

impl Default for NscPlane {
    fn default() -> (r: NscPlane)
        ensures
            r == no_plane(),
    {
        NscPlane { fd: 0, offset: 0, stride: 0 }
    }
}

/// A frame as it is drawn.
pub struct NscFrame<'a> {
    pub cover_id: u64,
    pub generation: u64,
    pub kind: u32,
    pub width: u32,
    pub height: u32,
    /// Bytes per row; pixels are premultiplied BGRA.
    pub stride: u32,
    pub pixels: Option<&'a Vec<u8>>,
    pub fourcc: u32,
    pub modifier: u64,
    pub plane_count: u32,
    pub planes: [NscPlane; 4],
}

impl<'a> NscFrame<'a> {
    /// Nothing to draw, but perhaps the number of a cover and of its frame.
    pub open spec fn is_blank(&self, id: u64, generation: u64) -> bool {
        &&& self.cover_id == id
        &&& self.generation == generation
        &&& self.kind == NSC_FRAME_NONE
        &&& self.width == 0
        &&& self.height == 0
        &&& self.stride == 0
        &&& self.pixels is None
        &&& self.fourcc == 0
        &&& self.modifier == 0
        &&& self.plane_count == 0
        &&& forall|i: int| 0 <= i < MAX_PLANES ==> #[trigger] self.planes@[i] == no_plane()
    }

    /// The frame that the cover shows.
    pub open spec fn shows(&self, id: u64, frame: crate::frame::Frame) -> bool {
        &&& self.cover_id == id
        &&& self.generation == frame.generation
        &&& match frame.data {
            FrameData::Cpu(f) => {
                &&& self.kind == NSC_FRAME_CPU
                &&& self.width == f.width
                &&& self.height == f.height
                &&& self.stride == f.stride
                &&& self.pixels matches Some(p) && p@ == f.pixels@
                &&& self.fourcc == DRM_FORMAT_ARGB8888
                &&& self.modifier == 0
                &&& self.plane_count == 0
                &&& forall|i: int| 0 <= i < MAX_PLANES ==> #[trigger] self.planes@[i] == no_plane()
            },
            FrameData::DmaBuf(d) => {
                &&& d.planes@.len() <= MAX_PLANES
                &&& self.kind == NSC_FRAME_DMABUF
                &&& self.width == d.width
                &&& self.height == d.height
                &&& self.stride == 0
                &&& self.pixels is None
                &&& self.fourcc == d.fourcc
                &&& self.modifier == d.modifier
                &&& self.plane_count == d.planes@.len()
                &&& forall|i: int|
                    0 <= i < MAX_PLANES ==> #[trigger] self.planes@[i] == (if i < d.planes@.len() {
                        NscPlane {
                            fd: d.planes@[i].fd,
                            offset: d.planes@[i].offset,
                            stride: d.planes@[i].stride,
                        }
                    } else {
                        no_plane()
                    })
            },
        }
    }

    /// Nothing to draw.
    pub fn empty() -> (r: NscFrame<'a>)
        ensures
            r.is_blank(0, 0),
    {
        NscFrame {
            cover_id: 0,
            generation: 0,
            kind: NSC_FRAME_NONE,
            width: 0,
            height: 0,
            stride: 0,
            pixels: None,
            fourcc: 0,
            modifier: 0,
            plane_count: 0,
            planes: [NscPlane { fd: 0, offset: 0, stride: 0 };4],
        }
    }

    /// The frame of a cover. `false`: it has more planes than fit, and is not drawn.
    pub fn from_view(view: &CoverView<'a>) -> (r: (bool, NscFrame<'a>))
        ensures
            if view.frame.data matches FrameData::DmaBuf(d) && d.planes@.len() > MAX_PLANES {
                !r.0 && r.1.is_blank(view.id, view.frame.generation)
            } else {
                r.0 && r.1.shows(view.id, *view.frame)
            },
    {
        let mut out = NscFrame::empty();
        out.cover_id = view.id;
        out.generation = view.frame.generation;
        match &view.frame.data {
            FrameData::Cpu(f) => {
                out.kind = NSC_FRAME_CPU;
                out.width = f.width;
                out.height = f.height;
                out.stride = f.stride;
                out.pixels = Some(&*f.pixels);
                out.fourcc = DRM_FORMAT_ARGB8888;
            },
            FrameData::DmaBuf(d) => {
                let n: usize = d.planes.len();
                if n > MAX_PLANES {
                    return (false, out);
                }
                out.kind = NSC_FRAME_DMABUF;
                out.width = d.width;
                out.height = d.height;
                out.fourcc = d.fourcc;
                out.modifier = d.modifier;
                out.plane_count = n as u32;
                let mut planes: [NscPlane; 4] = [NscPlane { fd: 0, offset: 0, stride: 0 };4];
                let mut i: usize = 0;
                while i < n
                    invariant
                        i <= n,
                        n == d.planes@.len(),
                        n <= MAX_PLANES,
                        forall|j: int|
                            0 <= j < MAX_PLANES ==> #[trigger] planes@[j] == (if j < i {
                                NscPlane {
                                    fd: d.planes@[j].fd,
                                    offset: d.planes@[j].offset,
                                    stride: d.planes@[j].stride,
                                }
                            } else {
                                no_plane()
                            }),
                    decreases n - i,
                {
                    let p = &d.planes[i];
                    planes[i] = NscPlane { fd: p.fd, offset: p.offset, stride: p.stride };
                    i += 1;
                }
                out.planes = planes;
            },
        }
        (true, out)
    }
}

/// What a request asks to play: the default, with the overrides of the rule.
pub open spec fn is_request(
    key: (Seq<char>, u64, bool),
    req: NscPlayRequest<'_>,
    home: Option<&str>,
    default: (Seq<char>, u64, bool),
) -> bool {
    &&& key.0 == match crate::config::given(req.rule_path) {
        Some(p) => crate::config::home_expanded(p, crate::config::home_of(home)),
        None => default.0,
    }
    &&& key.1 == match crate::config::given(req.rule_speed) {
        Some(_) => match req.rule_number {
            Some(n) => crate::config::sane_speed(n),
            None => crate::double::ONE,
        },
        None => default.1,
    }
    &&& key.2 == match crate::config::given(req.rule_loop) {
        Some(l) => crate::config::says_yes(l),
        None => default.2,
    }
}

/// The cover for a window. `false` means that there is nothing to draw.
pub fn nsc_resolve<'r, S: Source, O: Opener<S>>(
    registry: &'r mut Registry<S, O>,
    req: &NscPlayRequest<'_>,
    home: Option<&str>,
    now: Nanos,
) -> (r: (bool, NscFrame<'r>))
    requires
        old(registry).wf(),
        old(registry).next_id < u64::MAX,
        now + crate::registry::MISSING_RETRY <= u128::MAX,
    ensures
        final(registry).wf(),
        exists|settings: Settings, play: PlayParams, i: int, w: Answers<S>|
            #![trigger old(registry).in_force(settings), final(registry).serves(old(registry), play, now, i, w)]
            old(registry).in_force(settings) && is_request(play@, *req, home, settings.plays())
                && final(registry).serves(old(registry), play, now, i, w) && old(
                registry,
            ).opener_said(play, now, w) && (old(registry).source_asked(play, now, w) matches Some(
                source,
            ) ==> exists|m: &mut S|
                *m == source && *final(m) == w.after && #[trigger] call_ensures(
                    S::poll,
                    (m, now),
                    w.said,
                )) && match final(registry).covers@[i].current {
                None => !r.0 && r.1.is_blank(0, 0),
                Some(f) => if f.data matches FrameData::DmaBuf(d) && d.planes@.len() > MAX_PLANES {
                    !r.0 && r.1.is_blank(final(registry).covers@[i].id, f.generation)
                } else {
                    r.0 && r.1.shows(final(registry).covers@[i].id, f)
                },
            },
{
    let default = match &registry.settings {
        Some(s) => {
            assert(registry.in_force(*s));
            s.default_play()
        },
        None => {
            let s = registry.opener.defaults();
            assert(registry.in_force(s));
            s.default_play()
        },
    };
    let play = default.with_rule(
        req.rule_path,
        req.rule_speed,
        req.rule_number,
        req.rule_loop,
        home,
    );
    match registry.resolve(&play, now) {
        Some(view) => NscFrame::from_view(&view),
        None => (false, NscFrame::empty()),
    }
}

/// Whether any cover shown in the last second moves.
pub fn nsc_animating<S: Source, O: Opener<S>>(registry: &Registry<S, O>, now: Nanos) -> (r: bool)
    ensures
        r ==> exists|i: int|
            0 <= i < registry.covers@.len() && crate::registry::moves(
                #[trigger] registry.covers@[i],
                now,
                1_000_000_000,
            ),
        !r ==> forall|i: int|
            0 <= i < registry.covers@.len() ==> crate::registry::rests(
                #[trigger] registry.covers@[i],
                now,
                1_000_000_000,
            ),
{
    registry.moving(now, SHOWN_LATELY)
}

/// Whether a cover is alive; textures of dead ones are dropped.
pub fn nsc_cover_alive<S: Source, O: Opener<S>>(registry: &Registry<S, O>, id: u64) -> (r: bool)
    ensures
        r == exists|i: int|
            0 <= i < registry.covers@.len() && (#[trigger] registry.covers@[i]).id == id,
{
    let mut i: usize = 0;
    while i < registry.covers.len()
        invariant
            i <= registry.covers@.len(),
            forall|j: int| 0 <= j < i ==> (#[trigger] registry.covers@[j]).id != id,
        decreases registry.covers@.len() - i,
    {
        if registry.covers[i].id == id {
            return true;
        }
        i += 1;
    }
    false
}

/// The first `n` bytes of a message go into a buffer of `cap` bytes, with a zero behind them:
/// as many as fit, but no character is cut.
pub open spec fn is_cut(bytes: Seq<u8>, cap: usize, n: int) -> bool {
    &&& 0 <= n < cap
    &&& n <= bytes.len()
    &&& vstd::utf8::is_char_boundary(bytes, n)
    &&& forall|k: int|
        n < k < cap && k <= bytes.len() ==> !#[trigger] vstd::utf8::is_char_boundary(bytes, k)
}

/// How many bytes of a message go into a buffer of `cap` bytes.
pub fn message_len(msg: &str, cap: usize) -> (n: usize)
    requires
        cap > 0,
    ensures
        is_cut(vstd::utf8::encode_utf8(msg@), cap, n as int),
{
    let bytes = msg.as_bytes();
    let len: usize = bytes.len();
    let ghost b = msg.spec_bytes();
    let mut n: usize = if len < cap {
        len
    } else {
        cap - 1
    };
    proof {
        vstd::utf8::encode_utf8_valid_utf8(msg@);
        vstd::utf8::is_char_boundary_start_end_of_seq(b);
    }
    while !msg.is_char_boundary(n)
        invariant
            b == msg.spec_bytes(),
            n < cap,
            n <= len,
            len == b.len(),
            vstd::utf8::is_char_boundary(b, 0),
            forall|k: int|
                n < k < cap && k <= len ==> !#[trigger] vstd::utf8::is_char_boundary(b, k),
        decreases n,
    {
        n -= 1;
    }
    n
}

/// A message that fits is not cut, and what is left of one that does not is still a text.
pub proof fn a_cut_message_is_a_text(msg: Seq<char>, cap: usize, n: int)
    requires
        is_cut(vstd::utf8::encode_utf8(msg), cap, n),
    ensures
        vstd::utf8::valid_utf8(vstd::utf8::encode_utf8(msg).subrange(0, n)),
        vstd::utf8::encode_utf8(msg).len() < cap ==> n == vstd::utf8::encode_utf8(msg).len(),
{
    let b = vstd::utf8::encode_utf8(msg);
    vstd::utf8::encode_utf8_valid_utf8(msg);
    vstd::utf8::is_char_boundary_start_end_of_seq(b);
    vstd::utf8::valid_utf8_split(b, n);
}

/// The bytes of a notification for a buffer of `cap` bytes, `None` if there is no message or
/// no room at all.
pub fn nsc_take_notification<S: Source, O: Opener<S>>(
    registry: &mut Registry<S, O>,
    cap: usize,
) -> (r: Option<Vec<u8>>)
    requires
        old(registry).wf(),
    ensures
        final(registry).wf(),
        final(registry).same_frame(old(registry)),
        final(registry).covers == old(registry).covers,
        final(registry).next_id == old(registry).next_id,
        if cap == 0 || old(registry).notifier@.1.len() == 0 {
            r is None && final(registry).notifier@ == old(registry).notifier@
        } else {
            let bytes = vstd::utf8::encode_utf8(old(registry).notifier@.1.first());
            &&& final(registry).notifier@ == (
                old(registry).notifier@.0,
                old(registry).notifier@.1.drop_first(),
            )
            &&& r matches Some(b) && is_cut(bytes, cap, b@.len() as int) && b@ == bytes.subrange(
                0,
                b@.len() as int,
            )
        },
{
    if cap == 0 {
        return None;
    }
    match registry.notifier.pop() {
        Some(msg) => {
            let text = msg.as_str();
            let n: usize = message_len(text, cap);
            Some(
                vstd::slice::slice_to_vec(vstd::slice::slice_subrange(text.as_bytes(), 0, n)),
            )
        },
        None => None,
    }
}

/// A rectangle of another plugin, as it is drawn. Coordinates are the bits of doubles.
#[derive(Debug, Clone, Copy, PartialEq, Eq, Structural)]
pub struct NscExtraRect {
    pub x: u64,
    pub y: u64,
    pub w: u64,
    pub h: u64,
    pub rounding: u64,
    /// Address of the window with whose cover it is filled, 0 for none.
    pub window: u64,
    /// 0 black, 1 the cover of the window.
    pub fill: u32,
}

/// A rectangle as it is drawn.
pub open spec fn sent(r: crate::extra::CoverRect) -> NscExtraRect {
    NscExtraRect {
        x: r.x,
        y: r.y,
        w: r.w,
        h: r.h,
        rounding: r.rounding,
        window: r.window,
        fill: r.fill.number(),
    }
}

/// The first `cap` rectangles of a monitor, and how many there are.
pub fn nsc_extra_rects(clients: &Clients, monitor: i64, cap: usize) -> (r: (
    Vec<NscExtraRect>,
    usize,
))
    ensures
        ({
            let all = crate::extra::all_on(clients.list@, monitor);
            &&& r.1 == all.len()
            &&& r.0@.len() == (if all.len() <= cap {
                all.len() as int
            } else {
                cap as int
            })
            &&& forall|i: int| 0 <= i < r.0@.len() ==> #[trigger] r.0@[i] == sent(all[i])
        }),
{
    let rects = for_monitor(clients, monitor);
    let total: usize = rects.len();
    let n: usize = if total <= cap {
        total
    } else {
        cap
    };
    let mut out: Vec<NscExtraRect> = Vec::new();
    let mut i: usize = 0;
    while i < n
        invariant
            i <= n,
            n <= rects@.len(),
            out@.len() == i,
            forall|j: int| 0 <= j < i ==> #[trigger] out@[j] == sent(rects@[j]),
        decreases n - i,
    {
        let r = rects[i];
        out.push(
            NscExtraRect {
                x: r.x,
                y: r.y,
                w: r.w,
                h: r.h,
                rounding: r.rounding,
                window: r.window,
                fill: r.fill.code(),
            },
        );
        i += 1;
    }
    (out, total)
}

} // verus!
