//! GIF with correct frame compositing (disposal Keep, Background, Previous). Frames are
//! decoded once on open, and the canvas is built step by step: going forward adds frames,
//! going back (loop) starts over.

use crate::clock::{Nanos, PlaybackClock};
use crate::frame::{CpuFrame, Frame, FrameData};
use crate::media::gif_file::{
    bg_color, global_palette, read_info, read_next_frame, screen_height, screen_width, RawFrame,
};
use crate::media::{ms, open_err, MediaError};
use std::sync::Arc;
use vstd::arithmetic::div_mod::lemma_fundamental_div_mod;
use vstd::arithmetic::div_mod::lemma_fundamental_div_mod_converse;
use vstd::arithmetic::mul::lemma_mul_inequality;
use vstd::prelude::*;

verus! {

/// What becomes of a frame before the next one is drawn.
#[derive(Debug, Clone, Copy, PartialEq, Eq, Structural)]
pub enum Disposal {
    /// nothing was asked for
    Any,
    /// it stays
    Keep,
    /// its rectangle goes back to the background
    Background,
    /// the canvas goes back to what it was before the frame
    Previous,
}

/// One frame of the animation.
pub struct GifFrame {
    pub delay: Nanos,
    pub dispose: Disposal,
    pub left: u32,
    pub top: u32,
    pub width: u32,
    pub height: u32,
    /// Frame RGBA; transparent pixels have alpha 0.
    pub rgba: Vec<u8>,
}

impl GifFrame {
    /// The pixels are all there, and the frame lies where a GIF can put it.
    pub open spec fn wf(&self) -> bool {
        &&& self.rgba@.len() == 4 * self.width * self.height
        &&& self.left <= 0xffff
        &&& self.top <= 0xffff
        &&& self.width <= 0xffff
        &&& self.height <= 0xffff
        &&& 0 < self.delay <= 1_000_000_000_000
    }

    /// The pixel of the canvas in column `x` of row `y` lies under the frame.
    pub open spec fn covers(&self, x: int, y: int) -> bool {
        self.left <= x < self.left + self.width && self.top <= y < self.top + self.height
    }

    /// Where the frame's pixel for column `x` of row `y` of the canvas starts.
    pub open spec fn source(&self, x: int, y: int) -> int {
        4 * ((y - self.top) * self.width + (x - self.left))
    }

    /// The frame has an opaque pixel there.
    pub open spec fn draws(&self, x: int, y: int) -> bool {
        self.covers(x, y) && self.rgba@[self.source(x, y) + 3] != 0
    }
}

// ------------------------------------------------------------------ pictures

/// Where the pixel in column `x` of row `y` starts.
pub open spec fn offset(w: int, x: int, y: int) -> int {
    4 * (y * w + x)
}

/// Byte `k` of the pixel in column `x` of row `y`.
pub open spec fn byte_at(c: Seq<u8>, w: int, x: int, y: int, k: int) -> u8 {
    c[offset(w, x, y) + k]
}

/// The picture whose byte `k` in column `x` of row `y` is `f(x, y, k)`.
pub open spec fn picture(w: nat, h: nat, f: spec_fn(int, int, int) -> u8) -> Seq<u8> {
    Seq::new(
        (4 * w * h) as nat,
        |b: int| f((b / 4) % (w as int), (b / 4) / (w as int), b % 4),
    )
}

proof fn offset_bounds(w: nat, h: nat, x: int, y: int)
    requires
        0 <= x < w,
        0 <= y < h,
    ensures
        0 <= y * w,
        0 <= offset(w as int, x, y),
        offset(w as int, x, y) + 4 <= 4 * w * h,
{
    lemma_mul_inequality(y + 1, h as int, w as int);
    lemma_mul_inequality(0, y, w as int);
    assert((y + 1) * w == y * w + w) by (nonlinear_arith);
    assert(4 * w * h == 4 * (h * w)) by (nonlinear_arith);
}

/// Byte `k` in column `x` of row `y` of a picture.
pub proof fn picture_byte(w: nat, h: nat, f: spec_fn(int, int, int) -> u8, x: int, y: int, k: int)
    requires
        0 <= x < w,
        0 <= y < h,
        0 <= k < 4,
    ensures
        picture(w, h, f)[offset(w as int, x, y) + k] == f(x, y, k),
{
    offset_bounds(w, h, x, y);
    let b = offset(w as int, x, y) + k;
    assert(b / 4 == y * w + x);
    assert(b % 4 == k);
    lemma_fundamental_div_mod_converse(y * w + x, w as int, y, x);
}

/// A buffer that agrees with a picture in every pixel is that picture.
proof fn pixels_make_picture(c: Seq<u8>, w: nat, h: nat, f: spec_fn(int, int, int) -> u8)
    requires
        c.len() == 4 * w * h,
        forall|x: int, y: int, k: int|
            0 <= x < w && 0 <= y < h && 0 <= k < 4 ==> #[trigger] byte_at(c, w as int, x, y, k)
                == f(x, y, k),
    ensures
        c == picture(w, h, f),
{
    assert forall|b: int| 0 <= b < c.len() implies c[b] == picture(w, h, f)[b] by {
        let p = b / 4;
        if w == 0 {
            assert(4 * w * h == 0) by (nonlinear_arith)
                requires
                    w == 0,
            ;
        }
        let (y, x) = (p / w as int, p % w as int);
        lemma_fundamental_div_mod(p, w as int);
        assert(0 <= x < w);
        assert(4 * w * h == 4 * (h * w)) by (nonlinear_arith);
        assert(0 <= y < h) by (nonlinear_arith)
            requires
                p == w * y + x,
                0 <= x < w,
                0 <= p < h * w,
        ;
        assert(w * y == y * w) by (nonlinear_arith);
        assert(b == offset(w as int, x, y) + b % 4);
        assert(byte_at(c, w as int, x, y, b % 4) == f(x, y, b % 4));
    }
    assert(c =~= picture(w, h, f));
}

/// Two pixels do not overlap.
proof fn pixels_are_apart(w: nat, x: int, y: int, dx: int, dy: int)
    requires
        0 <= x < w,
        0 <= dx < w,
        (x, y) != (dx, dy),
    ensures
        offset(w as int, x, y) + 4 <= offset(w as int, dx, dy) || offset(w as int, dx, dy) + 4
            <= offset(w as int, x, y),
{
    if y < dy {
        lemma_mul_inequality(y + 1, dy, w as int);
        assert((y + 1) * w == y * w + w) by (nonlinear_arith);
    } else if dy < y {
        lemma_mul_inequality(dy + 1, y, w as int);
        assert((dy + 1) * w == dy * w + w) by (nonlinear_arith);
    }
}

/// A canvas of one colour.
pub open spec fn blank(w: nat, h: nat, bg: Seq<u8>) -> Seq<u8> {
    picture(w, h, |x: int, y: int, k: int| bg[k])
}

/// The canvas with the rectangle of the frame in one colour.
pub open spec fn erased(c: Seq<u8>, w: nat, h: nat, f: GifFrame, bg: Seq<u8>) -> Seq<u8> {
    picture(
        w,
        h,
        |x: int, y: int, k: int|
            if f.covers(x, y) {
                bg[k]
            } else {
                byte_at(c, w as int, x, y, k)
            },
    )
}

/// Blue, green, red and full opacity of the frame's pixel for column `x` of row `y`.
pub open spec fn drawn_byte(f: GifFrame, x: int, y: int, k: int) -> u8 {
    if k == 3 {
        255
    } else {
        f.rgba@[f.source(x, y) + 2 - k]
    }
}

/// The canvas with the opaque pixels of the frame drawn over it.
pub open spec fn drawn(c: Seq<u8>, w: nat, h: nat, f: GifFrame) -> Seq<u8> {
    picture(
        w,
        h,
        |x: int, y: int, k: int|
            if f.draws(x, y) {
                drawn_byte(f, x, y, k)
            } else {
                byte_at(c, w as int, x, y, k)
            },
    )
}

/// Writes one pixel.
fn put(c: &mut Vec<u8>, at: usize, px: [u8; 4])
    requires
        at + 4 <= old(c)@.len(),
    ensures
        final(c)@.len() == old(c)@.len(),
        forall|i: int|
            0 <= i < old(c)@.len() ==> #[trigger] final(c)@[i] == (if at <= i < at + 4 {
                px@[i - at]
            } else {
                old(c)@[i]
            }),
{
    let n: usize = c.len();
    assert(n == c@.len());
    c.set(at, px[0]);
    c.set(at + 1, px[1]);
    c.set(at + 2, px[2]);
    c.set(at + 3, px[3]);
}

/// What is known of a canvas while the pixels before column `cx` of row `cy` are done.
spec fn partly(
    now: Seq<u8>,
    old_c: Seq<u8>,
    w: nat,
    h: nat,
    cx: int,
    cy: int,
    f: spec_fn(int, int, int) -> u8,
) -> bool {
    &&& now.len() == 4 * w * h
    &&& forall|x: int, y: int, k: int|
        0 <= x < w && 0 <= y < h && 0 <= k < 4 ==> #[trigger] byte_at(now, w as int, x, y, k) == (
        if y < cy || (y == cy && x < cx) {
            f(x, y, k)
        } else {
            byte_at(old_c, w as int, x, y, k)
        })
}

/// Moves over one pixel that was written or left as it was.
proof fn one_pixel_more(
    before: Seq<u8>,
    now: Seq<u8>,
    old_c: Seq<u8>,
    w: nat,
    h: nat,
    cx: int,
    cy: int,
    f: spec_fn(int, int, int) -> u8,
)
    requires
        partly(before, old_c, w, h, cx, cy, f),
        0 <= cx < w,
        0 <= cy < h,
        now.len() == before.len(),
        forall|i: int|
            0 <= i < now.len() && !(offset(w as int, cx, cy) <= i < offset(w as int, cx, cy) + 4)
                ==> now[i] == before[i],
        forall|k: int| 0 <= k < 4 ==> #[trigger] byte_at(now, w as int, cx, cy, k) == f(cx, cy, k),
    ensures
        partly(now, old_c, w, h, cx + 1, cy, f),
{
    assert forall|x: int, y: int, k: int| 0 <= x < w && 0 <= y < h && 0 <= k < 4 implies #[trigger] byte_at(
        now,
        w as int,
        x,
        y,
        k,
    ) == (if y < cy || (y == cy && x < cx + 1) {
        f(x, y, k)
    } else {
        byte_at(old_c, w as int, x, y, k)
    }) by {
        offset_bounds(w, h, x, y);
        if (x, y) != (cx, cy) {
            pixels_are_apart(w, x, y, cx, cy);
            assert(byte_at(now, w as int, x, y, k) == byte_at(before, w as int, x, y, k));
        }
    }
}

/// Moves over pixels that stay as they are: `f` leaves everything between column `cx` of row
/// `cy` and column `nx` of row `ny` alone.
proof fn untouched_until(
    now: Seq<u8>,
    old_c: Seq<u8>,
    w: nat,
    h: nat,
    cx: int,
    cy: int,
    nx: int,
    ny: int,
    f: spec_fn(int, int, int) -> u8,
)
    requires
        partly(now, old_c, w, h, cx, cy, f),
        forall|x: int, y: int, k: int|
            0 <= x < w && 0 <= y < h && 0 <= k < 4 && !(y < cy || (y == cy && x < cx)) && (y < ny
                || (y == ny && x < nx)) ==> f(x, y, k) == #[trigger] byte_at(
                old_c,
                w as int,
                x,
                y,
                k,
            ),
        cy < ny || (cy == ny && cx <= nx),
    ensures
        partly(now, old_c, w, h, nx, ny, f),
{
    assert forall|x: int, y: int, k: int| 0 <= x < w && 0 <= y < h && 0 <= k < 4 implies #[trigger] byte_at(
        now,
        w as int,
        x,
        y,
        k,
    ) == (if y < ny || (y == ny && x < nx) {
        f(x, y, k)
    } else {
        byte_at(old_c, w as int, x, y, k)
    }) by {
        let v = byte_at(old_c, w as int, x, y, k);
    }
}

/// Brings the rectangle of a frame back to the background.
fn fill_rect(c: &mut Vec<u8>, w: u32, h: u32, f: &GifFrame, bg: [u8; 4])
    requires
        f.wf(),
        old(c)@.len() == 4 * w * h,
    ensures
        final(c)@ == erased(old(c)@, w as nat, h as nat, *f, bg@),
{
    let n: usize = c.len();
    let ghost old_c = c@;
    let ghost (wn, hn) = (w as nat, h as nat);
    let ghost func = |x: int, y: int, k: int|
        if f.covers(x, y) {
            bg@[k]
        } else {
            byte_at(old_c, wn as int, x, y, k)
        };
    let x0: u32 = f.left;
    let x1: u32 = if f.left + f.width < w {
        f.left + f.width
    } else {
        w
    };
    let y1: u32 = if f.top + f.height < h {
        f.top + f.height
    } else {
        h
    };
    let mut y: u32 = f.top;
    proof {
        assert(partly(c@, old_c, wn, hn, 0, 0, func));
        untouched_until(c@, old_c, wn, hn, 0, 0, 0, y as int, func);
    }
    while y < y1
        invariant
            f.wf(),
            n == c@.len(),
            n == 4 * w * h,
            (wn, hn) == (w as nat, h as nat),
            x0 == f.left,
            x1 == (if f.left + f.width < w {
                f.left + f.width
            } else {
                w as int
            }),
            y1 == (if f.top + f.height < h {
                f.top + f.height
            } else {
                h as int
            }),
            f.top <= y,
            y <= y1 || y == f.top,
            func == (|x: int, y: int, k: int|
                if f.covers(x, y) {
                    bg@[k]
                } else {
                    byte_at(old_c, wn as int, x, y, k)
                }),
            partly(c@, old_c, wn, hn, 0, y as int, func),
        decreases y1 - y,
    {
        let mut x: u32 = x0;
        proof {
            untouched_until(c@, old_c, wn, hn, 0, y as int, x as int, y as int, func);
        }
        while x < x1
            invariant
                f.wf(),
                n == c@.len(),
                n == 4 * w * h,
                (wn, hn) == (w as nat, h as nat),
                x0 == f.left,
                x1 == (if f.left + f.width < w {
                    f.left + f.width
                } else {
                    w as int
                }),
                y1 <= h,
                f.top <= y < y1,
                y1 <= f.top + f.height,
                x0 <= x,
                x <= x1 || x == x0,
                func == (|x: int, y: int, k: int|
                    if f.covers(x, y) {
                        bg@[k]
                    } else {
                        byte_at(old_c, wn as int, x, y, k)
                    }),
                partly(c@, old_c, wn, hn, x as int, y as int, func),
            decreases x1 - x,
        {
            proof {
                offset_bounds(wn, hn, x as int, y as int);
            }
            let ghost before = c@;
            let at: usize = 4 * (y as usize * w as usize + x as usize);
            put(c, at, bg);
            proof {
                one_pixel_more(before, c@, old_c, wn, hn, x as int, y as int, func);
            }
            x += 1;
        }
        proof {
            untouched_until(c@, old_c, wn, hn, x as int, y as int, 0, y + 1, func);
        }
        y += 1;
    }
    proof {
        untouched_until(c@, old_c, wn, hn, 0, y as int, 0, y + h, func);
        assert(erased(old_c, wn, hn, *f, bg@) == picture(wn, hn, func));
        pixels_make_picture(c@, wn, hn, func);
    }
}

/// Draws the opaque pixels of a frame.
fn blit(c: &mut Vec<u8>, w: u32, h: u32, f: &GifFrame)
    requires
        f.wf(),
        old(c)@.len() == 4 * w * h,
    ensures
        final(c)@ == drawn(old(c)@, w as nat, h as nat, *f),
{
    let n: usize = c.len();
    let m: usize = f.rgba.len();
    let ghost old_c = c@;
    let ghost (wn, hn) = (w as nat, h as nat);
    let ghost func = |x: int, y: int, k: int|
        if f.draws(x, y) {
            drawn_byte(*f, x, y, k)
        } else {
            byte_at(old_c, wn as int, x, y, k)
        };
    let x1: u32 = if f.left + f.width < w {
        f.left + f.width
    } else {
        w
    };
    let y1: u32 = if f.top + f.height < h {
        f.top + f.height
    } else {
        h
    };
    let mut y: u32 = f.top;
    proof {
        assert(partly(c@, old_c, wn, hn, 0, 0, func));
        untouched_until(c@, old_c, wn, hn, 0, 0, 0, y as int, func);
    }
    while y < y1
        invariant
            f.wf(),
            n == c@.len(),
            n == 4 * w * h,
            m == f.rgba@.len(),
            (wn, hn) == (w as nat, h as nat),
            x1 == (if f.left + f.width < w {
                f.left + f.width
            } else {
                w as int
            }),
            y1 == (if f.top + f.height < h {
                f.top + f.height
            } else {
                h as int
            }),
            f.top <= y,
            y <= y1 || y == f.top,
            func == (|x: int, y: int, k: int|
                if f.draws(x, y) {
                    drawn_byte(*f, x, y, k)
                } else {
                    byte_at(old_c, wn as int, x, y, k)
                }),
            partly(c@, old_c, wn, hn, 0, y as int, func),
        decreases y1 - y,
    {
        let mut x: u32 = f.left;
        proof {
            untouched_until(c@, old_c, wn, hn, 0, y as int, x as int, y as int, func);
        }
        while x < x1
            invariant
                f.wf(),
                n == c@.len(),
                n == 4 * w * h,
                m == f.rgba@.len(),
                (wn, hn) == (w as nat, h as nat),
                x1 == (if f.left + f.width < w {
                    f.left + f.width
                } else {
                    w as int
                }),
                y1 <= h,
                f.top <= y < y1,
                y1 <= f.top + f.height,
                f.left <= x,
                x <= x1 || x == f.left,
                func == (|x: int, y: int, k: int|
                    if f.draws(x, y) {
                        drawn_byte(*f, x, y, k)
                    } else {
                        byte_at(old_c, wn as int, x, y, k)
                    }),
                partly(c@, old_c, wn, hn, x as int, y as int, func),
            decreases x1 - x,
        {
            let (sx, sy) = (x - f.left, y - f.top);
            proof {
                offset_bounds(wn, hn, x as int, y as int);
                offset_bounds(f.width as nat, f.height as nat, sx as int, sy as int);
            }
            let ghost before = c@;
            let s: usize = 4 * (sy as usize * f.width as usize + sx as usize);
            assert(s == f.source(x as int, y as int));
            if f.rgba[s + 3] != 0 {
                let at: usize = 4 * (y as usize * w as usize + x as usize);
                put(c, at, [f.rgba[s + 2], f.rgba[s + 1], f.rgba[s], 255]);
                proof {
                    one_pixel_more(before, c@, old_c, wn, hn, x as int, y as int, func);
                }
            } else {
                proof {
                    untouched_until(
                        c@,
                        old_c,
                        wn,
                        hn,
                        x as int,
                        y as int,
                        x + 1,
                        y as int,
                        func,
                    );
                }
            }
            x += 1;
        }
        proof {
            untouched_until(c@, old_c, wn, hn, x as int, y as int, 0, y + 1, func);
        }
        y += 1;
    }
    proof {
        untouched_until(c@, old_c, wn, hn, 0, y as int, 0, y + h, func);
        assert(drawn(old_c, wn, hn, *f) == picture(wn, hn, func));
        pixels_make_picture(c@, wn, hn, func);
    }
}

// ------------------------------------------------------------------ compositing

/// A canvas, and the copy that is kept while a frame with disposal Previous is shown.
pub type Canvas = (Seq<u8>, Option<Seq<u8>>);

/// The canvas once the shown frame was disposed of.
pub open spec fn disposed(c: Canvas, w: nat, h: nat, f: GifFrame, bg: Seq<u8>) -> Canvas {
    match f.dispose {
        Disposal::Background => (erased(c.0, w, h, f, bg), c.1),
        Disposal::Previous => (
            match c.1 {
                Some(b) => b,
                None => c.0,
            },
            None,
        ),
        _ => c,
    }
}

/// The canvas with the next frame on it.
pub open spec fn added(c: Canvas, w: nat, h: nat, f: GifFrame) -> Canvas {
    (
        drawn(c.0, w, h, f),
        if f.dispose == Disposal::Previous {
            Some(c.0)
        } else {
            c.1
        },
    )
}

/// The canvas after the first `n` frames, each composited over what the one before it left.
pub open spec fn composed(frames: Seq<GifFrame>, w: nat, h: nat, bg: Seq<u8>, n: nat) -> Canvas
    decreases n,
{
    if n == 0 {
        (blank(w, h, bg), None)
    } else if n == 1 {
        added(composed(frames, w, h, bg, 0), w, h, frames[0])
    } else {
        added(
            disposed(composed(frames, w, h, bg, (n - 1) as nat), w, h, frames[n - 2], bg),
            w,
            h,
            frames[n - 1],
        )
    }
}

/// The time that the first `n` frames take.
pub open spec fn time_of(frames: Seq<GifFrame>, n: nat) -> nat
    decreases n,
{
    if n == 0 {
        0
    } else {
        time_of(frames, (n - 1) as nat) + frames[n - 1].delay as nat
    }
}

/// Frame `i` is the one visible at position `pos`: the last one that has begun.
pub open spec fn visible_at(frames: Seq<GifFrame>, pos: int, i: int) -> bool {
    &&& 0 <= i < frames.len()
    &&& time_of(frames, i as nat) <= pos || i == 0
    &&& pos < time_of(frames, (i + 1) as nat) || i == frames.len() - 1
}

proof fn time_grows(frames: Seq<GifFrame>, a: nat, b: nat)
    requires
        a < b <= frames.len(),
        forall|i: int| 0 <= i < frames.len() ==> (#[trigger] frames[i]).wf(),
    ensures
        time_of(frames, a) < time_of(frames, b),
    decreases b,
{
    assert(frames[b - 1].wf());
    if a < b - 1 {
        time_grows(frames, a, (b - 1) as nat);
    }
}

/// Exactly one frame is visible at a time.
pub proof fn one_frame_is_visible(frames: Seq<GifFrame>, pos: int, i: int, j: int)
    requires
        forall|i: int| 0 <= i < frames.len() ==> (#[trigger] frames[i]).wf(),
        visible_at(frames, pos, i),
        visible_at(frames, pos, j),
        pos >= 0,
    ensures
        i == j,
{
    if i < j {
        if i + 1 < j {
            time_grows(frames, (i + 1) as nat, j as nat);
        }
    } else if j < i {
        if j + 1 < i {
            time_grows(frames, (j + 1) as nat, i as nat);
        }
    }
}

/// A frame that is kept stays wherever the next one draws nothing.
pub proof fn kept_frames_show_through(
    c: Canvas,
    w: nat,
    h: nat,
    f: GifFrame,
    next: GifFrame,
    bg: Seq<u8>,
    x: int,
    y: int,
    k: int,
)
    requires
        f.dispose == Disposal::Keep || f.dispose == Disposal::Any,
        0 <= x < w,
        0 <= y < h,
        0 <= k < 4,
        !next.draws(x, y),
    ensures
        byte_at(added(disposed(c, w, h, f, bg), w, h, next).0, w as int, x, y, k) == byte_at(
            c.0,
            w as int,
            x,
            y,
            k,
        ),
{
    picture_byte(
        w,
        h,
        |x: int, y: int, k: int|
            if next.draws(x, y) {
                drawn_byte(next, x, y, k)
            } else {
                byte_at(c.0, w as int, x, y, k)
            },
        x,
        y,
        k,
    );
}

/// A frame that goes back to the background leaves its whole rectangle in that colour, and
/// nothing else changes.
pub proof fn background_clears_the_rectangle(
    c: Canvas,
    w: nat,
    h: nat,
    f: GifFrame,
    bg: Seq<u8>,
    x: int,
    y: int,
    k: int,
)
    requires
        f.dispose == Disposal::Background,
        0 <= x < w,
        0 <= y < h,
        0 <= k < 4,
    ensures
        byte_at(disposed(c, w, h, f, bg).0, w as int, x, y, k) == (if f.covers(x, y) {
            bg[k]
        } else {
            byte_at(c.0, w as int, x, y, k)
        }),
{
    picture_byte(
        w,
        h,
        |x: int, y: int, k: int|
            if f.covers(x, y) {
                bg[k]
            } else {
                byte_at(c.0, w as int, x, y, k)
            },
        x,
        y,
        k,
    );
}

/// A frame that goes back to the previous picture leaves no trace.
pub proof fn previous_leaves_no_trace(c: Canvas, w: nat, h: nat, f: GifFrame, bg: Seq<u8>)
    requires
        f.dispose == Disposal::Previous,
    ensures
        disposed(added(c, w, h, f), w, h, f, bg) == (c.0, None::<Seq<u8>>),
{
}

/// An animated GIF.
pub struct GifSource {
    pub width: u32,
    pub height: u32,
    /// Background colour in BGRA, as on the canvas.
    pub bg: [u8; 4],
    pub frames: Vec<GifFrame>,
    pub total: Nanos,
    pub canvas: Vec<u8>,
    pub backup: Option<Vec<u8>>,
    /// Index of the last composited frame; `None` means a clean canvas.
    pub shown: Option<usize>,
    pub clock: PlaybackClock,
    pub generation: u64,
    pub sent: Option<usize>,
}

/// What a disposal code of the file means.
pub open spec fn disposal_of(code: u8) -> Disposal {
    if code == 1 {
        Disposal::Keep
    } else if code == 2 {
        Disposal::Background
    } else if code == 3 {
        Disposal::Previous
    } else {
        Disposal::Any
    }
}

/// The time that a frame is shown. The file counts in hundredths of a second; 0 and 1 mean
/// ten of them.
pub open spec fn shown_for(delay: u16) -> nat {
    if delay <= 1 {
        100_000_000
    } else {
        delay as nat * 10_000_000
    }
}

impl GifFrame {
    /// The frame is the one that the file holds.
    pub open spec fn is_of(&self, raw: (u16, u8, (u16, u16), (u16, u16), Seq<u8>)) -> bool {
        &&& self.delay == shown_for(raw.0)
        &&& self.dispose == disposal_of(raw.1)
        &&& self.left == raw.2.0
        &&& self.top == raw.2.1
        &&& self.width == raw.3.0
        &&& self.height == raw.3.1
        &&& self.rgba@ == raw.4
    }

    /// The frame that the file holds.
    pub fn from_raw(raw: RawFrame) -> (f: GifFrame)
        requires
            raw.rgba@.len() == 4 * raw.width * raw.height,
        ensures
            f.is_of(raw@),
            f.wf(),
    {
        let cs: u64 = if raw.delay <= 1 {
            10
        } else {
            raw.delay as u64
        };
        let dispose = if raw.dispose == 1 {
            Disposal::Keep
        } else if raw.dispose == 2 {
            Disposal::Background
        } else if raw.dispose == 3 {
            Disposal::Previous
        } else {
            Disposal::Any
        };
        GifFrame {
            delay: ms(cs * 10),
            dispose,
            left: raw.left as u32,
            top: raw.top as u32,
            width: raw.width as u32,
            height: raw.height as u32,
            rgba: raw.rgba,
        }
    }
}

/// The background colour as the canvas holds it: the entry of the colour table, opaque. It is
/// transparent if there is no such entry.
pub open spec fn background_of(index: Option<usize>, palette: Option<Seq<u8>>) -> Seq<u8> {
    match (index, palette) {
        (Some(i), Some(p)) if i * 3 + 2 < p.len() => seq![
            p[i * 3 + 2],
            p[i * 3 + 1],
            p[i * 3],
            255u8,
        ],
        _ => seq![0u8, 0u8, 0u8, 0u8],
    }
}

/// The background colour as the canvas holds it.
pub fn background(index: Option<usize>, palette: &Option<Vec<u8>>) -> (r: [u8; 4])
    ensures
        r@ == background_of(
            index,
            match palette {
                Some(p) => Some(p@),
                None => None,
            },
        ),
{
    if let (Some(i), Some(p)) = (index, palette) {
        let n: usize = p.len();
        if n >= 3 && i <= (n - 3) / 3 {
            let px: [u8; 4] = [p[i * 3 + 2], p[i * 3 + 1], p[i * 3], 255];
            assert(px@ =~= seq![p@[i * 3 + 2], p@[i * 3 + 1], p@[i * 3 as int], 255u8]);
            return px;
        }
    }
    let px: [u8; 4] = [0, 0, 0, 0];
    assert(px@ =~= seq![0u8, 0u8, 0u8, 0u8]);
    px
}

/// The first `n` reads of the file gave frames.
pub open spec fn frames_until(b: Seq<u8>, n: nat) -> bool {
    forall|i: nat|
        i < n ==> (#[trigger] crate::media::gif_file::frame(b, i) matches Ok(f) && f is Some)
}

/// The frames are the first ones of the file.
pub open spec fn frames_are(frames: Seq<GifFrame>, b: Seq<u8>) -> bool {
    forall|i: int|
        0 <= i < frames.len() ==> (crate::media::gif_file::frame(b, i as nat) matches Ok(Some(raw))
            && (#[trigger] frames[i]).is_of(raw))
}

/// The width of the screen, from the header of the file.
pub open spec fn width_of(b: Seq<u8>) -> u16 {
    crate::media::gif_file::le16(b, 6)
}

/// The height of the screen, from the header of the file.
pub open spec fn height_of(b: Seq<u8>) -> u16 {
    crate::media::gif_file::le16(b, 8)
}

impl GifSource {
    /// A new animation of these frames: nothing is shown yet.
    pub open spec fn is_new(
        &self,
        width: u16,
        height: u16,
        bg: Seq<u8>,
        frames: Seq<GifFrame>,
        speed: u64,
        looped: bool,
    ) -> bool {
        &&& self.wf()
        &&& self.width == width
        &&& self.height == height
        &&& self.bg@ == bg
        &&& self.frames@ == frames
        &&& self.shown is None
        &&& self.sent is None
        &&& self.generation == 0
        &&& self.clock.started is None
        &&& self.clock.speed == crate::config::sane_speed(speed)
        &&& self.clock.looped == looped
    }

    /// An animation of the frames that were read from the file `path`. `speed` is the bits of
    /// the playback speed.
    pub fn from_frames(
        path: &str,
        width: u16,
        height: u16,
        bg: [u8; 4],
        frames: Vec<GifFrame>,
        speed: u64,
        looped: bool,
    ) -> (r: Result<GifSource, MediaError>)
        requires
            forall|i: int| 0 <= i < frames@.len() ==> (#[trigger] frames@[i]).wf(),
            4 * width * height <= usize::MAX,
        ensures
            match r {
                Ok(s) => width > 0 && height > 0 && frames@.len() > 0 && s.is_new(
                    width,
                    height,
                    bg@,
                    frames@,
                    speed,
                    looped,
                ),
                Err(e) => if width == 0 || height == 0 {
                    e.is_open(path@, "empty GIF"@)
                } else {
                    frames@.len() == 0 && e.is_open(path@, "GIF has no frames"@)
                },
            },
    {
        if width == 0 || height == 0 {
            return Err(open_err(path, "empty GIF"));
        }
        if frames.len() == 0 {
            return Err(open_err(path, "GIF has no frames"));
        }
        let mut total: Nanos = 0;
        let mut i: usize = 0;
        while i < frames.len()
            invariant
                i <= frames@.len(),
                forall|i: int| 0 <= i < frames@.len() ==> (#[trigger] frames@[i]).wf(),
                total == time_of(frames@, i as nat),
                total <= i * 1_000_000_000_000,
            decreases frames@.len() - i,
        {
            assert(frames@[i as int].wf());
            total = total + frames[i].delay;
            i += 1;
        }
        let mut s = GifSource {
            width: width as u32,
            height: height as u32,
            bg,
            frames,
            total,
            canvas: Vec::new(),
            backup: None,
            shown: None,
            clock: PlaybackClock::new(speed, looped),
            generation: 0,
            sent: None,
        };
        s.clear_canvas();
        Ok(s)
    }

    /// Opens the file `path`, which holds `bytes`. `speed` is the bits of the playback speed.
    pub fn open(path: &str, bytes: Vec<u8>, speed: u64, looped: bool) -> (r: Result<
        GifSource,
        MediaError,
    >)
        requires
            bytes@.len() >= 13 ==> 4 * width_of(bytes@) * height_of(bytes@) <= usize::MAX,
        ensures
            match crate::media::gif_file::header(bytes@) {
                Err(why) => r matches Err(e) && e.is_open(path@, why),
                Ok(_) => if width_of(bytes@) == 0 || height_of(bytes@) == 0 {
                    r matches Err(e) && e.is_open(path@, "empty GIF"@)
                } else {
                    exists|n: nat| #[trigger]
                        frames_until(bytes@, n) && match crate::media::gif_file::frame(bytes@, n) {
                            Err(why) => r matches Err(e) && e.is_open(path@, why),
                            Ok(Some(_)) => false,
                            Ok(None) => if n == 0 {
                                r matches Err(e) && e.is_open(path@, "GIF has no frames"@)
                            } else {
                                r matches Ok(s) && s.frames@.len() == n && frames_are(
                                    s.frames@,
                                    bytes@,
                                ) && s.is_new(
                                    width_of(bytes@),
                                    height_of(bytes@),
                                    background_of(
                                        crate::media::gif_file::background_index(bytes@),
                                        crate::media::gif_file::table(bytes@),
                                    ),
                                    s.frames@,
                                    speed,
                                    looped,
                                )
                            },
                        }
                },
            },
    {
        let ghost b = bytes@;
        let mut dec = match read_info(bytes) {
            Ok(d) => d,
            Err(why) => {
                return Err(open_err(path, why.as_str()));
            },
        };
        let width: u16 = screen_width(&dec);
        let height: u16 = screen_height(&dec);
        if width == 0 || height == 0 {
            return Err(open_err(path, "empty GIF"));
        }
        let bg: [u8; 4] = background(bg_color(&dec), &global_palette(&dec));
        let mut frames: Vec<GifFrame> = Vec::new();
        loop
            invariant
                b == bytes@,
                crate::media::gif_file::input(dec) == b,
                crate::media::gif_file::header(b) is Ok,
                width == width_of(b),
                height == height_of(b),
                width > 0,
                height > 0,
                4 * width * height <= usize::MAX,
                bg@ == background_of(
                    crate::media::gif_file::background_index(b),
                    crate::media::gif_file::table(b),
                ),
                crate::media::gif_file::taken(dec) == frames@.len(),
                frames@.len() <= b.len(),
                frames_until(b, frames@.len()),
                frames_are(frames@, b),
                forall|i: int| 0 <= i < frames@.len() ==> (#[trigger] frames@[i]).wf(),
            decreases b.len() - frames@.len(),
        {
            match read_next_frame(&mut dec) {
                Ok(Some(raw)) => {
                    frames.push(GifFrame::from_raw(raw));
                },
                Ok(None) => {
                    return GifSource::from_frames(path, width, height, bg, frames, speed, looped);
                },
                Err(why) => {
                    return Err(open_err(path, why.as_str()));
                },
            }
        }
    }

    /// The picture size is one that a GIF can have, and every frame is in order.
    pub open spec fn frames_wf(&self) -> bool {
        &&& 0 < self.width <= 0xffff
        &&& 0 < self.height <= 0xffff
        &&& self.frames@.len() > 0
        &&& forall|i: int| 0 <= i < self.frames@.len() ==> (#[trigger] self.frames@[i]).wf()
        &&& self.total == time_of(self.frames@, self.frames@.len())
        &&& 4 * self.width * self.height <= usize::MAX
    }

    /// How many frames are composited on the canvas.
    pub open spec fn count(&self) -> nat {
        match self.shown {
            Some(i) => (i + 1) as nat,
            None => 0,
        }
    }

    /// The canvas and its copy.
    pub open spec fn state(&self) -> Canvas {
        (
            self.canvas@,
            match self.backup {
                Some(b) => Some(b@),
                None => None,
            },
        )
    }

    /// What the canvas holds after the first `n` frames.
    pub open spec fn after(&self, n: nat) -> Canvas {
        composed(self.frames@, self.width as nat, self.height as nat, self.bg@, n)
    }

    /// The canvas is what the frames up to the shown one composite to.
    pub open spec fn wf(&self) -> bool {
        &&& self.frames_wf()
        &&& self.shown matches Some(i) ==> i < self.frames@.len()
        &&& self.sent matches Some(i) ==> i < self.frames@.len()
        &&& self.state() == self.after(self.count())
    }

    /// Everything but the canvas is the same.
    pub open spec fn same_animation(&self, other: &GifSource) -> bool {
        &&& self.width == other.width
        &&& self.height == other.height
        &&& self.bg == other.bg
        &&& self.frames == other.frames
        &&& self.total == other.total
    }

    /// Brings the canvas back to the background.
    pub fn clear_canvas(&mut self)
        requires
            old(self).frames_wf(),
            old(self).sent matches Some(i) ==> i < old(self).frames@.len(),
        ensures
            final(self).wf(),
            final(self).shown is None,
            final(self).same_animation(old(self)),
            final(self).clock == old(self).clock,
            final(self).generation == old(self).generation,
            final(self).sent == old(self).sent,
    {
        assert(4 * self.width * self.height == 4 * (self.width * self.height)
            && self.width * self.height >= 0) by (nonlinear_arith)
            requires
                self.width >= 0,
                self.height >= 0,
        ;
        let px: usize = self.width as usize * self.height as usize;
        let bg: [u8; 4] = self.bg;
        let mut c: Vec<u8> = Vec::with_capacity(4 * px);
        let mut i: usize = 0;
        while i < px
            invariant
                i <= px,
                c@.len() == 4 * i,
                forall|b: int| 0 <= b < c@.len() ==> #[trigger] c@[b] == bg@[b % 4],
            decreases px - i,
        {
            c.push(bg[0]);
            c.push(bg[1]);
            c.push(bg[2]);
            c.push(bg[3]);
            i += 1;
        }
        self.canvas = c;
        self.shown = None;
        self.backup = None;
        assert(self.canvas@ =~= blank(self.width as nat, self.height as nat, self.bg@));
    }

    /// Which frame is visible at position `pos`.
    pub fn frame_at(&self, pos: Nanos) -> (r: usize)
        requires
            self.frames_wf(),
        ensures
            visible_at(self.frames@, pos as int, r as int),
    {
        let mut acc: Nanos = 0;
        let mut i: usize = 0;
        while i < self.frames.len()
            invariant
                self.frames_wf(),
                i <= self.frames@.len(),
                acc == time_of(self.frames@, i as nat),
                acc <= i * 1_000_000_000_000,
                acc <= pos,
            decreases self.frames@.len() - i,
        {
            assert(self.frames@[i as int].wf());
            acc = acc + self.frames[i].delay;
            if pos < acc {
                return i;
            }
            i += 1;
        }
        self.frames.len() - 1
    }

    /// Disposes of the shown frame and composites the next one; at the last frame nothing
    /// happens.
    pub fn step(&mut self)
        requires
            old(self).wf(),
        ensures
            final(self).wf(),
            final(self).same_animation(old(self)),
            final(self).clock == old(self).clock,
            final(self).generation == old(self).generation,
            final(self).sent == old(self).sent,
            old(self).count() < old(self).frames@.len() ==> final(self).count() == old(self).count()
                + 1,
            old(self).count() >= old(self).frames@.len() ==> *final(self) == *old(self),
    {
        let count: usize = self.frames.len();
        let next: usize = match self.shown {
            Some(i) => i + 1,
            None => 0,
        };
        if next >= count {
            return ;
        }
        let ghost (w, h) = (self.width as nat, self.height as nat);
        proof {
            composed_len(self.frames@, w, h, self.bg@, self.count());
        }
        assert(self.frames@[next as int].wf());
        if let Some(prev) = self.shown {
            assert(self.frames@[prev as int].wf());
            let ghost before = self.state();
            match self.frames[prev].dispose {
                Disposal::Background => {
                    fill_rect(
                        &mut self.canvas,
                        self.width,
                        self.height,
                        &self.frames[prev],
                        self.bg,
                    );
                },
                Disposal::Previous => {
                    if let Some(b) = self.backup.take() {
                        self.canvas = b;
                    }
                },
                Disposal::Keep | Disposal::Any => {},
            }
            assert(self.state() == disposed(before, w, h, self.frames@[prev as int], self.bg@));
        }
        if self.frames[next].dispose == Disposal::Previous {
            let copy = self.canvas.clone();
            assert(copy@ =~= self.canvas@);
            self.backup = Some(copy);
        }
        blit(&mut self.canvas, self.width, self.height, &self.frames[next]);
        self.shown = Some(next);
    }

    /// Composites up to frame `target`; going back starts over from a clean canvas.
    pub fn show(&mut self, target: usize)
        requires
            old(self).wf(),
            target < old(self).frames@.len(),
        ensures
            final(self).wf(),
            final(self).shown == Some(target),
            final(self).same_animation(old(self)),
            final(self).clock == old(self).clock,
            final(self).generation == old(self).generation,
            final(self).sent == old(self).sent,
    {
        if let Some(i) = self.shown {
            if target < i {
                self.clear_canvas();
            }
        }
        while self.shown.is_none() || self.shown.unwrap() < target
            invariant
                self.wf(),
                target < self.frames@.len(),
                self.count() <= target + 1,
                self.same_animation(old(self)),
                self.clock == old(self).clock,
                self.generation == old(self).generation,
                self.sent == old(self).sent,
            decreases target + 1 - self.count(),
        {
            self.step();
        }
    }

    /// The time since playback started, at normal speed. The first call starts it.
    pub fn elapsed(&mut self, now: Nanos) -> (r: Nanos)
        requires
            old(self).wf(),
        ensures
            final(self).wf(),
            final(self).clock.started == Some(
                match old(self).clock.started {
                    Some(t) => t,
                    None => now,
                },
            ),
            r == crate::clock::since(now, final(self).clock.started->0),
            final(self).clock.speed == old(self).clock.speed,
            final(self).clock.looped == old(self).clock.looped,
            final(self).same_animation(old(self)),
            final(self).canvas == old(self).canvas,
            final(self).shown == old(self).shown,
            final(self).generation == old(self).generation,
            final(self).sent == old(self).sent,
    {
        self.clock.elapsed(now)
    }

    /// The animation after a look at `raw` of playback time, which gave `r`: the frame that is due
    /// is composited, and it is handed out if it was not handed out last.
    pub open spec fn polled(&self, before: &GifSource, raw: Nanos, r: Option<Frame>) -> bool {
        &&& self.wf()
        &&& self.same_animation(before)
        &&& self.clock == before.clock
        &&& self.shown is Some
        &&& visible_at(
            before.frames@,
            crate::clock::place(raw, Some(before.total), before.clock.looped) as int,
            self.shown->0 as int,
        )
        &&& self.sent == self.shown
        &&& r is None <==> before.sent == self.shown
        &&& r is None ==> self.generation == before.generation
        &&& r matches Some(f) ==> {
            &&& self.generation == before.generation + 1
            &&& f.generation == self.generation
            &&& f.data matches FrameData::Cpu(c) && c.wf() && c.width == before.width && c.height
                == before.height && c.pixels@ == before.after((self.shown->0 + 1) as nat).0
        }
    }

    /// The frame current after `raw` of playback time (the elapsed time scaled by the speed).
    /// `None` means that the picture has not changed since the last call.
    pub fn poll(&mut self, raw: Nanos) -> (r: Option<Frame>)
        requires
            old(self).wf(),
            old(self).generation < u64::MAX,
        ensures
            final(self).polled(old(self), raw, r),
    {
        let pos: Nanos = self.clock.position(raw, Some(self.total));
        let target: usize = self.frame_at(pos);
        self.show(target);
        if let Some(s) = self.sent {
            if s == target {
                return None;
            }
        }
        self.sent = Some(target);
        self.generation = self.generation + 1;
        let pixels = self.canvas.clone();
        proof {
            assert(pixels@ =~= self.canvas@);
            composed_len(
                self.frames@,
                self.width as nat,
                self.height as nat,
                self.bg@,
                self.count(),
            );
        }
        Some(
            Frame {
                generation: self.generation,
                data: FrameData::Cpu(
                    CpuFrame::from_bgra(self.width, self.height, Arc::new(pixels)),
                ),
            },
        )
    }
}

proof fn composed_len(frames: Seq<GifFrame>, w: nat, h: nat, bg: Seq<u8>, n: nat)
    ensures
        composed(frames, w, h, bg, n).0.len() == 4 * w * h,
        composed(frames, w, h, bg, n).1 matches Some(b) ==> b.len() == 4 * w * h,
    decreases n,
{
    if n > 0 {
        composed_len(frames, w, h, bg, (n - 1) as nat);
    }
}

/// The states of an animation that is looked at `raws.len()` times, at the playback times `raws`,
/// and what it gave.
pub open spec fn is_run(run: Seq<GifSource>, raws: Seq<Nanos>, outs: Seq<Option<Frame>>) -> bool {
    &&& run.len() == raws.len() + 1
    &&& outs.len() == raws.len()
    &&& forall|m: int, n: int|
        #![trigger run[m], run[n]]
        0 <= m && n == m + 1 && n < run.len() ==> run[n].polled(&run[m], raws[m], outs[m])
}

/// How many of the first `m` looks gave a frame.
pub open spec fn handed_out(outs: Seq<Option<Frame>>, m: int) -> nat
    decreases m,
{
    if m <= 0 {
        0
    } else if outs[m - 1] is Some {
        handed_out(outs, m - 1) + 1
    } else {
        handed_out(outs, m - 1)
    }
}

/// The frame that was handed out last in the first `m` looks.
pub open spec fn last_out(run: Seq<GifSource>, outs: Seq<Option<Frame>>, m: int) -> Option<usize>
    decreases m,
{
    if m <= 0 {
        None
    } else if outs[m - 1] is Some {
        run[m].shown
    } else {
        last_out(run, outs, m - 1)
    }
}

proof fn a_run_keeps_the_animation(
    run: Seq<GifSource>,
    raws: Seq<Nanos>,
    outs: Seq<Option<Frame>>,
    m: int,
)
    requires
        is_run(run, raws, outs),
        0 <= m < run.len(),
    ensures
        run[m].same_animation(&run[0]),
        run[m].clock == run[0].clock,
    decreases m,
{
    if m > 0 {
        a_run_keeps_the_animation(run, raws, outs, m - 1);
        assert(run[m].polled(&run[m - 1], raws[m - 1], outs[m - 1]));
    }
}

/// The timeline of an animation. Each look shows the frame whose time has come. There is nothing
/// new if and only if that frame was handed out last; the frames handed out are numbered from
/// one on.
pub proof fn frames_come_in_their_time(
    run: Seq<GifSource>,
    raws: Seq<Nanos>,
    outs: Seq<Option<Frame>>,
    m: int,
)
    requires
        is_run(run, raws, outs),
        run[0].sent is None,
        run[0].generation == 0,
        0 <= m < raws.len(),
    ensures
        run[m + 1].shown matches Some(k) && visible_at(
            run[0].frames@,
            crate::clock::place(raws[m], Some(run[0].total), run[0].clock.looped) as int,
            k as int,
        ),
        outs[m] is None <==> last_out(run, outs, m) == run[m + 1].shown,
        outs[m] matches Some(f) ==> f.generation == handed_out(outs, m) + 1,
        run[m].sent == last_out(run, outs, m),
        run[m].generation == handed_out(outs, m),
    decreases m,
{
    if m > 0 {
        frames_come_in_their_time(run, raws, outs, m - 1);
        assert(run[m].polled(&run[m - 1], raws[m - 1], outs[m - 1]));
    }
    assert(run[m + 1].polled(&run[m], raws[m], outs[m]));
    a_run_keeps_the_animation(run, raws, outs, m);
}

/// However an animation came to a frame, step by step, past frames that were left out or after it
/// looped, its picture is the same: that of the frames up to it, composited in order.
pub proof fn every_way_to_a_frame_gives_its_picture(
    a: Seq<GifSource>,
    raws_a: Seq<Nanos>,
    outs_a: Seq<Option<Frame>>,
    b: Seq<GifSource>,
    raws_b: Seq<Nanos>,
    outs_b: Seq<Option<Frame>>,
    m: int,
    n: int,
    f: Frame,
    g: Frame,
)
    requires
        is_run(a, raws_a, outs_a),
        is_run(b, raws_b, outs_b),
        a[0].same_animation(&b[0]),
        0 <= m < raws_a.len(),
        0 <= n < raws_b.len(),
        a[m + 1].shown == b[n + 1].shown,
        outs_a[m] == Some(f),
        outs_b[n] == Some(g),
    ensures
        f.data matches FrameData::Cpu(c) && c.pixels@ == composed(
            a[0].frames@,
            a[0].width as nat,
            a[0].height as nat,
            a[0].bg@,
            (a[m + 1].shown->0 + 1) as nat,
        ).0,
        f.data matches FrameData::Cpu(c) && g.data matches FrameData::Cpu(d) && c.pixels@
            == d.pixels@ && c.width == d.width && c.height == d.height,
{
    a_run_keeps_the_animation(a, raws_a, outs_a, m);
    a_run_keeps_the_animation(b, raws_b, outs_b, n);
    assert(a[m + 1].polled(&a[m], raws_a[m], outs_a[m]));
    assert(b[n + 1].polled(&b[n], raws_b[n], outs_b[n]));
}

} // verus!
