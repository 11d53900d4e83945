//! Additional rectangles from other plugins, such as the previews of hidden windows in an
//! overview.
//!
//! Each plugin is a client of its own: nobody else wipes its rectangles. `set_rects` replaces
//! the rectangles of a client on a monitor in one go, so nothing flickers. A rectangle is
//! filled in black or with the cover of a window. `unregister` takes away everything of a
//! client. The first version of the interface works as the client "legacy" with black
//! rectangles. Coordinates are given by the bits of doubles.

use crate::double;
use crate::text::head;
use vstd::prelude::*;
use vstd::string::*;

verus! {

pub const API_VERSION: u32 = 2;

/// The client of the first version of the interface.
pub const LEGACY_CLIENT: u64 = 1;

/// How many rectangles a client may hold: a guard against a leak in another plugin.
pub const MAX_RECTS_PER_CLIENT: usize = 4096;

/// How many characters of a client's name are kept.
pub const NAME_LENGTH: usize = 64;

/// What a rectangle is filled with.
#[derive(Debug, Clone, Copy, PartialEq, Eq, Structural)]
pub enum Fill {
    Black,
    /// The cover of the rectangle's window; black if there is no such window or cover.
    WindowCover,
}

impl Fill {
    /// The number of a fill.
    pub open spec fn number(self) -> u32 {
        match self {
            Fill::Black => 0,
            Fill::WindowCover => 1,
        }
    }

    /// The fill of a number; an unknown one means black.
    pub fn from_raw(v: u32) -> (r: Fill)
        ensures
            r == (if v == 1 {
                Fill::WindowCover
            } else {
                Fill::Black
            }),
    {
        if v == 1 {
            Fill::WindowCover
        } else {
            Fill::Black
        }
    }

    /// The number of a fill.
    pub fn code(self) -> (r: u32)
        ensures
            r == self.number(),
    {
        match self {
            Fill::Black => 0,
            Fill::WindowCover => 1,
        }
    }
}

/// A rectangle to cover.
#[derive(Debug, Clone, Copy, PartialEq, Eq, Structural)]
pub struct CoverRect {
    pub x: u64,
    pub y: u64,
    pub w: u64,
    pub h: u64,
    pub rounding: u64,
    /// Address of a window, 0 for none.
    pub window: u64,
    pub fill: Fill,
}

/// A rectangle that can be drawn: its coordinates are finite and it is not empty. A rounding
/// that is negative or not finite is none.
pub open spec fn sane_rect(r: CoverRect) -> Option<CoverRect> {
    if double::is_finite(r.x) && double::is_finite(r.y) && double::is_positive(r.w)
        && double::is_positive(r.h) {
        Some(CoverRect { rounding: double::at_least_zero(r.rounding), ..r })
    } else {
        None
    }
}

/// A rectangle that is drawn as it is: its place is finite, its sides are finite and longer than
/// zero, its rounding is finite and not negative.
pub open spec fn is_drawable(r: CoverRect) -> bool {
    &&& double::is_finite(r.x) && double::is_finite(r.y)
    &&& double::is_positive(r.w) && double::is_positive(r.h)
    &&& double::is_finite(r.rounding) && !double::is_signed(r.rounding)
}

/// Every rectangle is drawn as it is.
pub open spec fn all_drawable(rects: Seq<MonitorRect>) -> bool {
    forall|i: int| 0 <= i < rects.len() ==> is_drawable((#[trigger] rects[i]).rect)
}

impl CoverRect {
    /// The rectangle as it can be drawn, `None` if it cannot.
    pub fn sane(&self) -> (r: Option<CoverRect>)
        ensures
            r == sane_rect(*self),
    {
        if double::finite(self.x) && double::finite(self.y) && double::positive(self.w)
            && double::positive(self.h) {
            Some(
                CoverRect {
                    x: self.x,
                    y: self.y,
                    w: self.w,
                    h: self.h,
                    rounding: double::clamp_to_zero(self.rounding),
                    window: self.window,
                    fill: self.fill,
                },
            )
        } else {
            None
        }
    }
}

/// A rectangle and its monitor.
#[derive(Debug, Clone, Copy, PartialEq, Eq, Structural)]
pub struct MonitorRect {
    pub monitor: i64,
    pub rect: CoverRect,
}

/// A plugin with its rectangles.
#[derive(Debug)]
pub struct Client {
    pub id: u64,
    pub name: String,
    pub rects: Vec<MonitorRect>,
}

/// All plugins that have rectangles.
#[derive(Debug)]
pub struct Clients {
    pub list: Vec<Client>,
    pub next_id: u64,
}

impl Clients {
    /// Clients have different numbers, all of them handed out; nobody holds too much, and
    /// nobody holds what cannot be drawn.
    pub open spec fn wf(&self) -> bool {
        &&& self.next_id > LEGACY_CLIENT
        &&& forall|i: int| 0 <= i < self.list@.len() ==> (#[trigger] self.list@[i]).id < self.next_id
        &&& forall|i: int|
            0 <= i < self.list@.len() ==> (#[trigger] self.list@[i]).rects@.len()
                <= MAX_RECTS_PER_CLIENT
        &&& forall|i: int|
            0 <= i < self.list@.len() ==> all_drawable((#[trigger] self.list@[i]).rects@)
        &&& forall|i: int, j: int|
            0 <= i < j < self.list@.len() ==> (#[trigger] self.list@[i]).id != (
            #[trigger] self.list@[j]).id
    }

    /// There is a client of that number.
    pub open spec fn has(&self, id: u64) -> bool {
        exists|i: int| 0 <= i < self.list@.len() && (#[trigger] self.list@[i]).id == id
    }

    /// Every client but `id` is as it was, in its place.
    pub open spec fn same_but(&self, other: &Clients, id: u64) -> bool {
        &&& self.next_id == other.next_id
        &&& self.list@.len() == other.list@.len()
        &&& forall|i: int|
            0 <= i < self.list@.len() && other.list@[i].id != id ==> #[trigger] self.list@[i]
                == other.list@[i]
        &&& forall|i: int|
            0 <= i < self.list@.len() ==> (#[trigger] self.list@[i]).id == other.list@[i].id
                && self.list@[i].name == other.list@[i].name
    }

    /// The rectangles of client `id` are these.
    pub open spec fn holds(&self, id: u64, rects: Seq<MonitorRect>) -> bool {
        forall|i: int|
            0 <= i < self.list@.len() && (#[trigger] self.list@[i]).id == id
                ==> self.list@[i].rects@ == rects
    }

    /// No client.
    pub fn new() -> (r: Clients)
        ensures
            r.wf(),
            r.list@.len() == 0,
            r.next_id == LEGACY_CLIENT + 1,
    {
        Clients { list: Vec::new(), next_id: LEGACY_CLIENT + 1 }
    }

    /// Where client `id` is.
    pub fn position(&self, id: u64) -> (r: Option<usize>)
        ensures
            match r {
                Some(i) => i < self.list@.len() && self.list@[i as int].id == id,
                None => !self.has(id),
            },
    {
        let mut i: usize = 0;
        while i < self.list.len()
            invariant
                i <= self.list@.len(),
                forall|j: int| 0 <= j < i ==> (#[trigger] self.list@[j]).id != id,
            decreases self.list@.len() - i,
        {
            if self.list[i].id == id {
                return Some(i);
            }
            i += 1;
        }
        None
    }
}

/// The rectangles that are not on the monitor.
pub open spec fn elsewhere(rects: Seq<MonitorRect>, monitor: i64) -> Seq<MonitorRect> {
    rects.filter(|r: MonitorRect| r.monitor != monitor)
}

/// The rectangles that can be drawn, on the monitor.
pub open spec fn placed(rects: Seq<CoverRect>, monitor: i64) -> Seq<MonitorRect>
    decreases rects.len(),
{
    if rects.len() == 0 {
        Seq::empty()
    } else {
        let before = placed(rects.drop_last(), monitor);
        match sane_rect(rects.last()) {
            Some(rect) => before.push(MonitorRect { monitor, rect }),
            None => before,
        }
    }
}

/// The first `n` of the rectangles.
pub open spec fn at_most(rects: Seq<MonitorRect>, n: int) -> Seq<MonitorRect> {
    if n <= 0 {
        Seq::empty()
    } else if rects.len() <= n {
        rects
    } else {
        rects.take(n)
    }
}

/// The rectangles of a client after those on the monitor were replaced, as far as there is
/// room.
pub open spec fn replaced(
    rects: Seq<MonitorRect>,
    monitor: i64,
    new: Seq<CoverRect>,
) -> Seq<MonitorRect> {
    let kept = elsewhere(rects, monitor);
    kept + at_most(placed(new, monitor), MAX_RECTS_PER_CLIENT - kept.len())
}

proof fn filter_push(s: Seq<MonitorRect>, a: MonitorRect, f: spec_fn(MonitorRect) -> bool)
    ensures
        s.push(a).filter(f) == (if f(a) {
            s.filter(f).push(a)
        } else {
            s.filter(f)
        }),
        s.filter(f).len() <= s.len(),
    decreases s.len(),
{
    reveal(Seq::filter);
    assert(s.push(a).drop_last() =~= s);
    if s.len() > 0 {
        filter_push(s.drop_last(), s.last(), f);
        assert(s.drop_last().push(s.last()) =~= s);
    }
}

/// The rectangles that are not on the monitor.
fn without_monitor(rects: &Vec<MonitorRect>, monitor: i64) -> (r: Vec<MonitorRect>)
    ensures
        r@ == elsewhere(rects@, monitor),
        r@.len() <= rects@.len(),
        all_drawable(rects@) ==> all_drawable(r@),
{
    let ghost f = |r: MonitorRect| r.monitor != monitor;
    let mut out: Vec<MonitorRect> = Vec::new();
    let mut i: usize = 0;
    proof {
        reveal(Seq::filter);
        assert(rects@.take(0) =~= Seq::empty());
        assert(out@ =~= rects@.take(0).filter(f));
    }
    while i < rects.len()
        invariant
            i <= rects@.len(),
            f == (|r: MonitorRect| r.monitor != monitor),
            out@ == rects@.take(i as int).filter(f),
            out@.len() <= i,
            all_drawable(rects@) ==> all_drawable(out@),
        decreases rects@.len() - i,
    {
        proof {
            filter_push(rects@.take(i as int), rects@[i as int], f);
            assert(rects@.take(i + 1) =~= rects@.take(i as int).push(rects@[i as int]));
        }
        if rects[i].monitor != monitor {
            out.push(rects[i]);
        }
        i += 1;
    }
    assert(rects@.take(i as int) =~= rects@);
    out
}

/// Adds the rectangles that can be drawn, as far as there is room.
fn place(out: &mut Vec<MonitorRect>, rects: &[CoverRect], monitor: i64)
    requires
        old(out)@.len() <= MAX_RECTS_PER_CLIENT,
    ensures
        final(out)@ == old(out)@ + at_most(
            placed(rects@, monitor),
            MAX_RECTS_PER_CLIENT - old(out)@.len(),
        ),
        final(out)@.len() <= MAX_RECTS_PER_CLIENT,
        all_drawable(old(out)@) ==> all_drawable(final(out)@),
{
    let ghost room = MAX_RECTS_PER_CLIENT - out@.len();
    let mut i: usize = 0;
    assert(rects@.take(0) =~= Seq::empty());
    assert(at_most(placed(rects@.take(0), monitor), room) =~= Seq::empty());
    assert(out@ =~= old(out)@ + Seq::<MonitorRect>::empty());
    while i < rects.len()
        invariant
            i <= rects@.len(),
            room == MAX_RECTS_PER_CLIENT - old(out)@.len(),
            0 <= room,
            out@ == old(out)@ + at_most(placed(rects@.take(i as int), monitor), room),
            out@.len() <= MAX_RECTS_PER_CLIENT,
            all_drawable(old(out)@) ==> all_drawable(out@),
        decreases rects@.len() - i,
    {
        let ghost before = placed(rects@.take(i as int), monitor);
        let ghost so_far = out@;
        assert(rects@.take(i + 1).drop_last() =~= rects@.take(i as int));
        if let Some(rect) = rects[i].sane() {
            let ghost m = MonitorRect { monitor, rect };
            if out.len() < MAX_RECTS_PER_CLIENT {
                out.push(MonitorRect { monitor, rect });
                assert(at_most(before, room) =~= before);
                assert(at_most(before.push(m), room) =~= before.push(m));
                assert(out@ =~= old(out)@ + before.push(m));
            } else {
                assert(at_most(before.push(m), room) =~= at_most(before, room));
            }
        }
        i += 1;
    }
    assert(rects@.take(i as int) =~= rects@);
}

/// `register` made `c` of `before`: the client `id` came last, with the first characters of its
/// name and without rectangles.
pub open spec fn registered(before: Clients, c: Clients, name: Seq<char>, id: u64) -> bool {
    &&& id == before.next_id
    &&& c.next_id == before.next_id + 1
    &&& !before.has(id)
    &&& c.list@.len() == before.list@.len() + 1
    &&& c.list@.drop_last() == before.list@
    &&& c.list@.last().id == id
    &&& c.list@.last().name@ == crate::text::first_chars(name, NAME_LENGTH as nat)
    &&& c.list@.last().rects@.len() == 0
}

/// A new client. The name is for debugging: who left the rectangles.
pub fn register(c: &mut Clients, name: &str) -> (id: u64)
    requires
        old(c).wf(),
        old(c).next_id < u64::MAX,
    ensures
        final(c).wf(),
        registered(*old(c), *final(c), name@, id),
{
    let id: u64 = c.next_id;
    c.next_id = id + 1;
    c.list.push(Client { id, name: head(name, NAME_LENGTH).to_owned(), rects: Vec::new() });
    assert(c.list@.drop_last() =~= old(c).list@);
    id
}

/// `unregister` made `c` of `before`.
pub open spec fn unregistered(before: Clients, c: Clients, id: u64) -> bool {
    &&& c.next_id == before.next_id
    &&& !c.has(id)
    &&& c.list@ == before.list@.filter(|cl: Client| cl.id != id)
}

/// Takes a client away, with all its rectangles.
pub fn unregister(c: &mut Clients, id: u64)
    requires
        old(c).wf(),
    ensures
        final(c).wf(),
        unregistered(*old(c), *final(c), id),
{
    let ghost f = |cl: Client| cl.id != id;
    let ghost all = c.list@;
    match c.position(id) {
        Some(i) => {
            let _ = c.list.remove(i);
            proof {
                one_leaves(all, id, i as int);
                assert(c.list@ =~= all.remove(i as int));
                assert forall|a: int| 0 <= a < c.list@.len() implies #[trigger] c.list@[a] == all[if a
                    < i {
                    a
                } else {
                    a + 1
                }] by {}
            }
        },
        None => {
            proof {
                all_stay(all, f);
            }
        },
    }
}

proof fn all_stay(s: Seq<Client>, f: spec_fn(Client) -> bool)
    requires
        forall|i: int| 0 <= i < s.len() ==> f(#[trigger] s[i]),
    ensures
        s.filter(f) == s,
    decreases s.len(),
{
    reveal(Seq::filter);
    if s.len() > 0 {
        assert(f(s[s.len() - 1]));
        assert forall|i: int| 0 <= i < s.drop_last().len() implies f(
            #[trigger] s.drop_last()[i],
        ) by {
            assert(f(s[i]));
        }
        all_stay(s.drop_last(), f);
        assert(s.drop_last().push(s.last()) =~= s);
    }
}

proof fn one_leaves(s: Seq<Client>, id: u64, i: int)
    requires
        0 <= i < s.len(),
        s[i].id == id,
        forall|a: int, b: int| 0 <= a < b < s.len() ==> (#[trigger] s[a]).id != (#[trigger] s[b]).id,
    ensures
        s.filter(|cl: Client| cl.id != id) == s.remove(i),
    decreases s.len(),
{
    reveal(Seq::filter);
    let f = |cl: Client| cl.id != id;
    let rest = s.drop_last();
    assert forall|a: int, b: int| 0 <= a < b < rest.len() implies (#[trigger] rest[a]).id != (
    #[trigger] rest[b]).id by {
        assert(s[a].id != s[b].id);
    }
    if i == s.len() - 1 {
        assert forall|a: int| 0 <= a < rest.len() implies f(#[trigger] rest[a]) by {
            assert(s[a].id != s[i].id);
        }
        all_stay(rest, f);
        assert(s.remove(i) =~= rest);
    } else {
        one_leaves(rest, id, i);
        assert(s[i].id != s[s.len() - 1].id);
        assert(f(s.last()));
        assert(s.remove(i) =~= rest.remove(i).push(s.last()));
    }
}

/// `set_rects` made `c` of `before` and gave `r`.
pub open spec fn rects_set(
    before: Clients,
    c: Clients,
    id: u64,
    monitor: i64,
    rects: Seq<CoverRect>,
    r: bool,
) -> bool {
    &&& r == before.has(id)
    &&& !r ==> c == before
    &&& r ==> c.same_but(&before, id)
    &&& r ==> forall|i: int|
        0 <= i < before.list@.len() && (#[trigger] before.list@[i]).id == id ==> c.list@[i].rects@
            == replaced(before.list@[i].rects@, monitor, rects)
}

/// Replaces the rectangles of a client on a monitor; an empty list clears it. `false`: there
/// is no such client.
pub fn set_rects(c: &mut Clients, id: u64, monitor: i64, rects: &[CoverRect]) -> (r: bool)
    requires
        old(c).wf(),
    ensures
        final(c).wf(),
        rects_set(*old(c), *final(c), id, monitor, rects@, r),
{
    let i: usize = match c.position(id) {
        Some(i) => i,
        None => {
            return false;
        },
    };
    let mut kept = without_monitor(&c.list[i].rects, monitor);
    place(&mut kept, rects, monitor);
    c.list[i].rects = kept;
    assert(forall|j: int| 0 <= j < c.list@.len() && j != i ==> #[trigger] c.list@[j]
        == old(c).list@[j]);
    true
}

/// `clear_client` made `c` of `before` and gave `r`.
pub open spec fn client_cleared(before: Clients, c: Clients, id: u64, r: bool) -> bool {
    &&& r == before.has(id)
    &&& !r ==> c == before
    &&& r ==> c.same_but(&before, id) && c.holds(id, Seq::empty())
}

/// Clears all monitors of a client; the client stays.
pub fn clear_client(c: &mut Clients, id: u64) -> (r: bool)
    requires
        old(c).wf(),
    ensures
        final(c).wf(),
        client_cleared(*old(c), *final(c), id, r),
{
    match c.position(id) {
        Some(i) => {
            c.list[i].rects.clear();
            assert(c.list@[i as int].rects@ =~= Seq::empty());
            assert(forall|j: int| 0 <= j < c.list@.len() && j != i ==> #[trigger] c.list@[j]
                == old(c).list@[j]);
            true
        },
        None => false,
    }
}

/// The rectangles on the monitor.
pub open spec fn shown_on(rects: Seq<MonitorRect>, monitor: i64) -> Seq<CoverRect>
    decreases rects.len(),
{
    if rects.len() == 0 {
        Seq::empty()
    } else {
        let before = shown_on(rects.drop_last(), monitor);
        if rects.last().monitor == monitor {
            before.push(rects.last().rect)
        } else {
            before
        }
    }
}

/// The rectangles of all clients on the monitor.
pub open spec fn all_on(list: Seq<Client>, monitor: i64) -> Seq<CoverRect>
    decreases list.len(),
{
    if list.len() == 0 {
        Seq::empty()
    } else {
        all_on(list.drop_last(), monitor) + shown_on(list.last().rects@, monitor)
    }
}

/// Adds the rectangles on the monitor.
fn gather(out: &mut Vec<CoverRect>, rects: &Vec<MonitorRect>, monitor: i64)
    ensures
        final(out)@ == old(out)@ + shown_on(rects@, monitor),
{
    let mut i: usize = 0;
    assert(rects@.take(0) =~= Seq::empty());
    assert(out@ =~= old(out)@ + shown_on(rects@.take(0), monitor));
    while i < rects.len()
        invariant
            i <= rects@.len(),
            out@ == old(out)@ + shown_on(rects@.take(i as int), monitor),
        decreases rects@.len() - i,
    {
        assert(rects@.take(i + 1).drop_last() =~= rects@.take(i as int));
        let ghost so_far = out@;
        if rects[i].monitor == monitor {
            out.push(rects[i].rect);
        }
        i += 1;
        assert(out@ =~= old(out)@ + shown_on(rects@.take(i as int), monitor));
    }
    assert(rects@.take(i as int) =~= rects@);
}

/// All rectangles of a monitor, from all clients, in the order of the clients.
pub fn for_monitor(c: &Clients, monitor: i64) -> (r: Vec<CoverRect>)
    ensures
        r@ == all_on(c.list@, monitor),
        c.wf() ==> forall|k: int| 0 <= k < r@.len() ==> is_drawable(#[trigger] r@[k]),
        c.wf() ==> r@.len() <= c.list@.len() * MAX_RECTS_PER_CLIENT,
{
    proof {
        if c.wf() {
            what_is_held_is_drawable(*c, monitor);
        }
    }
    let mut out: Vec<CoverRect> = Vec::new();
    let mut i: usize = 0;
    assert(c.list@.take(0) =~= Seq::empty());
    assert(out@ =~= all_on(c.list@.take(0), monitor));
    while i < c.list.len()
        invariant
            i <= c.list@.len(),
            out@ == all_on(c.list@.take(i as int), monitor),
        decreases c.list@.len() - i,
    {
        gather(&mut out, &c.list[i].rects, monitor);
        i += 1;
        assert(c.list@.take(i as int).drop_last() =~= c.list@.take(i - 1));
    }
    assert(c.list@.take(i as int) =~= c.list@);
    out
}

/// Forgets everything, when the plugin is unloaded.
pub fn reset(c: &mut Clients)
    ensures
        final(c).wf(),
        final(c).list@.len() == 0,
        final(c).next_id == LEGACY_CLIENT + 1,
{
    c.list.clear();
    c.next_id = LEGACY_CLIENT + 1;
}

/// Who holds how many rectangles.
pub fn debug_summary(c: &Clients) -> (r: Vec<(String, usize)>)
    ensures
        r@.len() == c.list@.len(),
        forall|i: int|
            0 <= i < r@.len() ==> (#[trigger] r@[i]).0@ == c.list@[i].name@ && r@[i].1
                == c.list@[i].rects@.len(),
{
    let mut out: Vec<(String, usize)> = Vec::new();
    let mut i: usize = 0;
    while i < c.list.len()
        invariant
            i <= c.list@.len(),
            out@.len() == i,
            forall|j: int|
                0 <= j < i ==> (#[trigger] out@[j]).0@ == c.list@[j].name@ && out@[j].1
                    == c.list@[j].rects@.len(),
        decreases c.list@.len() - i,
    {
        out.push((c.list[i].name.clone(), c.list[i].rects.len()));
        i += 1;
    }
    out
}

/// Rectangles in two groups show as the two groups do.
pub proof fn shown_joins(a: Seq<MonitorRect>, b: Seq<MonitorRect>, monitor: i64)
    ensures
        shown_on(a + b, monitor) == shown_on(a, monitor) + shown_on(b, monitor),
    decreases b.len(),
{
    if b.len() == 0 {
        assert(a + b =~= a);
        assert(shown_on(a, monitor) + shown_on(b, monitor) =~= shown_on(a, monitor));
    } else {
        shown_joins(a, b.drop_last(), monitor);
        assert((a + b).drop_last() =~= a + b.drop_last());
        assert(shown_on(a + b, monitor) =~= shown_on(a, monitor) + shown_on(b, monitor));
    }
}

proof fn elsewhere_shows(rects: Seq<MonitorRect>, monitor: i64, other: i64)
    ensures
        shown_on(elsewhere(rects, monitor), other) == (if other == monitor {
            Seq::empty()
        } else {
            shown_on(rects, other)
        }),
    decreases rects.len(),
{
    let f = |r: MonitorRect| r.monitor != monitor;
    reveal(Seq::filter);
    if rects.len() > 0 {
        let rest = rects.drop_last();
        elsewhere_shows(rest, monitor, other);
        if f(rects.last()) {
            assert(elsewhere(rects, monitor).drop_last() =~= elsewhere(rest, monitor));
        }
    }
}

proof fn placed_is_on(rects: Seq<CoverRect>, monitor: i64)
    ensures
        forall|i: int|
            0 <= i < placed(rects, monitor).len() ==> (#[trigger] placed(rects, monitor)[i]).monitor
                == monitor,
    decreases rects.len(),
{
    if rects.len() > 0 {
        placed_is_on(rects.drop_last(), monitor);
    }
}

proof fn all_shown(rects: Seq<MonitorRect>, monitor: i64, other: i64)
    requires
        forall|i: int| 0 <= i < rects.len() ==> (#[trigger] rects[i]).monitor == monitor,
    ensures
        shown_on(rects, other) == (if other == monitor {
            rects.map_values(|r: MonitorRect| r.rect)
        } else {
            Seq::empty()
        }),
    decreases rects.len(),
{
    if rects.len() > 0 {
        let rest = rects.drop_last();
        assert forall|i: int| 0 <= i < rest.len() implies (#[trigger] rest[i]).monitor
            == monitor by {
            assert(rects[i].monitor == monitor);
        }
        all_shown(rest, monitor, other);
        assert(rects[rects.len() - 1].monitor == monitor);
        assert(rects.map_values(|r: MonitorRect| r.rect) =~= rest.map_values(
            |r: MonitorRect| r.rect,
        ).push(rects.last().rect));
    } else {
        assert(rects.map_values(|r: MonitorRect| r.rect) =~= Seq::empty());
    }
}

/// `set_rects` replaces what a client shows on a monitor: afterwards it shows there the new
/// rectangles that can be drawn, as far as there is room, and nothing else. Its other
/// monitors are left alone.
pub proof fn a_monitor_is_replaced_at_once(
    rects: Seq<MonitorRect>,
    monitor: i64,
    new: Seq<CoverRect>,
    other: i64,
)
    ensures
        shown_on(replaced(rects, monitor, new), other) == (if other == monitor {
            at_most(
                placed(new, monitor),
                MAX_RECTS_PER_CLIENT - elsewhere(rects, monitor).len(),
            ).map_values(|r: MonitorRect| r.rect)
        } else {
            shown_on(rects, other)
        }),
{
    let kept = elsewhere(rects, monitor);
    let added = at_most(placed(new, monitor), MAX_RECTS_PER_CLIENT - kept.len());
    shown_joins(kept, added, other);
    elsewhere_shows(rects, monitor, other);
    placed_is_on(new, monitor);
    assert forall|i: int| 0 <= i < added.len() implies (#[trigger] added[i]).monitor == monitor by {
        assert(placed(new, monitor)[i].monitor == monitor);
    }
    all_shown(added, monitor, other);
    assert(shown_on(replaced(rects, monitor, new), other) =~= (if other == monitor {
        added.map_values(|r: MonitorRect| r.rect)
    } else {
        shown_on(rects, other)
    }));
}

/// An empty list clears the monitor.
pub proof fn an_empty_list_clears_the_monitor(rects: Seq<MonitorRect>, monitor: i64)
    ensures
        shown_on(replaced(rects, monitor, Seq::empty()), monitor) == Seq::<CoverRect>::empty(),
{
    a_monitor_is_replaced_at_once(rects, monitor, Seq::empty(), monitor);
    assert(shown_on(replaced(rects, monitor, Seq::empty()), monitor) =~= Seq::empty());
}

/// A rectangle that can be drawn stays as it is when it is looked at again.
pub proof fn a_sane_rectangle_stays(r: CoverRect)
    ensures
        sane_rect(r) matches Some(s) ==> sane_rect(s) == Some(s) && is_drawable(s),
        is_drawable(r) <==> sane_rect(r) == Some(r),
{
}

proof fn shown_is_held(rects: Seq<MonitorRect>, monitor: i64)
    requires
        all_drawable(rects),
    ensures
        shown_on(rects, monitor).len() <= rects.len(),
        forall|k: int|
            0 <= k < shown_on(rects, monitor).len() ==> is_drawable(
                #[trigger] shown_on(rects, monitor)[k],
            ),
    decreases rects.len(),
{
    if rects.len() > 0 {
        assert(is_drawable(rects[rects.len() - 1].rect));
        assert forall|i: int| 0 <= i < rects.drop_last().len() implies is_drawable(
            (#[trigger] rects.drop_last()[i]).rect,
        ) by {
            assert(is_drawable(rects[i].rect));
        }
        shown_is_held(rects.drop_last(), monitor);
    }
}

proof fn all_shown_is_held(list: Seq<Client>, monitor: i64)
    requires
        forall|i: int| 0 <= i < list.len() ==> all_drawable((#[trigger] list[i]).rects@),
        forall|i: int|
            0 <= i < list.len() ==> (#[trigger] list[i]).rects@.len() <= MAX_RECTS_PER_CLIENT,
    ensures
        all_on(list, monitor).len() <= list.len() * MAX_RECTS_PER_CLIENT,
        forall|k: int|
            0 <= k < all_on(list, monitor).len() ==> is_drawable(
                #[trigger] all_on(list, monitor)[k],
            ),
    decreases list.len(),
{
    if list.len() > 0 {
        let rest = list.drop_last();
        assert forall|i: int| 0 <= i < rest.len() implies all_drawable(
            (#[trigger] rest[i]).rects@,
        ) && rest[i].rects@.len() <= MAX_RECTS_PER_CLIENT by {
            assert(all_drawable(list[i].rects@));
        }
        all_shown_is_held(rest, monitor);
        assert(all_drawable(list[list.len() - 1].rects@));
        shown_is_held(list.last().rects@, monitor);
        let (a, b) = (all_on(rest, monitor), shown_on(list.last().rects@, monitor));
        assert forall|k: int| 0 <= k < all_on(list, monitor).len() implies is_drawable(
            #[trigger] all_on(list, monitor)[k],
        ) by {
            if k < a.len() {
                assert(is_drawable(a[k]));
            } else {
                assert(is_drawable(b[k - a.len()]));
            }
        }
    }
}

/// Whatever the plugins handed over, a monitor shows only rectangles that can be drawn, and of
/// each client no more than it may hold.
pub proof fn what_is_held_is_drawable(c: Clients, monitor: i64)
    requires
        c.wf(),
    ensures
        all_on(c.list@, monitor).len() <= c.list@.len() * MAX_RECTS_PER_CLIENT,
        forall|k: int|
            0 <= k < all_on(c.list@, monitor).len() ==> is_drawable(
                #[trigger] all_on(c.list@, monitor)[k],
            ),
{
    all_shown_is_held(c.list@, monitor);
}

// ------------------------------------------------------------------ first version

/// The numbers of the clients, with their names and rectangles.
pub open spec fn contents(c: &Clients) -> Seq<(u64, Seq<char>, Seq<MonitorRect>)> {
    c.list@.map_values(|cl: Client| (cl.id, cl.name@, cl.rects@))
}

/// The same once the client of the first version is there.
pub open spec fn with_legacy(c: &Clients) -> Seq<(u64, Seq<char>, Seq<MonitorRect>)> {
    if c.has(LEGACY_CLIENT) {
        contents(c)
    } else {
        contents(c).push((LEGACY_CLIENT, "legacy"@, Seq::empty()))
    }
}

/// Makes sure that the client of the first version is there.
fn legacy(c: &mut Clients) -> (i: usize)
    requires
        old(c).wf(),
    ensures
        final(c).wf(),
        final(c).next_id == old(c).next_id,
        i < final(c).list@.len(),
        final(c).list@[i as int].id == LEGACY_CLIENT,
        contents(final(c)) == with_legacy(old(c)),
        forall|j: int| 0 <= j < old(c).list@.len() ==> final(c).list@[j] == old(c).list@[j],
{
    match c.position(LEGACY_CLIENT) {
        Some(i) => i,
        None => {
            let n: usize = c.list.len();
            c.list.push(
                Client { id: LEGACY_CLIENT, name: "legacy".to_owned(), rects: Vec::new() },
            );
            assert(contents(c) =~= with_legacy(old(c)));
            assert(c.list@[n as int].rects@ =~= Seq::empty());
            n
        },
    }
}

/// `legacy_clear` made `c` of `before`.
pub open spec fn legacy_cleared(before: Clients, c: Clients) -> bool {
    &&& c.next_id == before.next_id
    &&& contents(&c).len() == with_legacy(&before).len()
    &&& forall|i: int|
        0 <= i < contents(&c).len() ==> #[trigger] contents(&c)[i] == (if with_legacy(&before)[i].0
            == LEGACY_CLIENT {
            (LEGACY_CLIENT, with_legacy(&before)[i].1, Seq::<MonitorRect>::empty())
        } else {
            with_legacy(&before)[i]
        })
}

/// Drops the rectangles of the first version.
pub fn legacy_clear(c: &mut Clients)
    requires
        old(c).wf(),
    ensures
        final(c).wf(),
        legacy_cleared(*old(c), *final(c)),
{
    let i: usize = legacy(c);
    let ghost mid = *c;
    c.list[i].rects.clear();
    proof {
        assert(c.list@[i as int].rects@ =~= Seq::empty());
        assert forall|j: int| 0 <= j < contents(c).len() implies #[trigger] contents(c)[j] == (
        if contents(&mid)[j].0 == LEGACY_CLIENT {
            (LEGACY_CLIENT, contents(&mid)[j].1, Seq::<MonitorRect>::empty())
        } else {
            contents(&mid)[j]
        }) by {
            if j != i {
                assert(c.list@[j] == mid.list@[j]);
                assert(mid.list@[j].id != mid.list@[i as int].id);
            }
        }
    }
}

/// `legacy_add` made `c` of `before`.
pub open spec fn legacy_added(
    before: Clients,
    c: Clients,
    monitor: i64,
    rect: CoverRect,
) -> bool {
    match sane_rect(rect) {
        None => c == before,
        Some(rect) => {
            &&& c.next_id == before.next_id
            &&& contents(&c).len() == with_legacy(&before).len()
            &&& forall|i: int|
                0 <= i < contents(&c).len() ==> #[trigger] contents(&c)[i] == (if with_legacy(
                    &before,
                )[i].0 == LEGACY_CLIENT && with_legacy(&before)[i].2.len() < MAX_RECTS_PER_CLIENT {
                    (
                        LEGACY_CLIENT,
                        with_legacy(&before)[i].1,
                        with_legacy(&before)[i].2.push(MonitorRect { monitor, rect }),
                    )
                } else {
                    with_legacy(&before)[i]
                })
        },
    }
}

/// Adds one black rectangle of the first version, if it can be drawn and there is room.
pub fn legacy_add(c: &mut Clients, monitor: i64, x: u64, y: u64, w: u64, h: u64, rounding: u64)
    requires
        old(c).wf(),
    ensures
        final(c).wf(),
        legacy_added(
            *old(c),
            *final(c),
            monitor,
            (CoverRect { x, y, w, h, rounding, window: 0, fill: Fill::Black }),
        ),
{
    let rect = CoverRect { x, y, w, h, rounding, window: 0, fill: Fill::Black };
    let rect = match rect.sane() {
        Some(r) => r,
        None => {
            return ;
        },
    };
    let i: usize = legacy(c);
    let ghost mid = *c;
    if c.list[i].rects.len() < MAX_RECTS_PER_CLIENT {
        c.list[i].rects.push(MonitorRect { monitor, rect });
    }
    proof {
        assert forall|j: int| 0 <= j < contents(c).len() implies #[trigger] contents(c)[j] == (
        if contents(&mid)[j].0 == LEGACY_CLIENT && contents(&mid)[j].2.len()
            < MAX_RECTS_PER_CLIENT {
            (
                LEGACY_CLIENT,
                contents(&mid)[j].1,
                contents(&mid)[j].2.push(MonitorRect { monitor, rect }),
            )
        } else {
            contents(&mid)[j]
        }) by {
            if j != i {
                assert(c.list@[j] == mid.list@[j]);
                assert(mid.list@[j].id != mid.list@[i as int].id);
            }
        }
    }
}

// ------------------------------------------------------------------ histories

/// What happens to the clients as long as the plugin is loaded.
pub enum Op {
    Register { name: Seq<char>, id: u64 },
    Unregister { id: u64 },
    SetRects { id: u64, monitor: i64, rects: Seq<CoverRect>, r: bool },
    Clear { id: u64, r: bool },
    LegacyClear,
    LegacyAdd { monitor: i64, rect: CoverRect },
}

/// `op` leads from `a` to `b`.
pub open spec fn leads(a: Clients, b: Clients, op: Op) -> bool {
    match op {
        Op::Register { name, id } => registered(a, b, name, id),
        Op::Unregister { id } => unregistered(a, b, id),
        Op::SetRects { id, monitor, rects, r } => rects_set(a, b, id, monitor, rects, r),
        Op::Clear { id, r } => client_cleared(a, b, id, r),
        Op::LegacyClear => legacy_cleared(a, b),
        Op::LegacyAdd { monitor, rect } => legacy_added(a, b, monitor, rect),
    }
}

/// The states of the clients, one operation apart.
pub open spec fn is_history(run: Seq<Clients>, ops: Seq<Op>) -> bool {
    &&& run.len() == ops.len() + 1
    &&& forall|m: int, n: int|
        #![trigger run[m], run[n]]
        0 <= m && n == m + 1 && n < run.len() ==> leads(run[m], run[n], ops[m])
}

proof fn numbers_are_handed_out_in_order(run: Seq<Clients>, ops: Seq<Op>, m: int, n: int)
    requires
        is_history(run, ops),
        0 <= m <= n < run.len(),
    ensures
        run[m].next_id <= run[n].next_id,
    decreases n - m,
{
    if m < n {
        numbers_are_handed_out_in_order(run, ops, m, n - 1);
        assert(leads(run[n - 1], run[n], ops[n - 1]));
    }
}

/// A number is never given to two clients, however many come and go in between: every number that
/// `register` gives is above all those that it gave before, and it is not that of the first
/// version.
pub proof fn numbers_are_never_used_again(
    run: Seq<Clients>,
    ops: Seq<Op>,
    m: int,
    n: int,
    earlier: u64,
    later: u64,
)
    requires
        is_history(run, ops),
        run[0].wf(),
        0 <= m < n < ops.len(),
        ops[m] matches Op::Register { name, id } && id == earlier,
        ops[n] matches Op::Register { name, id } && id == later,
    ensures
        LEGACY_CLIENT < earlier < later,
{
    assert(leads(run[m], run[m + 1], ops[m]));
    assert(leads(run[n], run[n + 1], ops[n]));
    numbers_are_handed_out_in_order(run, ops, 0, m);
    numbers_are_handed_out_in_order(run, ops, m + 1, n);
}

/// A new client is there, and nothing else changed for anybody: no monitor shows anything new, and
/// the rectangles of the others are theirs still.
pub proof fn a_new_client_shows_nothing(
    a: Clients,
    b: Clients,
    name: Seq<char>,
    id: u64,
    monitor: i64,
)
    requires
        a.wf(),
        registered(a, b, name, id),
    ensures
        id != LEGACY_CLIENT,
        b.has(id),
        all_on(b.list@, monitor) == all_on(a.list@, monitor),
        contents(&b) == contents(&a).push(
            (id, crate::text::first_chars(name, NAME_LENGTH as nat), Seq::<MonitorRect>::empty()),
        ),
{
    let last = b.list@.last();
    assert(b.list@[b.list@.len() - 1].id == id);
    assert(last.rects@ =~= Seq::empty());
    assert(all_on(b.list@, monitor) =~= all_on(a.list@, monitor));
    assert forall|i: int| 0 <= i < a.list@.len() implies b.list@[i] == #[trigger] a.list@[i] by {
        assert(b.list@.drop_last()[i] == a.list@[i]);
    }
    assert(contents(&b) =~= contents(&a).push(
        (id, crate::text::first_chars(name, NAME_LENGTH as nat), Seq::<MonitorRect>::empty()),
    ));
}

// ------------------------------------------------------------------ second version

/// A rectangle as another plugin hands it over.
#[derive(Debug, Clone, Copy, PartialEq, Eq, Structural)]
pub struct CRect {
    pub x: u64,
    pub y: u64,
    pub w: u64,
    pub h: u64,
    pub rounding: u64,
    pub window: u64,
    pub fill: u32,
}

impl vstd::std_specs::convert::FromSpecImpl<&CRect> for CoverRect {
    open spec fn obeys_from_spec() -> bool {
        true
    }

    open spec fn from_spec(r: &CRect) -> CoverRect {
        CoverRect {
            x: r.x,
            y: r.y,
            w: r.w,
            h: r.h,
            rounding: r.rounding,
            window: r.window,
            fill: if r.fill == 1 {
                Fill::WindowCover
            } else {
                Fill::Black
            },
        }
    }
}

impl From<&CRect> for CoverRect {
    fn from(r: &CRect) -> CoverRect {
        CoverRect {
            x: r.x,
            y: r.y,
            w: r.w,
            h: r.h,
            rounding: r.rounding,
            window: r.window,
            fill: Fill::from_raw(r.fill),
        }
    }
}

} // verus!
