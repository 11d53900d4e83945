//! Laws of the rectangles of other plugins.

use crate::extra::{
    clear_client, debug_summary, for_monitor, legacy_add, legacy_clear, register, set_rects,
    unregister, CRect, Client, Clients, CoverRect, Fill, MonitorRect,
};
use crate::ffi::{nsc_extra_rects, NscExtraRect};
use vstd::prelude::*;

verus! {

/// A rectangle handed over is taken as it is: its place, size, rounding and window, and the fill
/// that its number means, black for an unknown one.
pub proof fn a_rectangle_is_taken_as_it_is(c: CRect, r: CoverRect)
    requires
        call_ensures(<CoverRect as From<&CRect>>::from, (&c,), r),
    ensures
        r.x == c.x && r.y == c.y && r.w == c.w && r.h == c.h,
        r.rounding == c.rounding && r.window == c.window,
        r.fill == Fill::WindowCover <==> c.fill == 1,
        r.fill == Fill::Black <==> c.fill != 1,
{
}

/// The bits of a finite number.
pub open spec fn is_number(bits: u64) -> bool {
    bits % 0x8000_0000_0000_0000 < 0x7ff0_0000_0000_0000
}

/// The bits of a finite number above zero.
pub open spec fn is_size(bits: u64) -> bool {
    0 < bits < 0x7ff0_0000_0000_0000
}

/// A rectangle that can be drawn.
pub open spec fn can_be_drawn(r: CoverRect) -> bool {
    is_number(r.x) && is_number(r.y) && is_size(r.w) && is_size(r.h)
}

/// The same rectangle, with a rounding that can be drawn.
pub open spec fn is_same_rect(s: CoverRect, r: CoverRect) -> bool {
    &&& s.x == r.x && s.y == r.y && s.w == r.w && s.h == r.h
    &&& s.window == r.window && s.fill == r.fill
    &&& s.rounding == (if r.rounding < 0x7ff0_0000_0000_0000 {
        r.rounding
    } else {
        0
    })
}

proof fn sane_in_bits(r: CoverRect)
    ensures
        can_be_drawn(r) <==> crate::extra::sane_rect(r) is Some,
        crate::extra::sane_rect(r) matches Some(s) ==> is_same_rect(s, r),
{
    finite_in_bits(r.x);
    finite_in_bits(r.y);
    finite_in_bits(r.w);
    finite_in_bits(r.h);
    finite_in_bits(r.rounding);
}

proof fn finite_in_bits(b: u64)
    ensures
        crate::double::is_finite(b) <==> is_number(b),
        crate::double::is_positive(b) <==> is_size(b),
        crate::double::is_finite(b) && !crate::double::is_signed(b) <==> b < 0x7ff0_0000_0000_0000,
{
    assert(((b / 0x10_0000_0000_0000) % 0x800 != 0x7ff) == (b % 0x8000_0000_0000_0000
        < 0x7ff0_0000_0000_0000)) by (bit_vector);
    assert(b < 0x8000_0000_0000_0000 ==> b % 0x8000_0000_0000_0000 == b) by (bit_vector);
}

/// A rectangle is kept if and only if it has a finite place and finite sides above zero; only its
/// rounding may change, to none, where it is negative or no number.
pub proof fn drawable_rectangles_are_kept(r: CoverRect, s: Option<CoverRect>)
    requires
        call_ensures(CoverRect::sane, (&r,), s),
    ensures
        s is Some <==> can_be_drawn(r),
        s matches Some(t) ==> is_same_rect(t, r),
{
    sane_in_bits(r);
}

/// The number of a fill is read back as that fill.
pub proof fn fills_have_numbers(v: u32, f: Fill, n: u32)
    requires
        call_ensures(Fill::from_raw, (v,), f),
        call_ensures(Fill::code, (f,), n),
    ensures
        n == (if v == 1 {
            1u32
        } else {
            0u32
        }),
        n == 1 <==> f == Fill::WindowCover,
{
}

/// The rectangles of one client on a monitor, in its order.
pub open spec fn seen_of(rects: Seq<MonitorRect>, monitor: i64) -> Seq<CoverRect>
    decreases rects.len(),
{
    if rects.len() == 0 {
        Seq::empty()
    } else if rects[0].monitor == monitor {
        seq![rects[0].rect] + seen_of(rects.drop_first(), monitor)
    } else {
        seen_of(rects.drop_first(), monitor)
    }
}

/// The rectangles on a monitor, client by client.
pub open spec fn seen(list: Seq<Client>, monitor: i64) -> Seq<CoverRect>
    decreases list.len(),
{
    if list.len() == 0 {
        Seq::empty()
    } else {
        seen_of(list[0].rects@, monitor) + seen(list.drop_first(), monitor)
    }
}

proof fn seen_of_here(rects: Seq<MonitorRect>, monitor: i64)
    ensures
        crate::extra::shown_on(rects, monitor) == seen_of(rects, monitor),
    decreases rects.len(),
{
    if rects.len() > 0 {
        let (one, rest) = (seq![rects[0]], rects.drop_first());
        assert(one + rest =~= rects);
        crate::extra::shown_joins(one, rest, monitor);
        seen_of_here(rest, monitor);
        assert(one.drop_last() =~= Seq::empty());
        assert(crate::extra::shown_on(one.drop_last(), monitor) =~= Seq::empty());
        assert(crate::extra::shown_on(one, monitor) =~= (if rects[0].monitor == monitor {
            seq![rects[0].rect]
        } else {
            Seq::empty()
        }));
        assert(crate::extra::shown_on(rects, monitor) =~= seen_of(rects, monitor));
    }
}

proof fn all_on_first(list: Seq<Client>, monitor: i64)
    requires
        list.len() > 0,
    ensures
        crate::extra::all_on(list, monitor) == crate::extra::shown_on(list[0].rects@, monitor)
            + crate::extra::all_on(list.drop_first(), monitor),
    decreases list.len(),
{
    if list.len() == 1 {
        assert(list.drop_last() =~= Seq::empty());
        assert(list.drop_first() =~= Seq::empty());
        assert(crate::extra::all_on(list.drop_last(), monitor) =~= Seq::empty());
        assert(crate::extra::all_on(list, monitor) =~= crate::extra::shown_on(
            list[0].rects@,
            monitor,
        ) + crate::extra::all_on(list.drop_first(), monitor));
    } else {
        all_on_first(list.drop_last(), monitor);
        assert(list.drop_last().drop_first() =~= list.drop_first().drop_last());
        assert(crate::extra::all_on(list, monitor) =~= crate::extra::shown_on(
            list[0].rects@,
            monitor,
        ) + crate::extra::all_on(list.drop_first(), monitor));
    }
}

proof fn seen_here(list: Seq<Client>, monitor: i64)
    ensures
        crate::extra::all_on(list, monitor) == seen(list, monitor),
    decreases list.len(),
{
    if list.len() > 0 {
        all_on_first(list, monitor);
        seen_of_here(list[0].rects@, monitor);
        seen_here(list.drop_first(), monitor);
    }
}

/// A monitor shows its rectangles of all clients and no others, client by client, each client's in
/// its order; as many of them as there is room for are handed out, field by field.
pub proof fn a_monitor_shows_its_rectangles(
    c: Clients,
    monitor: i64,
    cap: usize,
    all: Vec<CoverRect>,
    r: (Vec<NscExtraRect>, usize),
)
    requires
        call_ensures(for_monitor, (&c, monitor), all),
        call_ensures(nsc_extra_rects, (&c, monitor, cap), r),
    ensures
        all@ == seen(c.list@, monitor),
        r.1 == all@.len(),
        r.0@.len() <= cap && r.0@.len() <= r.1 && (r.0@.len() == cap || r.0@.len() == r.1),
        forall|i: int| 0 <= i < r.0@.len() ==> is_handed_out(#[trigger] r.0@[i], all@[i]),
{
    seen_here(c.list@, monitor);
}

/// A rectangle as it is handed out.
pub open spec fn is_handed_out(o: NscExtraRect, r: CoverRect) -> bool {
    &&& o.x == r.x && o.y == r.y && o.w == r.w && o.h == r.h
    &&& o.rounding == r.rounding && o.window == r.window
    &&& o.fill == (if r.fill == Fill::WindowCover {
        1u32
    } else {
        0u32
    })
}

/// The rectangles that can be drawn, in order, each as it can be drawn.
pub open spec fn drawable_of(rects: Seq<CoverRect>) -> Seq<CoverRect>
    decreases rects.len(),
{
    if rects.len() == 0 {
        Seq::empty()
    } else if can_be_drawn(rects[0]) {
        seq![
            CoverRect {
                rounding: if rects[0].rounding < 0x7ff0_0000_0000_0000 {
                    rects[0].rounding
                } else {
                    0
                },
                ..rects[0]
            },
        ] + drawable_of(rects.drop_first())
    } else {
        drawable_of(rects.drop_first())
    }
}

spec fn rects_of(m: Seq<MonitorRect>) -> Seq<CoverRect> {
    m.map_values(|r: MonitorRect| r.rect)
}

proof fn placed_joins(a: Seq<CoverRect>, b: Seq<CoverRect>, monitor: i64)
    ensures
        crate::extra::placed(a + b, monitor) == crate::extra::placed(a, monitor)
            + crate::extra::placed(b, monitor),
    decreases b.len(),
{
    if b.len() == 0 {
        assert(a + b =~= a);
        assert(crate::extra::placed(a, monitor) + crate::extra::placed(b, monitor)
            =~= crate::extra::placed(a, monitor));
    } else {
        placed_joins(a, b.drop_last(), monitor);
        assert((a + b).drop_last() =~= a + b.drop_last());
        assert(crate::extra::placed(a + b, monitor) =~= crate::extra::placed(a, monitor)
            + crate::extra::placed(b, monitor));
    }
}

proof fn placed_are_drawable(rects: Seq<CoverRect>, monitor: i64)
    ensures
        rects_of(crate::extra::placed(rects, monitor)) == drawable_of(rects),
        crate::extra::placed(rects, monitor).len() <= rects.len(),
    decreases rects.len(),
{
    if rects.len() == 0 {
        assert(rects_of(crate::extra::placed(rects, monitor)) =~= drawable_of(rects));
    } else {
        let (one, rest) = (seq![rects[0]], rects.drop_first());
        assert(one + rest =~= rects);
        placed_joins(one, rest, monitor);
        placed_are_drawable(rest, monitor);
        sane_in_bits(rects[0]);
        assert(one.drop_last() =~= Seq::empty());
        assert(crate::extra::placed(one.drop_last(), monitor) =~= Seq::empty());
        assert(rects_of(crate::extra::placed(rects, monitor)) =~= drawable_of(rects));
    }
}

/// `set_rects` made `b` of `a` and gave `r`: the client, if it is there, shows on the monitor the
/// rectangles that can be drawn and no others, in their order, as far as it may hold them; its
/// other monitors and the other clients are as they were.
pub open spec fn was_set(
    a: Clients,
    b: Clients,
    id: u64,
    monitor: i64,
    rects: Seq<CoverRect>,
    r: bool,
) -> bool {
    &&& r <==> exists|i: int| 0 <= i < a.list@.len() && (#[trigger] a.list@[i]).id == id
    &&& b.list@.len() == a.list@.len()
    &&& b.next_id == a.next_id
    &&& forall|i: int|
        0 <= i < a.list@.len() && a.list@[i].id != id ==> #[trigger] b.list@[i] == a.list@[i]
    &&& forall|i: int, other: i64|
        #![trigger seen_of(b.list@[i].rects@, other)]
        0 <= i < a.list@.len() && other != monitor ==> seen_of(b.list@[i].rects@, other) == seen_of(
            a.list@[i].rects@,
            other,
        )
    &&& forall|i: int|
        0 <= i < a.list@.len() && a.list@[i].id == id ==> {
            let now = seen_of((#[trigger] b.list@[i]).rects@, monitor);
            &&& b.list@[i].id == id && b.list@[i].name == a.list@[i].name
            &&& b.list@[i].rects@.len() <= 4096
            &&& a.list@[i].rects@.len() + rects.len() <= 4096 ==> now == drawable_of(rects)
            &&& now.len() <= drawable_of(rects).len() && now == drawable_of(rects).take(
                now.len() as int,
            )
        }
}

proof fn was_set_here(
    a: Clients,
    b: Clients,
    id: u64,
    monitor: i64,
    rects: Seq<CoverRect>,
    r: bool,
)
    requires
        a.wf(),
        b.wf(),
        crate::extra::rects_set(a, b, id, monitor, rects, r),
    ensures
        was_set(a, b, id, monitor, rects, r),
{
    placed_are_drawable(rects, monitor);
    assert forall|i: int, other: i64|
        #![trigger seen_of(b.list@[i].rects@, other)]
        0 <= i < a.list@.len() && other != monitor implies seen_of(b.list@[i].rects@, other)
        == seen_of(a.list@[i].rects@, other) by {
        if a.list@[i].id == id {
            assert(a.has(id));
            crate::extra::a_monitor_is_replaced_at_once(a.list@[i].rects@, monitor, rects, other);
            seen_of_here(b.list@[i].rects@, other);
            seen_of_here(a.list@[i].rects@, other);
        } else {
            assert(b.list@[i] == a.list@[i]);
        }
    }
    assert forall|i: int| 0 <= i < a.list@.len() && a.list@[i].id == id implies {
        let now = seen_of((#[trigger] b.list@[i]).rects@, monitor);
        &&& b.list@[i].id == id && b.list@[i].name == a.list@[i].name
        &&& b.list@[i].rects@.len() <= 4096
        &&& a.list@[i].rects@.len() + rects.len() <= 4096 ==> now == drawable_of(rects)
        &&& now.len() <= drawable_of(rects).len() && now == drawable_of(rects).take(
            now.len() as int,
        )
    } by {
        assert(a.has(id));
        let old_rects = a.list@[i].rects@;
        crate::extra::a_monitor_is_replaced_at_once(old_rects, monitor, rects, monitor);
        seen_of_here(b.list@[i].rects@, monitor);
        old_rects.filter_lemma(|r: MonitorRect| r.monitor != monitor);
        let kept = crate::extra::elsewhere(old_rects, monitor);
        let placed = crate::extra::placed(rects, monitor);
        let added = crate::extra::at_most(placed, 4096 - kept.len());
        let now = seen_of(b.list@[i].rects@, monitor);
        assert(now == rects_of(added));
        assert(now =~= drawable_of(rects).take(now.len() as int));
    }
}

/// What is set on a monitor is what the client shows there.
pub proof fn what_is_set_is_shown()
    ensures
        forall|m: &mut Clients, id: u64, monitor: i64, rects: &[CoverRect], r: bool| #[trigger]
            call_ensures(set_rects, (m, id, monitor, rects), r) && m.wf() ==> was_set(
                *m,
                *final(m),
                id,
                monitor,
                rects@,
                r,
            ),
{
    assert forall|m: &mut Clients, id: u64, monitor: i64, rects: &[CoverRect], r: bool| #[trigger]
        call_ensures(set_rects, (m, id, monitor, rects), r) && m.wf() implies was_set(
        *m,
        *final(m),
        id,
        monitor,
        rects@,
        r,
    ) by {
        was_set_here(*m, *final(m), id, monitor, rects@, r);
    }
}

/// A client stays in place, or all its rectangles go.
pub open spec fn was_cleared(a: Clients, b: Clients, id: u64, r: bool) -> bool {
    &&& r <==> exists|i: int| 0 <= i < a.list@.len() && (#[trigger] a.list@[i]).id == id
    &&& b.list@.len() == a.list@.len()
    &&& forall|i: int|
        0 <= i < a.list@.len() ==> (#[trigger] b.list@[i]).id == a.list@[i].id && b.list@[i].name
            == a.list@[i].name && b.list@[i].rects@ == (if a.list@[i].id == id {
            Seq::empty()
        } else {
            a.list@[i].rects@
        })
}

/// The client `id` is gone, and every other one is there with its rectangles.
pub open spec fn was_removed(a: Clients, b: Clients, id: u64) -> bool {
    &&& forall|j: int| 0 <= j < b.list@.len() ==> (#[trigger] b.list@[j]).id != id && a.list@.contains(
        b.list@[j],
    )
    &&& forall|i: int|
        0 <= i < a.list@.len() && a.list@[i].id != id ==> b.list@.contains(#[trigger] a.list@[i])
    &&& b.list@.len() <= a.list@.len()
    &&& b.next_id == a.next_id
}

proof fn was_removed_here(a: Clients, b: Clients, id: u64)
    requires
        crate::extra::unregistered(a, b, id),
    ensures
        was_removed(a, b, id),
{
    let f = |cl: Client| cl.id != id;
    a.list@.filter_lemma(f);
    assert forall|i: int| 0 <= i < a.list@.len() && a.list@[i].id != id implies b.list@.contains(
        #[trigger] a.list@[i],
    ) by {
        assert(f(a.list@[i]));
        assert(a.list@.filter(f).contains(a.list@[i]));
    }
    assert forall|j: int| 0 <= j < b.list@.len() implies (#[trigger] b.list@[j]).id != id
        && a.list@.contains(b.list@[j]) by {
        assert(f(a.list@.filter(f)[j]));
        kept_were_there(a.list@, f, j);
    }
}

proof fn kept_were_there(s: Seq<Client>, f: spec_fn(Client) -> bool, j: int)
    requires
        0 <= j < s.filter(f).len(),
    ensures
        s.contains(s.filter(f)[j]),
    decreases s.len(),
{
    reveal(Seq::filter);
    if s.len() > 0 {
        let rest = s.drop_last();
        if j < rest.filter(f).len() {
            kept_were_there(rest, f, j);
            let i = choose|i: int| 0 <= i < rest.len() && rest[i] == rest.filter(f)[j];
            assert(s[i] == s.filter(f)[j]);
        } else {
            assert(s[s.len() - 1] == s.filter(f)[j]);
        }
    }
}

/// A client can be cleared and taken away, and nobody else notices; the summary counts what each
/// one holds.
pub proof fn nobody_else_notices(c: Clients, summary: Vec<(String, usize)>)
    requires
        call_ensures(debug_summary, (&c,), summary),
    ensures
        forall|m: &mut Clients, id: u64, r: bool| #[trigger]
            call_ensures(clear_client, (m, id), r) ==> was_cleared(*m, *final(m), id, r),
        forall|m: &mut Clients, id: u64| #[trigger]
            call_ensures(unregister, (m, id), ()) ==> was_removed(*m, *final(m), id),
        summary@.len() == c.list@.len(),
        forall|i: int|
            0 <= i < c.list@.len() ==> (#[trigger] summary@[i]).0@ == c.list@[i].name@
                && summary@[i].1 == c.list@[i].rects@.len(),
{
    assert forall|m: &mut Clients, id: u64, r: bool| #[trigger]
        call_ensures(clear_client, (m, id), r) implies was_cleared(*m, *final(m), id, r) by {
        was_cleared_here(*m, *final(m), id, r);
    }
    assert forall|m: &mut Clients, id: u64| #[trigger]
        call_ensures(unregister, (m, id), ()) implies was_removed(*m, *final(m), id) by {
        was_removed_here(*m, *final(m), id);
    }
}

proof fn was_cleared_here(a: Clients, b: Clients, id: u64, r: bool)
    requires
        crate::extra::client_cleared(a, b, id, r),
    ensures
        was_cleared(a, b, id, r),
{
    assert forall|i: int| 0 <= i < a.list@.len() implies (#[trigger] b.list@[i]).id
        == a.list@[i].id && b.list@[i].name == a.list@[i].name && b.list@[i].rects@ == (
    if a.list@[i].id == id {
        Seq::empty()
    } else {
        a.list@[i].rects@
    }) by {
        if a.list@[i].id == id {
            assert(a.has(id));
        } else if r {
            assert(b.list@[i] == a.list@[i]);
        }
    }
}

/// `register` made `b` of `a`: the new client comes last, with the first 64 characters of its name
/// and without rectangles, under a number that nobody had.
pub open spec fn was_registered(a: Clients, b: Clients, name: Seq<char>, id: u64) -> bool {
    &&& id == a.next_id && b.next_id == id + 1
    &&& b.list@.len() == a.list@.len() + 1
    &&& forall|i: int| 0 <= i < a.list@.len() ==> #[trigger] b.list@[i] == a.list@[i]
    &&& forall|i: int| 0 <= i < a.list@.len() ==> (#[trigger] a.list@[i]).id != id
    &&& b.list@[a.list@.len() as int].id == id
    &&& b.list@[a.list@.len() as int].rects@.len() == 0
    &&& b.list@[a.list@.len() as int].name@ == name.take(
        if name.len() < 64 {
            name.len() as int
        } else {
            64
        },
    )
}

proof fn was_registered_here(a: Clients, b: Clients, name: Seq<char>, id: u64)
    requires
        crate::extra::registered(a, b, name, id),
    ensures
        was_registered(a, b, name, id),
{
    assert forall|i: int| 0 <= i < a.list@.len() implies #[trigger] b.list@[i] == a.list@[i] by {
        assert(b.list@.drop_last()[i] == a.list@[i]);
    }
    assert(name.take(name.len() as int) =~= name);
}

/// A new client comes last, with a number of its own.
pub proof fn a_new_client_comes_last()
    ensures
        forall|m: &mut Clients, name: &str, id: u64| #[trigger]
            call_ensures(register, (m, name), id) ==> was_registered(*m, *final(m), name@, id),
{
    assert forall|m: &mut Clients, name: &str, id: u64| #[trigger]
        call_ensures(register, (m, name), id) implies was_registered(
        *m,
        *final(m),
        name@,
        id,
    ) by {
        was_registered_here(*m, *final(m), name@, id);
    }
}

/// Of the first version: the client 1, called "legacy", holds `rects` afterwards, and the other
/// clients are as they were, in their order.
pub open spec fn has_legacy(a: Clients, b: Clients, rects: Seq<MonitorRect>) -> bool {
    &&& b.next_id == a.next_id
    &&& b.list@.len() == a.list@.len() + (if exists|i: int|
        0 <= i < a.list@.len() && (#[trigger] a.list@[i]).id == 1 {
        0int
    } else {
        1int
    })
    &&& forall|i: int|
        0 <= i < a.list@.len() ==> (#[trigger] b.list@[i]).id == a.list@[i].id && b.list@[i].name@
            == a.list@[i].name@ && (a.list@[i].id != 1 ==> b.list@[i].rects@ == a.list@[i].rects@)
    &&& b.list@.len() > a.list@.len() ==> b.list@[a.list@.len() as int].id == 1
        && b.list@[a.list@.len() as int].name@ == "legacy"@
    &&& forall|i: int|
        0 <= i < b.list@.len() && (#[trigger] b.list@[i]).id == 1 ==> b.list@[i].rects@ == rects
}

/// The rectangles of the first version.
pub open spec fn legacy_rects(a: Clients, rects: Seq<MonitorRect>) -> bool {
    &&& forall|i: int|
        0 <= i < a.list@.len() && (#[trigger] a.list@[i]).id == 1 ==> a.list@[i].rects@ == rects
    &&& (forall|i: int| 0 <= i < a.list@.len() ==> (#[trigger] a.list@[i]).id != 1) ==> rects.len()
        == 0
}

proof fn legacy_here(a: Clients, b: Clients, was: Seq<MonitorRect>, rects: Seq<MonitorRect>)
    requires
        a.wf(),
        legacy_rects(a, was),
        b.next_id == a.next_id,
        crate::extra::contents(&b).len() == crate::extra::with_legacy(&a).len(),
        forall|i: int|
            0 <= i < crate::extra::contents(&b).len() ==> #[trigger] crate::extra::contents(&b)[i]
                == (if crate::extra::with_legacy(&a)[i].0 == 1u64 {
                (1u64, crate::extra::with_legacy(&a)[i].1, rects)
            } else {
                crate::extra::with_legacy(&a)[i]
            }),
    ensures
        has_legacy(a, b, rects),
{
    let n = a.list@.len() as int;
    assert(a.has(1) <==> exists|i: int| 0 <= i < n && (#[trigger] a.list@[i]).id == 1);
    assert forall|i: int| 0 <= i < b.list@.len() implies {
        &&& (#[trigger] b.list@[i]).id == crate::extra::with_legacy(&a)[i].0
        &&& b.list@[i].name@ == crate::extra::with_legacy(&a)[i].1
        &&& b.list@[i].rects@ == (if crate::extra::with_legacy(&a)[i].0 == 1 {
            rects
        } else {
            crate::extra::with_legacy(&a)[i].2
        })
    } by {
        assert(crate::extra::contents(&b)[i] == (
            b.list@[i].id,
            b.list@[i].name@,
            b.list@[i].rects@,
        ));
    }
    assert forall|i: int| 0 <= i < n implies #[trigger] crate::extra::with_legacy(&a)[i] == (
        a.list@[i].id,
        a.list@[i].name@,
        a.list@[i].rects@,
    ) by {
        assert(crate::extra::contents(&a)[i] == (
            a.list@[i].id,
            a.list@[i].name@,
            a.list@[i].rects@,
        ));
    }
}

/// The first version: clearing drops its rectangles, and adding puts one black rectangle behind
/// those that are there, at its place, if it can be drawn and there is room for it.
pub proof fn the_first_version_adds_and_clears()
    ensures
        forall|m: &mut Clients| #[trigger]
            call_ensures(legacy_clear, (m,), ()) && m.wf() ==> has_legacy(
                *m,
                *final(m),
                Seq::empty(),
            ),
        forall|
            m: &mut Clients,
            monitor: i64,
            x: u64,
            y: u64,
            w: u64,
            h: u64,
            rounding: u64,
            was: Seq<MonitorRect>,
        |
            #![trigger call_ensures(legacy_add, (m, monitor, x, y, w, h, rounding), ()), legacy_rects(*m, was)]
            call_ensures(legacy_add, (m, monitor, x, y, w, h, rounding), ()) && m.wf()
                && legacy_rects(*m, was) ==> was_added(
                *m,
                *final(m),
                was,
                monitor,
                (CoverRect { x, y, w, h, rounding, window: 0, fill: Fill::Black }),
            ),
{
    assert forall|m: &mut Clients| #[trigger]
        call_ensures(legacy_clear, (m,), ()) && m.wf() implies has_legacy(
        *m,
        *final(m),
        Seq::empty(),
    ) by {
        some_legacy_rects(*m);
        let was = choose|was: Seq<MonitorRect>| legacy_rects(*m, was);
        legacy_here(*m, *final(m), was, Seq::empty());
    }
    assert forall|
        m: &mut Clients,
        monitor: i64,
        x: u64,
        y: u64,
        w: u64,
        h: u64,
        rounding: u64,
        was: Seq<MonitorRect>,
    |
        #![trigger call_ensures(legacy_add, (m, monitor, x, y, w, h, rounding), ()), legacy_rects(*m, was)]
        call_ensures(legacy_add, (m, monitor, x, y, w, h, rounding), ()) && m.wf() && legacy_rects(
            *m,
            was,
        ) implies was_added(
        *m,
        *final(m),
        was,
        monitor,
        (CoverRect { x, y, w, h, rounding, window: 0, fill: Fill::Black }),
    ) by {
        was_added_here(
            *m,
            *final(m),
            was,
            monitor,
            CoverRect { x, y, w, h, rounding, window: 0, fill: Fill::Black },
        );
    }
}

proof fn some_legacy_rects(a: Clients)
    requires
        a.wf(),
    ensures
        exists|was: Seq<MonitorRect>| legacy_rects(a, was),
{
    if a.has(1) {
        let k = choose|i: int| 0 <= i < a.list@.len() && (#[trigger] a.list@[i]).id == 1;
        assert forall|i: int|
            0 <= i < a.list@.len() && (#[trigger] a.list@[i]).id == 1 implies a.list@[i].rects@
            == a.list@[k].rects@ by {
            if i < k {
                assert(a.list@[i].id != a.list@[k].id);
            } else if k < i {
                assert(a.list@[k].id != a.list@[i].id);
            }
        }
        assert(legacy_rects(a, a.list@[k].rects@));
    } else {
        assert(legacy_rects(a, Seq::empty()));
    }
}

/// One rectangle more, or everything as it was.
pub open spec fn was_added(
    a: Clients,
    b: Clients,
    was: Seq<MonitorRect>,
    monitor: i64,
    rect: CoverRect,
) -> bool {
    if !can_be_drawn(rect) {
        b == a
    } else if was.len() >= 4096 {
        has_legacy(a, b, was)
    } else {
        exists|one: MonitorRect|
            one.monitor == monitor && is_same_rect(one.rect, rect) && #[trigger] has_legacy(
                a,
                b,
                was.push(one),
            )
    }
}

proof fn was_added_here(
    a: Clients,
    b: Clients,
    was: Seq<MonitorRect>,
    monitor: i64,
    rect: CoverRect,
)
    requires
        a.wf(),
        legacy_rects(a, was),
        crate::extra::legacy_added(a, b, monitor, rect),
    ensures
        was_added(a, b, was, monitor, rect),
{
    sane_in_bits(rect);
    if let Some(r) = crate::extra::sane_rect(rect) {
        let one = MonitorRect { monitor, rect: r };
        let now = if was.len() < 4096 {
            was.push(one)
        } else {
            was
        };
        assert forall|i: int| 0 <= i < crate::extra::contents(&b).len() implies #[trigger]
        crate::extra::contents(&b)[i] == (if crate::extra::with_legacy(&a)[i].0 == 1u64 {
            (1u64, crate::extra::with_legacy(&a)[i].1, now)
        } else {
            crate::extra::with_legacy(&a)[i]
        }) by {
            if i < a.list@.len() {
                assert(crate::extra::contents(&a)[i] == (
                    a.list@[i].id,
                    a.list@[i].name@,
                    a.list@[i].rects@,
                ));
            } else {
                assert(!a.has(1));
                assert(was =~= Seq::empty());
            }
        }
        legacy_here(a, b, was, now);
        if was.len() < 4096 {
            assert(has_legacy(a, b, was.push(one)));
        }
    }
}

/// At first there is no client; one is found by its number, and only if it is there.
pub proof fn clients_are_found_by_number(c: Clients, id: u64, r: Option<usize>)
    ensures
        call_ensures(Clients::new, (), c) ==> c.list@.len() == 0 && c.next_id
            == 2,
        call_ensures(Clients::position, (&c, id), r) ==> (r matches Some(i) ==> i < c.list@.len()
            && c.list@[i as int].id == id) && (r is None ==> forall|i: int|
            0 <= i < c.list@.len() ==> (#[trigger] c.list@[i]).id != id),
{
}

/// After a reset there is no client, and the next one gets the number 2 again.
pub proof fn a_reset_forgets_everything()
    ensures
        forall|c: &mut Clients| #[trigger]
            call_ensures(crate::extra::reset, (c,), ()) ==> final(c).list@.len() == 0 && final(c).next_id == 2,
{
}

/// The interface is the second; the client of the first one has the number 1.
pub proof fn the_interface_is_the_second()
    ensures
        crate::extra::API_VERSION == 2,
        crate::extra::LEGACY_CLIENT == 1,
{
}

} // verus!
