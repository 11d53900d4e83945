//! Laws of notifications.

use crate::notify::Notifier;
use vstd::prelude::*;

verus! {

/// `msg` is the message that came last.
pub open spec fn came_last(n: Notifier, msg: Seq<char>) -> bool {
    n.last matches Some(m) && m@ == msg
}

/// The messages of `b` are those of `a` from the `from`th on.
pub open spec fn goes_on(a: Notifier, b: Notifier, from: int) -> bool {
    forall|i: int|
        0 <= i && i + from < a.queue@.len() ==> (#[trigger] b.queue@[i])@ == a.queue@[i + from]@
}

/// `msg` was added to the messages of `a`: it waits behind them, unless it came last. Of sixteen
/// that wait already, the first leaves.
pub open spec fn was_added(a: Notifier, b: Notifier, msg: Seq<char>) -> bool {
    if came_last(a, msg) {
        &&& b.queue@.len() == a.queue@.len()
        &&& goes_on(a, b, 0)
        &&& came_last(b, msg)
    } else {
        &&& came_last(b, msg)
        &&& b.queue@.len() == (if a.queue@.len() < 16 {
            a.queue@.len() + 1
        } else {
            a.queue@.len()
        })
        &&& b.queue@.last()@ == msg
        &&& goes_on(
            a,
            b,
            if a.queue@.len() < 16 {
                0
            } else {
                1
            },
        )
    }
}

proof fn texts_of(n: Notifier)
    ensures
        n@.1.len() == n.queue@.len(),
        forall|i: int| 0 <= i < n.queue@.len() ==> #[trigger] n@.1[i] == n.queue@[i]@,
        n.last is Some <==> n@.0 is Some,
        n.last matches Some(m) ==> n@.0 == Some(m@),
{
}

/// What a push does to the notes is an addition.
pub proof fn is_added(a: Notifier, b: Notifier, msg: Seq<char>)
    requires
        b@ == crate::notify::pushed(a@, msg),
    ensures
        was_added(a, b, msg),
{
    texts_of(a);
    texts_of(b);
    assert(b.queue@.len() > 0 ==> b@.1.last() == b.queue@.last()@);
    let from: int = if came_last(a, msg) || a.queue@.len() < 16 {
        0
    } else {
        1
    };
    assert forall|i: int| 0 <= i && i + from < a.queue@.len() implies (#[trigger] b.queue@[i])@
        == a.queue@[i + from]@ by {
        assert(b@.1[i] == b.queue@[i]@);
        assert(a@.1[i + from] == a.queue@[i + from]@);
    }
}

/// A message waits behind the others. It does not come twice in a row, and no more than sixteen
/// wait.
pub proof fn messages_wait_in_order(first: Notifier)
    ensures
        call_ensures(<Notifier as Default>::default, (), first) ==> first.queue@.len() == 0
            && first.last is None,
        forall|n: &mut Notifier, msg: String|
            #[trigger] call_ensures(Notifier::push, (n, msg), ()) ==> was_added(*n, *final(n), msg@),
{
    texts_of(first);
    assert forall|n: &mut Notifier, msg: String| #[trigger]
        call_ensures(Notifier::push, (n, msg), ()) implies was_added(*n, *final(n), msg@) by {
        is_added(*n, *final(n), msg@);
    }
}

/// `r` is the first message of `a`, and `b` has the others.
pub open spec fn was_taken(a: Notifier, b: Notifier, r: Option<String>) -> bool {
    &&& r is Some <==> a.queue@.len() > 0
    &&& r matches Some(m) ==> m@ == a.queue@[0]@ && b.queue@.len() == a.queue@.len() - 1
    &&& r is None ==> b.queue@.len() == 0
    &&& goes_on(a, b, 1)
    &&& b.last is Some <==> a.last is Some
    &&& b.last matches Some(m) ==> came_last(a, m@)
}

proof fn is_taken(a: Notifier, b: Notifier, r: Option<String>)
    requires
        match r {
            Some(m) => {
                &&& a@.1.len() > 0
                &&& m@ == a@.1.first()
                &&& b@ == (a@.0, a@.1.drop_first())
            },
            None => a@.1.len() == 0 && b@ == a@,
        },
    ensures
        was_taken(a, b, r),
{
    texts_of(a);
    texts_of(b);
    if a.queue@.len() > 0 {
        assert(a@.1[0] == a.queue@[0]@);
    }
    assert forall|i: int| 0 <= i && i + 1 < a.queue@.len() implies (#[trigger] b.queue@[i])@
        == a.queue@[i + 1]@ by {
        assert(b@.1[i] == b.queue@[i]@);
        assert(a@.1[i + 1] == a.queue@[i + 1]@);
    }
}

/// Where the first message left the notes, it was taken.
pub proof fn is_taken_text(a: Notifier, b: Notifier)
    requires
        a@.1.len() > 0,
        b@ == (a@.0, a@.1.drop_first()),
    ensures
        b.queue@.len() == a.queue@.len() - 1,
        goes_on(a, b, 1),
        b.last is Some <==> a.last is Some,
{
    assert(a@.1.first() == a.queue@[0]@);
    is_taken(a, b, Some(a.queue@[0]));
}

/// The message that waits longest is taken first.
pub proof fn the_oldest_message_is_taken()
    ensures
        forall|n: &mut Notifier, r: Option<String>|
            #[trigger] call_ensures(Notifier::pop, (n,), r) ==> was_taken(*n, *final(n), r),
{
    assert forall|n: &mut Notifier, r: Option<String>| #[trigger]
        call_ensures(Notifier::pop, (n,), r) implies was_taken(*n, *final(n), r) by {
        is_taken(*n, *final(n), r);
    }
}

/// The messages of `b` are those of `a`, and none came last.
pub open spec fn was_reset(a: Notifier, b: Notifier) -> bool {
    &&& b.last is None
    &&& b.queue@.len() == a.queue@.len()
    &&& goes_on(a, b, 0)
}

/// What a reset does to the notes is a reset.
pub proof fn is_reset(a: Notifier, b: Notifier)
    requires
        b@ == (None::<Seq<char>>, a@.1),
    ensures
        was_reset(a, b),
{
    texts_of(a);
    texts_of(b);
    assert forall|i: int| 0 <= i && i + 0 < a.queue@.len() implies (#[trigger] b.queue@[i])@
        == a.queue@[i + 0]@ by {
        assert(b@.1[i] == b.queue@[i]@);
        assert(a@.1[i] == a.queue@[i]@);
    }
}

/// A reset forgets which message came last, and no message that waits.
pub proof fn a_reset_keeps_the_messages()
    ensures
        forall|n: &mut Notifier|
            #[trigger] call_ensures(Notifier::reset, (n,), ()) ==> was_reset(*n, *final(n)),
{
    assert forall|n: &mut Notifier| #[trigger] call_ensures(Notifier::reset, (n,), ()) implies
        was_reset(*n, *final(n)) by {
        is_reset(*n, *final(n));
    }
}

} // verus!
