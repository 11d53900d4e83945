//! Notifications for the user. The same message is never repeated back to back; otherwise an
//! error in the configuration would fill the screen with every frame.

use crate::text::same;
use std::collections::VecDeque;
use vstd::prelude::*;
use vstd::string::*;

verus! {

/// How many messages wait at most.
pub const QUEUE: usize = 16;

/// Messages that wait for the user.
#[derive(Debug)]
pub struct Notifier {
    pub last: Option<String>,
    pub queue: VecDeque<String>,
}

/// The last message, and the messages that wait.
pub type Notes = (Option<Seq<char>>, Seq<Seq<char>>);

impl View for Notifier {
    type V = Notes;

    open spec fn view(&self) -> Notes {
        (
            match self.last {
                Some(m) => Some(m@),
                None => None,
            },
            self.queue@.map_values(|m: String| m@),
        )
    }
}

/// The notes after a message. The message that came last is not repeated; where the queue is
/// full the oldest message leaves.
pub open spec fn pushed(n: Notes, msg: Seq<char>) -> Notes {
    if n.0 == Some(msg) {
        n
    } else {
        (
            Some(msg),
            (if n.1.len() >= QUEUE {
                n.1.drop_first()
            } else {
                n.1
            }).push(msg),
        )
    }
}

impl Default for Notifier {
    fn default() -> (r: Notifier)
        ensures
            r.wf(),
            r@ == (None::<Seq<char>>, Seq::<Seq<char>>::empty()),
    {
        let r = Notifier { last: None, queue: VecDeque::new() };
        assert(r@.1 =~= Seq::<Seq<char>>::empty());
        r
    }
}

impl Notifier {
    /// The queue is bounded.
    pub open spec fn wf(&self) -> bool {
        self.queue@.len() <= QUEUE
    }

    /// Adds a message.
    pub fn push(&mut self, msg: String)
        requires
            old(self).wf(),
        ensures
            final(self).wf(),
            final(self)@ == pushed(old(self)@, msg@),
    {
        let repeated = match &self.last {
            Some(l) => same(l.as_str(), msg.as_str()),
            None => false,
        };
        if repeated {
            return ;
        }
        self.last = Some(msg.clone());
        // the queue stays bounded if nobody drains it
        if self.queue.len() >= QUEUE {
            let _ = self.queue.pop_front();
            assert(self.queue@.map_values(|m: String| m@) =~= old(self)@.1.drop_first());
        }
        let ghost before = self.queue@;
        self.queue.push_back(msg);
        assert(self.queue@.map_values(|m: String| m@) =~= before.map_values(
            |m: String| m@,
        ).push(msg@));
    }

    /// After a change of the configuration, earlier errors may be shown again.
    pub fn reset(&mut self)
        requires
            old(self).wf(),
        ensures
            final(self).wf(),
            final(self)@ == (None::<Seq<char>>, old(self)@.1),
    {
        self.last = None;
    }

    /// Takes the oldest message.
    pub fn pop(&mut self) -> (r: Option<String>)
        requires
            old(self).wf(),
        ensures
            final(self).wf(),
            match r {
                Some(m) => {
                    &&& old(self)@.1.len() > 0
                    &&& m@ == old(self)@.1.first()
                    &&& final(self)@ == (old(self)@.0, old(self)@.1.drop_first())
                },
                None => old(self)@.1.len() == 0 && final(self)@ == old(self)@,
            },
    {
        let r = self.queue.pop_front();
        proof {
            if r is Some {
                assert(self.queue@.map_values(|m: String| m@) =~= old(self)@.1.drop_first());
            }
        }
        r
    }
}

/// A message that is repeated at once is shown once.
pub proof fn repeats_are_dropped(n: Notes, msg: Seq<char>)
    ensures
        pushed(pushed(n, msg), msg) == pushed(n, msg),
{
}

/// Whatever is pushed, the queue stays bounded and ends with the last message.
pub proof fn queue_is_bounded(n: Notes, msg: Seq<char>)
    requires
        n.1.len() <= QUEUE,
    ensures
        pushed(n, msg).1.len() <= QUEUE,
        n.0 != Some(msg) ==> pushed(n, msg).1.last() == msg,
{
}

/// After a reset the last message may be shown once more.
pub proof fn reset_allows_a_repeat(n: Notes, msg: Seq<char>)
    requires
        n.1.len() < QUEUE,
    ensures
        pushed((None::<Seq<char>>, n.1), msg).1 == n.1.push(msg),
{
}

/// What happens to a notifier.
pub enum Op {
    Push(Seq<char>),
    Pop,
    Reset,
}

/// A queue after its oldest item was taken.
pub open spec fn popped<A>(queue: Seq<A>) -> Seq<A> {
    if queue.len() > 0 {
        queue.drop_first()
    } else {
        queue
    }
}

/// The notes of a new notifier after `ops`.
pub open spec fn notes_after(ops: Seq<Op>) -> Notes
    decreases ops.len(),
{
    if ops.len() == 0 {
        (None, Seq::empty())
    } else {
        let n = notes_after(ops.drop_last());
        match ops.last() {
            Op::Push(msg) => pushed(n, msg),
            Op::Pop => (n.0, popped(n.1)),
            Op::Reset => (None, n.1),
        }
    }
}

/// Which of `ops` brought the messages that wait after them.
pub open spec fn origins(ops: Seq<Op>) -> Seq<int>
    decreases ops.len(),
{
    if ops.len() == 0 {
        Seq::empty()
    } else {
        let before = origins(ops.drop_last());
        match ops.last() {
            Op::Push(msg) => if notes_after(ops.drop_last()).0 == Some(msg) {
                before
            } else {
                (if before.len() >= QUEUE {
                    before.drop_first()
                } else {
                    before
                }).push(ops.len() - 1)
            },
            Op::Pop => popped(before),
            Op::Reset => before,
        }
    }
}

/// A reset lies between two of `ops`.
pub open spec fn reset_between(ops: Seq<Op>, from: int, to: int) -> bool {
    exists|k: int| from < k < to && 0 <= k < ops.len() && (#[trigger] ops[k]) is Reset
}

proof fn reset_stays_between(ops: Seq<Op>, from: int, to: int)
    requires
        ops.len() > 0,
        reset_between(ops.drop_last(), from, to),
    ensures
        reset_between(ops, from, to),
{
    let k = choose|k: int|
        from < k < to && 0 <= k < ops.drop_last().len() && (#[trigger] ops.drop_last()[k]) is Reset;
    assert(ops[k] is Reset);
}

/// The queue is bounded, each message that waits was pushed, and the same message is never
/// repeated back to back: where two neighbours are equal, the notifier was reset after the first
/// was pushed and before the second was.
pub proof fn neighbours_differ(ops: Seq<Op>)
    ensures
        notes_after(ops).1.len() == origins(ops).len() <= QUEUE,
        forall|i: int|
            0 <= i < origins(ops).len() ==> 0 <= (#[trigger] origins(ops)[i]) < ops.len()
                && ops[origins(ops)[i]] == Op::Push(notes_after(ops).1[i]),
        forall|i: int, j: int|
            #![trigger origins(ops)[i], origins(ops)[j]]
            0 <= i && j == i + 1 && j < origins(ops).len() ==> origins(ops)[i] < origins(ops)[j]
                && (notes_after(ops).1[i] == notes_after(ops).1[j] ==> reset_between(
                ops,
                origins(ops)[i],
                origins(ops)[j],
            )),
        origins(ops).len() > 0 ==> notes_after(ops).0 == Some(notes_after(ops).1.last())
            || reset_between(ops, origins(ops).last(), ops.len() as int),
    decreases ops.len(),
{
    if ops.len() > 0 {
        let rest = ops.drop_last();
        neighbours_differ(rest);
        let (q, from) = (notes_after(rest).1, origins(rest));
        let (q2, from2) = (notes_after(ops).1, origins(ops));
        assert forall|i: int| 0 <= i < from.len() implies ops[#[trigger] from[i]] == Op::Push(
            q[i],
        ) by {
            assert(rest[from[i]] == ops[from[i]]);
        }
        let n = ops.len() - 1;
        if from.len() > 0 && reset_between(rest, from.last(), n) {
            reset_stays_between(ops, from.last(), n);
            let k = choose|k: int|
                from.last() < k < n && 0 <= k < ops.len() && (#[trigger] ops[k]) is Reset;
            assert(ops[k] is Reset);
            assert(reset_between(ops, from.last(), n + 1));
        }
        if ops.last() is Reset && from.len() > 0 {
            assert(ops[n] is Reset);
            assert(reset_between(ops, from.last(), n + 1));
        }
        // how far the queue moved
        let d: int = if from2.len() > 0 && from.len() > 0 && from2[0] != from[0] {
            1
        } else {
            0
        };
        assert forall|i: int, j: int|
            #![trigger from2[i], from2[j]]
            0 <= i && j == i + 1 && j < from2.len() implies from2[i] < from2[j] && (q2[i] == q2[j]
            ==> reset_between(ops, from2[i], from2[j])) by {
            if i + d < from.len() && j + d < from.len() {
                assert(from[i + d] < from[j + d]);
                if from2[i] == from[i + d] && from2[j] == from[j + d] && q2[i] == q2[j] {
                    if reset_between(rest, from[i + d], from[j + d]) {
                        reset_stays_between(ops, from[i + d], from[j + d]);
                    }
                }
            }
        }
    }
}

} // verus!
