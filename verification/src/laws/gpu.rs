//! Laws of the choice of a GPU.

use crate::gpu::{first_render_node, pick_render_node};
use crate::laws::config::is_below;
use vstd::prelude::*;

verus! {

/// `name` is that of render node number `n`.
pub open spec fn is_node(name: Seq<char>, n: u32) -> bool {
    exists|rest: Seq<char>|
        name == "renderD"@ + rest && #[trigger] crate::text::spelled_u32(rest) == Some(n)
}

/// `name` is that of no render node.
pub open spec fn is_no_node(name: Seq<char>) -> bool {
    forall|n: u32| !#[trigger] is_node(name, n)
}

proof fn numbers(name: Seq<char>)
    ensures
        crate::gpu::node_number(name) matches Some(n) ==> is_node(name, n),
        forall|n: u32| #[trigger] is_node(name, n) ==> crate::gpu::node_number(name) == Some(n),
        crate::gpu::node_number(name) is None ==> is_no_node(name),
{
    let p = "renderD"@;
    if crate::text::begins(name, p) {
        assert(name =~= p + name.skip(p.len() as int));
    }
    assert forall|n: u32| #[trigger] is_node(name, n) implies crate::gpu::node_number(name) == Some(
        n,
    ) by {
        let rest = choose|rest: Seq<char>|
            name == p + rest && #[trigger] crate::text::spelled_u32(rest) == Some(n);
        assert(name.skip(p.len() as int) =~= rest);
        assert(name.take(p.len() as int) =~= p);
    }
}

/// Entry `i` is the render node with the lowest number; of two with one number it is the first.
pub open spec fn is_first(names: Seq<String>, i: int, n: u32) -> bool {
    &&& 0 <= i < names.len()
    &&& is_node(names[i]@, n)
    &&& forall|j: int, m: u32|
        0 <= j < names.len() && #[trigger] is_node(names[j]@, m) ==> n < m || (n == m && i <= j)
}

/// `r` is the path of the render node with the lowest number among `entries`, or why there is none.
pub open spec fn is_choice(
    dir: Seq<char>,
    entries: Option<&Vec<String>>,
    r: Result<String, String>,
) -> bool {
    match entries {
        None => r matches Err(e) && e@ == "no "@ + dir + " (GPU unavailable)"@,
        Some(names) => match r {
            Ok(path) => exists|i: int, n: u32| #[trigger]
                is_first(names@, i, n) && is_below(dir, names@[i]@, path@),
            Err(e) => e@ == "no render node found"@ && forall|j: int|
                0 <= j < names@.len() ==> is_no_node((#[trigger] names@[j])@),
        },
    }
}

proof fn choice(dir: Seq<char>, entries: Option<&Vec<String>>, r: Result<String, String>)
    requires
        match entries {
            None => r matches Err(e) && e@ == "no "@ + dir + " (GPU unavailable)"@,
            Some(names) => match r {
                Ok(path) => exists|i: int| #[trigger]
                    crate::gpu::is_lowest(names@, i) && path@ == crate::path::joined(
                        dir,
                        names@[i]@,
                    ),
                Err(e) => e@ == "no render node found"@ && forall|i: int|
                    0 <= i < names@.len() ==> crate::gpu::node_number((#[trigger] names@[i])@) is None,
            },
        },
    ensures
        is_choice(dir, entries, r),
{
    if let Some(names) = entries {
        match r {
            Ok(path) => {
                let i = choose|i: int| #[trigger]
                    crate::gpu::is_lowest(names@, i) && path@ == crate::path::joined(
                        dir,
                        names@[i]@,
                    );
                let n = crate::gpu::node_number(names@[i]@)->0;
                numbers(names@[i]@);
                crate::laws::config::joined_is_below(dir, names@[i]@);
                assert forall|j: int, m: u32|
                    0 <= j < names@.len() && #[trigger] is_node(names@[j]@, m) implies n < m || (n
                    == m && i <= j) by {
                    numbers(names@[j]@);
                }
                assert(is_first(names@, i, n));
            },
            Err(e) => {
                assert forall|j: int| 0 <= j < names@.len() implies is_no_node(
                    (#[trigger] names@[j])@,
                ) by {
                    numbers(names@[j]@);
                }
            },
        }
    }
}

/// The render node with the lowest number is used, unless one is asked for; that one has to be
/// there.
pub proof fn the_lowest_node_is_used(
    dir: &str,
    entries: Option<&Vec<String>>,
    r: Result<String, String>,
    explicit: Option<&str>,
    present: bool,
    p: Result<String, String>,
)
    requires
        call_ensures(first_render_node, (dir, entries), r),
        call_ensures(pick_render_node, (explicit, present, entries), p),
    ensures
        is_choice(dir@, entries, r),
        explicit is None ==> is_choice("/dev/dri"@, entries, p),
        explicit matches Some(node) ==> if present {
            p matches Ok(n) && n@ == node@
        } else {
            p matches Err(e) && e@ == "no such device: "@ + node@
        },
{
    choice(dir@, entries, r);
    if explicit is None {
        choice("/dev/dri"@, entries, p);
    }
}

} // verus!
