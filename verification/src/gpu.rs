//! Selection of the GPU for hardware decoding.
//!
//! `gpu_device` of the configuration is a render node (`/dev/dri/renderD129`). If it is empty,
//! the render node with the lowest number is used.

use crate::path::join;
use crate::text::{joined, parse_u32, strip_prefix};
use vstd::prelude::*;
use vstd::string::*;

verus! {

/// Where the render nodes are.
pub open spec fn dri() -> Seq<char> {
    "/dev/dri"@
}

/// The number of a render node, by its file name.
pub open spec fn node_number(name: Seq<char>) -> Option<u32> {
    if crate::text::begins(name, "renderD"@) {
        crate::text::spelled_u32(name.skip("renderD"@.len() as int))
    } else {
        None
    }
}

/// Number `i` names the render node with the lowest number, the first of its kind.
pub open spec fn is_lowest(names: Seq<String>, i: int) -> bool {
    &&& 0 <= i < names.len()
    &&& node_number(names[i]@) is Some
    &&& forall|j: int|
        0 <= j < names.len() && node_number((#[trigger] names[j])@) is Some ==> node_number(
            names[i]@,
        )->0 < node_number(names[j]@)->0 || (node_number(names[i]@) == node_number(names[j]@) && i
            <= j)
}

/// The number of a render node, by its file name.
fn number_of(name: &str) -> (r: Option<u32>)
    ensures
        r == node_number(name@),
{
    match strip_prefix(name, "renderD") {
        Some(rest) => parse_u32(rest),
        None => None,
    }
}

/// The render node with the lowest number. `entries` are the names in the directory `dir`, in
/// the order in which it was read, `None` if it cannot be read.
pub fn first_render_node(dir: &str, entries: Option<&Vec<String>>) -> (r: Result<String, String>)
    ensures
        match entries {
            None => r matches Err(e) && e@ == "no "@ + dir@ + " (GPU unavailable)"@,
            Some(names) => match r {
                Ok(path) => exists|i: int| #[trigger]
                    is_lowest(names@, i) && path@ == crate::path::joined(dir@, names@[i]@),
                Err(e) => e@ == "no render node found"@ && forall|i: int|
                    0 <= i < names@.len() ==> node_number((#[trigger] names@[i])@) is None,
            },
        },
{
    let names = match entries {
        Some(n) => n,
        None => {
            let mut msg = "no ".to_owned();
            msg.append(dir);
            msg.append(" (GPU unavailable)");
            return Err(msg);
        },
    };
    let mut best: Option<(u32, usize)> = None;
    let mut i: usize = 0;
    while i < names.len()
        invariant
            i <= names@.len(),
            match best {
                Some((n, k)) => {
                    &&& k < i
                    &&& node_number(names@[k as int]@) == Some(n)
                    &&& forall|j: int|
                        0 <= j < i && node_number((#[trigger] names@[j])@) is Some ==> n
                            < node_number(names@[j]@)->0 || (Some(n) == node_number(names@[j]@) && k
                            <= j)
                },
                None => forall|j: int|
                    0 <= j < i ==> node_number((#[trigger] names@[j])@) is None,
            },
        decreases names@.len() - i,
    {
        if let Some(n) = number_of(names[i].as_str()) {
            let better = match best {
                Some((m, _)) => n < m,
                None => true,
            };
            if better {
                best = Some((n, i));
            }
        }
        i += 1;
    }
    match best {
        Some((_, k)) => {
            assert(is_lowest(names@, k as int));
            Ok(join(dir, names[k].as_str()))
        },
        None => Err("no render node found".to_owned()),
    }
}

/// The render node to decode on. `present` says whether the node that was asked for exists;
/// `entries` are the names in `/dev/dri`, `None` if it cannot be read.
pub fn pick_render_node(
    explicit: Option<&str>,
    present: bool,
    entries: Option<&Vec<String>>,
) -> (r: Result<String, String>)
    ensures
        match explicit {
            Some(p) => match r {
                Ok(node) => present && node@ == p@,
                Err(e) => !present && e@ == "no such device: "@ + p@,
            },
            None => match entries {
                None => r matches Err(e) && e@ == "no "@ + dri() + " (GPU unavailable)"@,
                Some(names) => match r {
                    Ok(path) => exists|i: int| #[trigger]
                        is_lowest(names@, i) && path@ == crate::path::joined(dri(), names@[i]@),
                    Err(e) => e@ == "no render node found"@ && forall|i: int|
                        0 <= i < names@.len() ==> node_number((#[trigger] names@[i])@) is None,
                },
            },
        },
{
    match explicit {
        Some(p) => if present {
            Ok(p.to_owned())
        } else {
            Err(joined("no such device: ", p))
        },
        None => first_render_node("/dev/dri", entries),
    }
}

/// At most one entry is the lowest render node.
pub proof fn the_lowest_node_is_one(names: Seq<String>, i: int, j: int)
    requires
        is_lowest(names, i),
        is_lowest(names, j),
    ensures
        i == j,
{
}

} // verus!
