//! Laws of file paths.

use crate::path::{extension, file_name, join, parts, same_path};
use vstd::prelude::*;

verus! {

/// `c` does not stand in `s`.
pub open spec fn is_without(s: Seq<char>, c: char) -> bool {
    forall|i: int| 0 <= i < s.len() ==> #[trigger] s[i] != c
}

proof fn last_one(a: Seq<char>, b: Seq<char>, c: char)
    requires
        is_without(b, c),
    ensures
        crate::path::last_index(a.push(c) + b, c) == a.len(),
        crate::path::last_index(b, c) == -1,
    decreases b.len(),
{
    let s = a.push(c) + b;
    if b.len() == 0 {
        assert(s =~= a.push(c));
    } else {
        let d = b.drop_last();
        assert(is_without(d, c)) by {
            assert forall|i: int| 0 <= i < d.len() implies #[trigger] d[i] != c by {
                assert(d[i] == b[i]);
            }
        }
        assert(b[b.len() - 1] != c);
        assert(s.drop_last() =~= a.push(c) + d);
        last_one(a, d, c);
    }
}

/// The last component of `p` is told as `r`.
pub open spec fn is_name(r: Option<String>, name: Option<Seq<char>>) -> bool {
    match name {
        Some(n) => r matches Some(t) && t@ == n,
        None => r is None,
    }
}

/// `dir`, a slash and `name`.
pub open spec fn below(dir: Seq<char>, name: Seq<char>) -> Seq<char> {
    dir.push('/') + name
}

proof fn names_below(dir: Seq<char>, name: Seq<char>)
    requires
        is_without(name, '/'),
    ensures
        crate::path::file_name_of(below(dir, name)) == (if name.len() == 0 || name == seq!['.'] {
            crate::path::file_name_of(dir)
        } else if name == seq!['.', '.'] {
            None
        } else {
            Some(name)
        }),
        crate::path::file_name_of(name) == (if name.len() == 0 || name == seq!['.'] || name
            == seq!['.', '.'] {
            None
        } else {
            Some(name)
        }),
        crate::path::parts_of(below(dir, name)) == (if name.len() == 0 || name == seq!['.'] {
            crate::path::parts_of(dir)
        } else {
            crate::path::parts_of(dir).push(name)
        }),
        crate::path::parts_of(name) == (if name.len() == 0 {
            Seq::empty()
        } else {
            seq![name]
        }),
{
    let p = below(dir, name);
    last_one(dir, name, '/');
    assert(p.skip(dir.len() as int + 1) =~= name);
    assert(p.take(dir.len() as int) =~= dir);
    assert(name.skip(0) =~= name);
}

/// What stands behind the last slash is the name. A slash at the end and `.` do not count, and `..`
/// names no file.
pub proof fn the_name_stands_behind_the_last_slash(
    dir: &str,
    name: &str,
    path: &str,
    r: Option<String>,
    above: Option<String>,
    alone: Option<String>,
)
    requires
        is_without(name@, '/'),
        path@ == below(dir@, name@),
        call_ensures(file_name, (path,), r),
        call_ensures(file_name, (dir,), above),
        call_ensures(file_name, (name,), alone),
    ensures
        name@.len() > 0 && name@ != seq!['.'] && name@ != seq!['.', '.'] ==> is_name(
            r,
            Some(name@),
        ) && is_name(alone, Some(name@)),
        name@.len() == 0 || name@ == seq!['.'] ==> match above {
            Some(n) => is_name(r, Some(n@)),
            None => r is None,
        } && alone is None,
        name@ == seq!['.', '.'] ==> r is None && alone is None,
{
    names_below(dir@, name@);
}

/// The extension of a name is what stands behind its last dot; a dot in front makes none.
pub proof fn the_extension_stands_behind_the_last_dot(
    path: &str,
    name: Option<String>,
    r: Option<String>,
    stem: Seq<char>,
    ext: Seq<char>,
)
    requires
        call_ensures(file_name, (path,), name),
        call_ensures(extension, (path,), r),
        is_without(ext, '.'),
    ensures
        name is None ==> r is None,
        name matches Some(n) ==> n@ == stem.push('.') + ext ==> is_name(
            r,
            if stem.len() > 0 {
                Some(ext)
            } else {
                None
            },
        ),
        name matches Some(n) ==> is_without(n@, '.') ==> r is None,
{
    if let Some(n) = name {
        if n@ == stem.push('.') + ext {
            last_one(stem, ext, '.');
            assert(n@.skip(stem.len() as int + 1) =~= ext);
        }
        if is_without(n@, '.') {
            last_one(Seq::empty(), n@, '.');
        }
    }
}

/// Joining puts one slash between directory and name, unless the directory is empty or ends with
/// one; a name that starts at the root stands for itself.
pub proof fn joining_puts_one_slash_between(dir: &str, name: &str, r: String)
    requires
        call_ensures(join, (dir, name), r),
    ensures
        name@.len() > 0 && name@[0] == '/' ==> r@ == name@,
        !(name@.len() > 0 && name@[0] == '/') ==> {
            &&& dir@.len() == 0 ==> r@ == name@
            &&& dir@.len() > 0 && dir@.last() == '/' ==> r@ == dir@ + name@
            &&& dir@.len() > 0 && dir@.last() != '/' ==> r@ == below(dir@, name@)
        },
{
    if dir@.len() == 0 {
        assert(dir@ + name@ =~= name@);
    }
}

/// The components of a path: one below another comes behind it; empty ones do not count, nor does
/// `.` below another.
pub proof fn components_come_one_below_another(
    dir: &str,
    name: &str,
    path: &str,
    r: Vec<String>,
    above: Vec<String>,
    alone: Vec<String>,
)
    requires
        is_without(name@, '/'),
        path@ == below(dir@, name@),
        call_ensures(parts, (path,), r),
        call_ensures(parts, (dir,), above),
        call_ensures(parts, (name,), alone),
    ensures
        name@.len() == 0 || name@ == seq!['.'] ==> r@.len() == above@.len() && forall|i: int|
            0 <= i < r@.len() ==> (#[trigger] r@[i])@ == above@[i]@,
        name@.len() > 0 && name@ != seq!['.'] ==> r@.len() == above@.len() + 1 && r@.last()@
            == name@ && forall|i: int|
            0 <= i < above@.len() ==> (#[trigger] r@[i])@ == above@[i]@,
        name@.len() == 0 ==> alone@.len() == 0,
        name@.len() > 0 ==> alone@.len() == 1 && alone@[0]@ == name@,
{
    names_below(dir@, name@);
    let (x, y, z) = (
        crate::path::texts(r@),
        crate::path::texts(above@),
        crate::path::texts(alone@),
    );
    assert(x.len() == r@.len() && y.len() == above@.len() && z.len() == alone@.len());
    assert forall|i: int| 0 <= i < r@.len() implies (#[trigger] r@[i])@ == x[i] by {}
    assert forall|i: int| 0 <= i < above@.len() implies (#[trigger] above@[i])@ == y[i] by {}
    if alone@.len() > 0 {
        assert(alone@[0]@ == z[0]);
    }
}

/// Two paths are the same if and only if both start at the root or neither does, and their
/// components are the same.
pub proof fn paths_are_the_same_by_components(
    a: &str,
    b: &str,
    r: bool,
    x: Vec<String>,
    y: Vec<String>,
)
    requires
        call_ensures(same_path, (a, b), r),
        call_ensures(parts, (a,), x),
        call_ensures(parts, (b,), y),
    ensures
        r <==> (a@.len() > 0 && a@[0] == '/') == (b@.len() > 0 && b@[0] == '/') && x@.len()
            == y@.len() && forall|i: int| 0 <= i < x@.len() ==> (#[trigger] x@[i])@ == y@[i]@,
{
    let (s, t) = (crate::path::texts(x@), crate::path::texts(y@));
    assert(s.len() == x@.len() && t.len() == y@.len());
    assert forall|i: int| 0 <= i < x@.len() implies (#[trigger] x@[i])@ == s[i] by {}
    assert forall|i: int| 0 <= i < y@.len() implies (#[trigger] y@[i])@ == t[i] by {}
    if x@.len() == y@.len() && forall|i: int|
        0 <= i < x@.len() ==> (#[trigger] x@[i])@ == y@[i]@ {
        assert forall|i: int| 0 <= i < s.len() implies s[i] == t[i] by {
            assert(x@[i]@ == y@[i]@);
        }
        assert(s =~= t);
    }
    if s == t {
        assert forall|i: int| 0 <= i < x@.len() implies (#[trigger] x@[i])@ == y@[i]@ by {
            assert(s[i] == t[i]);
            assert(y@[i]@ == t[i]);
        }
    }
}

} // verus!
