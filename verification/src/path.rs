//! File paths as text: components, the last one, its extension, joining.

use crate::text::{chars_of, same, string_of};
use vstd::prelude::*;
use vstd::string::*;

verus! {

/// The index of the last `c` in `s`, -1 if there is none.
pub open spec fn last_index(s: Seq<char>, c: char) -> int
    decreases s.len(),
{
    if s.len() == 0 {
        -1
    } else if s.last() == c {
        s.len() - 1
    } else {
        last_index(s.drop_last(), c)
    }
}

/// The last component of a path. Empty components and `.` do not count; a path that ends in
/// `..`, or has no component at all, names no file.
pub open spec fn file_name_of(p: Seq<char>) -> Option<Seq<char>>
    decreases p.len(),
{
    let i = last_index(p, '/');
    let segment = p.skip(i + 1);
    if segment.len() == 0 || segment == seq!['.'] {
        if 0 <= i < p.len() {
            file_name_of(p.take(i))
        } else {
            None
        }
    } else if segment == seq!['.', '.'] {
        None
    } else {
        Some(segment)
    }
}

/// The components of a path, without the root. Empty ones do not count, nor does `.` behind the
/// first.
pub open spec fn parts_of(p: Seq<char>) -> Seq<Seq<char>>
    decreases p.len(),
{
    let i = last_index(p, '/');
    let segment = p.skip(i + 1);
    if 0 <= i < p.len() {
        if segment.len() == 0 || segment == seq!['.'] {
            parts_of(p.take(i))
        } else {
            parts_of(p.take(i)).push(segment)
        }
    } else if p.len() == 0 {
        Seq::empty()
    } else {
        seq![p]
    }
}

/// A path starts at the root.
pub open spec fn is_absolute(p: Seq<char>) -> bool {
    p.len() > 0 && p[0] == '/'
}

/// What two paths that are written differently have in common when they are equal: whether they
/// start at the root, and their components.
pub open spec fn path_key(p: Seq<char>) -> (bool, Seq<Seq<char>>) {
    (is_absolute(p), parts_of(p))
}

/// The texts of strings.
pub open spec fn texts(v: Seq<String>) -> Seq<Seq<char>> {
    Seq::new(v.len(), |i: int| v[i]@)
}

/// What follows the last dot of the file name. A name whose only dot comes first has no
/// extension.
pub open spec fn extension_of(p: Seq<char>) -> Option<Seq<char>> {
    match file_name_of(p) {
        Some(name) => {
            let i = last_index(name, '.');
            if i <= 0 {
                None
            } else {
                Some(name.skip(i + 1))
            }
        },
        None => None,
    }
}

/// The path of `name` in the directory `dir`. An absolute `name` stands for itself.
pub open spec fn joined(dir: Seq<char>, name: Seq<char>) -> Seq<char> {
    if name.len() > 0 && name[0] == '/' {
        name
    } else if dir.len() == 0 || dir.last() == '/' {
        dir + name
    } else {
        dir.push('/') + name
    }
}

/// Where the last `c` before `to` is, plus one.
fn after_last(s: &Vec<char>, to: usize, c: char) -> (r: usize)
    requires
        to <= s@.len(),
    ensures
        r <= to,
        r == last_index(s@.take(to as int), c) + 1,
{
    let mut i: usize = to;
    while i > 0 && s[i - 1] != c
        invariant
            i <= to <= s@.len(),
            last_index(s@.take(to as int), c) == last_index(s@.take(i as int), c),
        decreases i,
    {
        assert(s@.take(i as int).drop_last() =~= s@.take(i - 1));
        i -= 1;
    }
    i
}

/// A part of a text, as a string.
fn part(s: &Vec<char>, from: usize, to: usize) -> (r: String)
    requires
        from <= to <= s@.len(),
    ensures
        r@ == s@.subrange(from as int, to as int),
{
    string_of(vstd::slice::slice_subrange(s.as_slice(), from, to))
}

/// The last component of a path.
pub fn file_name(path: &str) -> (r: Option<String>)
    ensures
        match r {
            Some(n) => file_name_of(path@) == Some(n@),
            None => file_name_of(path@) is None,
        },
{
    let chars = chars_of(path);
    let mut to: usize = chars.len();
    assert(path@.take(to as int) =~= path@);
    loop
        invariant
            chars@ == path@,
            to <= chars@.len(),
            file_name_of(path@) == file_name_of(path@.take(to as int)),
        decreases to,
    {
        let ghost p = path@.take(to as int);
        let from: usize = after_last(&chars, to, '/');
        assert(p.skip(from as int) =~= path@.subrange(from as int, to as int));
        let segment = part(&chars, from, to);
        let dot = to - from == 1 && chars[from] == '.';
        assert(dot ==> segment@ =~= seq!['.']);
        let up = to - from == 2 && chars[from] == '.' && chars[from + 1] == '.';
        assert(up ==> segment@ =~= seq!['.', '.']);
        if from == to || dot {
            if from == 0 {
                return None;
            }
            assert(p.take(from - 1) =~= path@.take(from - 1));
            to = from - 1;
        } else if up {
            return None;
        } else {
            assert(segment@ != seq!['.']) by {
                if segment@ == seq!['.'] {
                    assert(segment@[0] == '.');
                }
            }
            assert(segment@ != seq!['.', '.']) by {
                if segment@ == seq!['.', '.'] {
                    assert(segment@[0] == '.' && segment@[1] == '.');
                }
            }
            return Some(segment);
        }
    }
}

/// The components of a path, without the root.
pub fn parts(path: &str) -> (r: Vec<String>)
    ensures
        texts(r@) == parts_of(path@),
{
    let chars = chars_of(path);
    let mut out: Vec<String> = Vec::new();
    let mut to: usize = chars.len();
    assert(path@.take(to as int) =~= path@);
    assert(parts_of(path@) + texts(out@) =~= parts_of(path@));
    loop
        invariant
            chars@ == path@,
            to <= chars@.len(),
            parts_of(path@) == parts_of(path@.take(to as int)) + texts(out@),
        decreases to,
    {
        let ghost p = path@.take(to as int);
        let from: usize = after_last(&chars, to, '/');
        if from == 0 {
            if to > 0 {
                let first = part(&chars, 0, to);
                assert(first@ =~= p);
                let ghost rest = out@;
                out.insert(0, first);
                assert(texts(out@) =~= seq![p] + texts(rest));
            } else {
                assert(texts(out@) =~= parts_of(p) + texts(out@));
            }
            return out;
        }
        let segment = part(&chars, from, to);
        assert(segment@ =~= p.skip(from as int));
        let dot = to - from == 1 && chars[from] == '.';
        assert(dot ==> segment@ =~= seq!['.']);
        assert(p.take(from - 1) =~= path@.take(from - 1));
        if from != to && !dot {
            assert(segment@ != seq!['.']) by {
                if segment@ == seq!['.'] {
                    assert(segment@[0] == '.');
                }
            }
            let ghost rest = out@;
            out.insert(0, segment);
            assert(parts_of(path@.take(from - 1)) + texts(out@) =~= parts_of(
                path@.take(from - 1),
            ).push(p.skip(from as int)) + texts(rest));
        }
        to = from - 1;
    }
}

/// Whether two paths are equal: component by component, however they are written.
pub fn same_path(a: &str, b: &str) -> (r: bool)
    ensures
        r == (path_key(a@) == path_key(b@)),
{
    let (x, y) = (parts(a), parts(b));
    let (s, t) = (chars_of(a), chars_of(b));
    let down_x = s.len() > 0 && s[0] == '/';
    let down_y = t.len() > 0 && t[0] == '/';
    if down_x != down_y {
        return false;
    }
    if x.len() != y.len() {
        assert(texts(x@).len() != texts(y@).len());
        return false;
    }
    let mut i: usize = 0;
    while i < x.len()
        invariant
            i <= x@.len(),
            x@.len() == y@.len(),
            texts(x@) == parts_of(a@),
            texts(y@) == parts_of(b@),
            forall|j: int| 0 <= j < i ==> (#[trigger] texts(x@)[j]) == texts(y@)[j],
        decreases x@.len() - i,
    {
        if !same(x[i].as_str(), y[i].as_str()) {
            assert(texts(x@)[i as int] != texts(y@)[i as int]);
            return false;
        }
        i += 1;
    }
    assert(texts(x@) =~= texts(y@));
    true
}

/// What follows the last dot of the file name.
pub fn extension(path: &str) -> (r: Option<String>)
    ensures
        match r {
            Some(e) => extension_of(path@) == Some(e@),
            None => extension_of(path@) is None,
        },
{
    match file_name(path) {
        Some(name) => {
            let chars = chars_of(name.as_str());
            let n: usize = chars.len();
            assert(name@.take(n as int) =~= name@);
            let i: usize = after_last(&chars, n, '.');
            if i <= 1 {
                None
            } else {
                assert(name@.skip(i as int) =~= name@.subrange(i as int, n as int));
                Some(part(&chars, i, n))
            }
        },
        None => None,
    }
}

/// The path of `name` in the directory `dir`.
pub fn join(dir: &str, name: &str) -> (r: String)
    ensures
        r@ == joined(dir@, name@),
{
    let head = chars_of(dir);
    let tail = chars_of(name);
    let n: usize = head.len();
    if tail.len() > 0 && tail[0] == '/' {
        name.to_owned()
    } else {
        let mut out: String = dir.to_owned();
        if n > 0 && head[n - 1] != '/' {
            out.push('/');
        }
        out.append(name);
        out
    }
}

/// Joining a relative name below a directory keeps the name as the file's name.
pub proof fn joined_keeps_the_name(dir: Seq<char>, name: Seq<char>)
    requires
        name.len() > 0,
        !name.contains('/'),
        name != seq!['.'],
        name != seq!['.', '.'],
    ensures
        file_name_of(joined(dir, name)) == Some(name),
{
    assert(name[0] != '/') by {
        if name[0] == '/' {
            assert(name.contains('/'));
        }
    }
    let p = joined(dir, name);
    let head = if dir.len() == 0 || dir.last() == '/' {
        dir
    } else {
        dir.push('/')
    };
    assert(p == head + name);
    no_slash_in_tail(head, name);
    assert(p.skip(head.len() as int) =~= name);
}

proof fn no_slash_in_tail(head: Seq<char>, name: Seq<char>)
    requires
        !name.contains('/'),
        head.len() == 0 || head.last() == '/',
    ensures
        last_index(head + name, '/') == head.len() - 1,
    decreases name.len(),
{
    if name.len() == 0 {
        assert(head + name =~= head);
    } else {
        assert((head + name).last() == name.last());
        assert(name.last() != '/') by {
            assert(name[name.len() - 1] == name.last());
        }
        assert((head + name).drop_last() =~= head + name.drop_last());
        assert(!name.drop_last().contains('/')) by {
            if name.drop_last().contains('/') {
                let j = choose|j: int|
                    0 <= j < name.drop_last().len() && name.drop_last()[j] == '/';
                assert(name[j] == '/');
            }
        }
        no_slash_in_tail(head, name.drop_last());
    }
}

} // verus!
