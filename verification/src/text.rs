//! Text as the configuration, the file names and the messages need it: trimming,
//! ASCII case folding, joining, decimal numbers.

use vstd::prelude::*;
use vstd::string::*;

verus! {

/// `String::push` appends one character.
pub assume_specification[ String::push ](s: &mut String, c: char)
    ensures
        final(s)@ == old(s)@.push(c),
;

/// The characters with the Unicode property `White_Space`.
pub open spec fn is_space(c: char) -> bool {
    ||| '\u{9}' <= c <= '\u{d}'
    ||| c == '\u{20}'
    ||| c == '\u{85}'
    ||| c == '\u{a0}'
    ||| c == '\u{1680}'
    ||| '\u{2000}' <= c <= '\u{200a}'
    ||| c == '\u{2028}'
    ||| c == '\u{2029}'
    ||| c == '\u{202f}'
    ||| c == '\u{205f}'
    ||| c == '\u{3000}'
}

/// Whether `c` is white space.
pub fn char_is_space(c: char) -> (r: bool)
    ensures
        r == is_space(c),
{
    ('\u{9}' <= c && c <= '\u{d}') || c == '\u{20}' || c == '\u{85}' || c == '\u{a0}' || c
        == '\u{1680}' || ('\u{2000}' <= c && c <= '\u{200a}') || c == '\u{2028}' || c == '\u{2029}'
        || c == '\u{202f}' || c == '\u{205f}' || c == '\u{3000}'
}

/// `s` without its leading white space.
pub open spec fn without_leading(s: Seq<char>) -> Seq<char>
    decreases s.len(),
{
    if s.len() > 0 && is_space(s[0]) {
        without_leading(s.drop_first())
    } else {
        s
    }
}

/// `s` without its trailing white space.
pub open spec fn without_trailing(s: Seq<char>) -> Seq<char>
    decreases s.len(),
{
    if s.len() > 0 && is_space(s.last()) {
        without_trailing(s.drop_last())
    } else {
        s
    }
}

/// `s` without the white space around it.
pub open spec fn trimmed(s: Seq<char>) -> Seq<char> {
    without_trailing(without_leading(s))
}

/// ASCII letters in lower case, everything else as it is.
pub open spec fn lower_char(c: char) -> char {
    if 'A' <= c <= 'Z' {
        ((c as u8) + 32) as char
    } else {
        c
    }
}

/// `s` with its ASCII letters in lower case.
pub open spec fn lowered(s: Seq<char>) -> Seq<char> {
    s.map_values(|c: char| lower_char(c))
}

/// The characters of `s`.
pub fn chars_of(s: &str) -> (r: Vec<char>)
    ensures
        r@ == s@,
{
    let mut out: Vec<char> = Vec::new();
    for c in it: s.chars()
        invariant
            it.seq() == s@,
            out@ == s@.take(it.index() as int),
    {
        out.push(c);
        assert(s@.take(it.index() + 1) =~= s@.take(it.index() as int).push(c));
    }
    assert(s@.take(s@.len() as int) =~= s@);
    out
}

/// The string made of `chars`.
pub fn string_of(chars: &[char]) -> (r: String)
    ensures
        r@ == chars@,
{
    let mut out = String::new();
    let mut i: usize = 0;
    while i < chars.len()
        invariant
            i <= chars@.len(),
            out@ == chars@.take(i as int),
        decreases chars@.len() - i,
    {
        out.push(chars[i]);
        i += 1;
        assert(chars@.take(i as int) =~= chars@.take(i - 1).push(chars@[i - 1]));
    }
    assert(chars@.take(i as int) =~= chars@);
    out
}

/// Whether two texts are the same.
pub fn same(a: &str, b: &str) -> (r: bool)
    ensures
        r == (a@ == b@),
{
    a.to_owned() == b.to_owned()
}

/// `s` without the white space around it.
pub fn trim(s: &str) -> (r: &str)
    ensures
        r@ == trimmed(s@),
{
    let chars = chars_of(s);
    let mut from: usize = 0;
    assert(s@.skip(0) =~= s@);
    while from < chars.len() && char_is_space(chars[from])
        invariant
            from <= chars@.len(),
            chars@ == s@,
            without_leading(s@) == without_leading(s@.skip(from as int)),
        decreases chars@.len() - from,
    {
        assert(s@.skip(from as int).drop_first() =~= s@.skip(from + 1));
        from += 1;
    }
    let ghost lead = s@.skip(from as int);
    let mut to: usize = chars.len();
    assert(s@.subrange(from as int, to as int) =~= lead);
    while to > from && char_is_space(chars[to - 1])
        invariant
            from <= to <= chars@.len(),
            chars@ == s@,
            without_trailing(lead) == without_trailing(s@.subrange(from as int, to as int)),
        decreases to,
    {
        assert(s@.subrange(from as int, to as int).drop_last() =~= s@.subrange(
            from as int,
            to - 1,
        ));
        to -= 1;
    }
    s.substring_char(from, to)
}

/// `s` with its ASCII letters in lower case.
pub fn to_lower(s: &str) -> (r: String)
    ensures
        r@ == lowered(s@),
{
    let chars = chars_of(s);
    let mut out = String::new();
    let mut i: usize = 0;
    while i < chars.len()
        invariant
            i <= chars@.len(),
            chars@ == s@,
            out@ == lowered(s@.take(i as int)),
        decreases chars@.len() - i,
    {
        let c: char = chars[i];
        let l: char = if 'A' <= c && c <= 'Z' {
            (c as u8 + 32) as char
        } else {
            c
        };
        out.push(l);
        i += 1;
        assert(lowered(s@.take(i as int)) =~= lowered(s@.take(i - 1)).push(lower_char(s@[i - 1])));
    }
    assert(s@.take(i as int) =~= s@);
    out
}

/// `s` starts with `head`.
pub open spec fn begins(s: Seq<char>, head: Seq<char>) -> bool {
    head.len() <= s.len() && s.take(head.len() as int) == head
}

/// `s` ends with `tail`.
pub open spec fn finishes(s: Seq<char>, tail: Seq<char>) -> bool {
    tail.len() <= s.len() && s.skip(s.len() - tail.len()) == tail
}

/// `part` stands somewhere in `s`.
pub open spec fn holds(s: Seq<char>, part: Seq<char>) -> bool {
    exists|i: int|
        0 <= i && i + part.len() <= s.len() && #[trigger] s.subrange(i, i + part.len()) == part
}

/// Whether `part` stands at `at` in `s`.
fn stands_at(s: &Vec<char>, part: &Vec<char>, at: usize) -> (r: bool)
    requires
        at + part@.len() <= s@.len(),
    ensures
        r == (s@.subrange(at as int, at + part@.len()) == part@),
{
    let n: usize = s.len();
    let mut i: usize = 0;
    while i < part.len()
        invariant
            i <= part@.len(),
            n == s@.len(),
            at + part@.len() <= n,
            forall|j: int| 0 <= j < i ==> s@[at + j] == #[trigger] part@[j],
        decreases part@.len() - i,
    {
        if s[at + i] != part[i] {
            assert(s@.subrange(at as int, at + part@.len())[i as int] != part@[i as int]);
            return false;
        }
        i += 1;
    }
    assert(s@.subrange(at as int, at + part@.len()) =~= part@);
    true
}

/// What follows `head` in `s`.
pub fn strip_prefix<'a>(s: &'a str, head: &str) -> (r: Option<&'a str>)
    ensures
        match r {
            Some(rest) => begins(s@, head@) && rest@ == s@.skip(head@.len() as int),
            None => !begins(s@, head@),
        },
{
    let (all, part) = (chars_of(s), chars_of(head));
    let (n, m) = (all.len(), part.len());
    if m > n {
        return None;
    }
    assert(s@.take(m as int) =~= s@.subrange(0, m as int));
    if stands_at(&all, &part, 0) {
        assert(s@.skip(m as int) =~= s@.subrange(m as int, n as int));
        Some(s.substring_char(m, n))
    } else {
        None
    }
}

/// Whether `s` ends with `tail`.
pub fn ends_with(s: &str, tail: &str) -> (r: bool)
    ensures
        r == finishes(s@, tail@),
{
    let (all, part) = (chars_of(s), chars_of(tail));
    let (n, m) = (all.len(), part.len());
    if m > n {
        return false;
    }
    assert(s@.skip(n - m) =~= s@.subrange(n - m, n - m + m));
    stands_at(&all, &part, n - m)
}

/// Whether `part` stands somewhere in `s`.
pub fn contains(s: &str, part: &str) -> (r: bool)
    ensures
        r == holds(s@, part@),
{
    let (all, piece) = (chars_of(s), chars_of(part));
    let (n, m) = (all.len(), piece.len());
    if m > n {
        return false;
    }
    let mut i: usize = 0;
    while i < n - m
        invariant
            all@ == s@,
            piece@ == part@,
            n == all@.len(),
            m == piece@.len(),
            m <= n,
            i <= n - m,
            forall|j: int| 0 <= j < i ==> #[trigger] s@.subrange(j, j + m) != part@,
        decreases n - m - i,
    {
        if stands_at(&all, &piece, i) {
            return true;
        }
        i += 1;
    }
    stands_at(&all, &piece, i)
}

/// `s` without the `c` at its front.
pub open spec fn without_front(s: Seq<char>, c: char) -> Seq<char>
    decreases s.len(),
{
    if s.len() > 0 && s[0] == c {
        without_front(s.drop_first(), c)
    } else {
        s
    }
}

/// `s` without the `c` at its front.
pub fn trim_front(s: &str, c: char) -> (r: &str)
    ensures
        r@ == without_front(s@, c),
{
    let chars = chars_of(s);
    let n: usize = chars.len();
    let mut from: usize = 0;
    assert(s@.skip(0) =~= s@);
    while from < n && chars[from] == c
        invariant
            n == chars@.len(),
            from <= n,
            chars@ == s@,
            without_front(s@, c) == without_front(s@.skip(from as int), c),
        decreases n - from,
    {
        assert(s@.skip(from as int).drop_first() =~= s@.skip(from + 1));
        from += 1;
    }
    assert(s@.skip(from as int) =~= s@.subrange(from as int, n as int));
    s.substring_char(from, n)
}

/// The first `n` characters of `s`, all of them if it has fewer.
pub open spec fn first_chars(s: Seq<char>, n: nat) -> Seq<char> {
    if s.len() <= n {
        s
    } else {
        s.take(n as int)
    }
}

/// The first `n` characters of `s`.
pub fn head(s: &str, n: usize) -> (r: &str)
    ensures
        r@ == first_chars(s@, n as nat),
{
    let len: usize = s.unicode_len();
    let to: usize = if len <= n {
        len
    } else {
        n
    };
    assert(s@.subrange(0, to as int) =~= first_chars(s@, n as nat));
    s.substring_char(0, to)
}

/// The texts one after the other, with `between` between them.
pub open spec fn listed(parts: Seq<Seq<char>>, between: Seq<char>) -> Seq<char>
    decreases parts.len(),
{
    if parts.len() == 0 {
        Seq::empty()
    } else if parts.len() == 1 {
        parts[0]
    } else {
        listed(parts.drop_last(), between) + between + parts.last()
    }
}

/// The texts of a vector.
pub open spec fn texts(v: Seq<String>) -> Seq<Seq<char>> {
    v.map_values(|t: String| t@)
}

/// The texts one after the other, with `between` between them.
pub fn list(parts: &Vec<String>, between: &str) -> (r: String)
    ensures
        r@ == listed(texts(parts@), between@),
{
    let mut out = String::new();
    let mut i: usize = 0;
    assert(texts(parts@).take(0) =~= Seq::<Seq<char>>::empty());
    while i < parts.len()
        invariant
            i <= parts@.len(),
            out@ == listed(texts(parts@).take(i as int), between@),
        decreases parts@.len() - i,
    {
        if i > 0 {
            out.append(between);
        }
        out.append(parts[i].as_str());
        i += 1;
        proof {
            let now = texts(parts@).take(i as int);
            assert(now.drop_last() =~= texts(parts@).take(i - 1));
            assert(now.last() == parts@[i - 1]@);
            if i == 1 {
                assert(out@ =~= now[0]);
            } else {
                assert(out@ =~= listed(now.drop_last(), between@) + between@ + now.last());
            }
        }
    }
    assert(texts(parts@).take(i as int) =~= texts(parts@));
    out
}

/// `a` and then `b`.
pub fn joined(a: &str, b: &str) -> (r: String)
    ensures
        r@ == a@ + b@,
{
    let mut out = a.to_owned();
    out.append(b);
    out
}

/// A decimal digit.
pub open spec fn digit(n: int) -> char {
    (48 + n) as u8 as char
}

/// A number in decimal digits.
pub open spec fn decimal_of(n: nat) -> Seq<char>
    decreases n,
{
    if n < 10 {
        seq![digit(n as int)]
    } else {
        decimal_of(n / 10).push(digit((n % 10) as int))
    }
}

/// A number in decimal digits.
pub fn decimal(n: u64) -> (r: String)
    ensures
        r@ == decimal_of(n as nat),
    decreases n,
{
    let last: char = (48 + (n % 10) as u8) as char;
    if n < 10 {
        let mut out = String::new();
        out.push(last);
        assert(out@ =~= seq![digit(n as int)]);
        out
    } else {
        let mut out = decimal(n / 10);
        out.push(last);
        out
    }
}

/// The value of decimal digits; `None` if another character is among them or there is none.
pub open spec fn digits_value(s: Seq<char>) -> Option<nat>
    decreases s.len(),
{
    if s.len() == 0 || !('0' <= s.last() <= '9') {
        None
    } else if s.len() == 1 {
        Some((s.last() as int - 48) as nat)
    } else {
        match digits_value(s.drop_last()) {
            Some(v) => Some((v * 10 + (s.last() as int - 48)) as nat),
            None => None,
        }
    }
}

/// The number of 32 bits that a text spells: decimal digits, with or without a plus sign
/// before them.
pub open spec fn spelled_u32(s: Seq<char>) -> Option<u32> {
    let digits = if s.len() > 0 && s[0] == '+' {
        s.drop_first()
    } else {
        s
    };
    match digits_value(digits) {
        Some(v) => if v <= u32::MAX {
            Some(v as u32)
        } else {
            None
        },
        None => None,
    }
}

proof fn a_prefix_is_spelled_too(s: Seq<char>, n: int)
    requires
        0 < n <= s.len(),
        digits_value(s) is Some,
    ensures
        digits_value(s.take(n)) is Some,
        digits_value(s.take(n))->0 <= digits_value(s)->0,
    decreases s.len() - n,
{
    if n == s.len() {
        assert(s.take(n) =~= s);
    } else {
        a_prefix_is_spelled_too(s, n + 1);
        assert(s.take(n + 1).drop_last() =~= s.take(n));
    }
}

/// The number of 32 bits that a text spells.
pub fn parse_u32(s: &str) -> (r: Option<u32>)
    ensures
        r == spelled_u32(s@),
{
    let chars = chars_of(s);
    let n: usize = chars.len();
    let from: usize = if n > 0 && chars[0] == '+' {
        1
    } else {
        0
    };
    let ghost digits = s@.skip(from as int);
    assert(from == 1 ==> s@.drop_first() =~= digits);
    assert(from == 0 ==> s@ =~= digits);
    if from == n {
        return None;
    }
    let mut i: usize = from;
    let mut value: u32 = 0;
    while i < n
        invariant
            from <= i <= n,
            n == chars@.len(),
            chars@ == s@,
            digits == s@.skip(from as int),
            digits.len() == n - from,
            from < n,
            i > from ==> digits_value(digits.take(i - from)) == Some(value as nat),
            i == from ==> value == 0,
            spelled_u32(s@) == (match digits_value(digits) {
                Some(v) => if v <= u32::MAX {
                    Some(v as u32)
                } else {
                    None
                },
                None => None,
            }),
        decreases n - i,
    {
        let c: char = chars[i];
        let ghost k = i - from;
        proof {
            assert(digits.take(k + 1).drop_last() =~= digits.take(k));
            assert(digits.take(k + 1).last() == c);
            if digits_value(digits) is Some {
                a_prefix_is_spelled_too(digits, k + 1);
            }
        }
        if c < '0' || c > '9' {
            return None;
        }
        let d: u64 = (c as u32 - 48) as u64;
        let next: u64 = value as u64 * 10 + d;
        if next > 0xffff_ffff {
            return None;
        }
        value = next as u32;
        i += 1;
    }
    assert(digits.take(n - from) =~= digits);
    Some(value)
}

/// What `Debug` writes for a text: the text in quotation marks, with escapes.
pub uninterp spec fn quoted(s: Seq<char>) -> Seq<char>;

/// The `Debug` form of a text, which std writes. It depends on the text alone.
#[verifier::external_body]
pub(crate) fn quote(s: &str) -> (r: String)
    ensures
        r@ == quoted(s@),
{
    format!("{s:?}")
}

} // verus!
