//! Laws of texts.

use crate::text::{
    char_is_space, chars_of, contains, decimal, ends_with, head, joined, list, parse_u32, same, string_of, strip_prefix, to_lower, trim, trim_front,
};
use vstd::prelude::*;

verus! {

/// The characters that Unicode calls white space.
pub proof fn white_space_has_numbers(c: char, r: bool)
    requires
        call_ensures(char_is_space, (c,), r),
    ensures
        r == crate::text::is_space(c),
        r <==> {
            let n = c as u32;
            9 <= n <= 13 || n == 32 || n == 133 || n == 160 || n == 5760 || 8192 <= n <= 8202 || n
                == 8232 || n == 8233 || n == 8239 || n == 8287 || n == 12288
        },
{
}

/// Only white space.
pub open spec fn is_blank(s: Seq<char>) -> bool {
    forall|i: int| 0 <= i < s.len() ==> crate::text::is_space(#[trigger] s[i])
}

/// `t` is `s` without the white space around it.
pub open spec fn is_trimmed(s: Seq<char>, t: Seq<char>) -> bool {
    &&& exists|a: Seq<char>, b: Seq<char>|
        is_blank(a) && is_blank(b) && s == #[trigger] (a + t + b)
    &&& t.len() > 0 ==> !crate::text::is_space(t[0]) && !crate::text::is_space(t.last())
}

proof fn leading_goes(s: Seq<char>) -> (a: Seq<char>)
    ensures
        is_blank(a),
        s == a + crate::text::without_leading(s),
        ({
            let t = crate::text::without_leading(s);
            t.len() > 0 ==> !crate::text::is_space(t[0])
        }),
    decreases s.len(),
{
    if s.len() > 0 && crate::text::is_space(s[0]) {
        let a = leading_goes(s.drop_first());
        let all = seq![s[0]] + a;
        assert(s =~= seq![s[0]] + s.drop_first());
        assert(all + crate::text::without_leading(s) =~= seq![s[0]] + (a
            + crate::text::without_leading(s)));
        all
    } else {
        assert(s =~= Seq::<char>::empty() + s);
        Seq::empty()
    }
}

proof fn trailing_goes(s: Seq<char>) -> (b: Seq<char>)
    ensures
        is_blank(b),
        s == crate::text::without_trailing(s) + b,
        ({
            let t = crate::text::without_trailing(s);
            t.len() > 0 ==> !crate::text::is_space(t.last()) && t[0] == s[0]
        }),
    decreases s.len(),
{
    if s.len() > 0 && crate::text::is_space(s.last()) {
        let b = trailing_goes(s.drop_last());
        let all = b.push(s.last());
        assert(s =~= s.drop_last().push(s.last()));
        assert(crate::text::without_trailing(s) + all =~= (crate::text::without_trailing(s)
            + b).push(s.last()));
        all
    } else {
        assert(s =~= s + Seq::<char>::empty());
        Seq::empty()
    }
}

/// The trimmed text is what stands between the white space.
pub proof fn trimmed_is_trimmed(s: Seq<char>)
    ensures
        is_trimmed(s, crate::text::trimmed(s)),
{
    let a = leading_goes(s);
    let m = crate::text::without_leading(s);
    let b = trailing_goes(m);
    let t = crate::text::trimmed(s);
    assert(s =~= a + t + b);
}

/// Trimming takes away the white space around a text and nothing else.
pub proof fn trimming_takes_the_space_around(s: &str, t: &str)
    requires
        call_ensures(trim, (s,), t),
    ensures
        is_trimmed(s@, t@),
{
    trimmed_is_trimmed(s@);
}

/// `t` is `s` in lower case: of the 26 letters the large ones become the small ones.
pub open spec fn is_lower(s: Seq<char>, t: Seq<char>) -> bool {
    &&& t.len() == s.len()
    &&& forall|i: int|
        0 <= i < s.len() ==> (#[trigger] t[i]) as u32 == (if 65 <= s[i] as u32 <= 90 {
            s[i] as u32 + 32
        } else {
            s[i] as u32 as int
        })
}

/// The lower case of a text is its lower case.
pub proof fn lowered_is_lower(s: Seq<char>)
    ensures
        is_lower(s, crate::text::lowered(s)),
{
    let t = crate::text::lowered(s);
    assert forall|i: int| 0 <= i < s.len() implies (#[trigger] t[i]) as u32 == (if 65
        <= s[i] as u32 <= 90 {
        s[i] as u32 + 32
    } else {
        s[i] as u32 as int
    }) by {
        assert(t[i] == crate::text::lower_char(s[i]));
    }
}

/// Lower case changes the 26 letters only.
pub proof fn lower_case_changes_letters_only(s: &str, t: String)
    requires
        call_ensures(to_lower, (s,), t),
    ensures
        is_lower(s@, t@),
{
    lowered_is_lower(s@);
}

proof fn decimals_spell(n: nat)
    ensures
        crate::text::digits_value(crate::text::decimal_of(n)) == Some(n),
        crate::text::decimal_of(n).len() > 0,
        crate::text::decimal_of(n)[0] != '+',
        n > 0 ==> crate::text::decimal_of(n)[0] != '0',
    decreases n,
{
    let s = crate::text::decimal_of(n);
    if n >= 10 {
        decimals_spell(n / 10);
        assert(s.drop_last() =~= crate::text::decimal_of(n / 10));
        assert((n / 10) * 10 + n % 10 == n);
    }
}

/// A number that is written down is read back, and has no zero in front.
pub proof fn numbers_are_read_back(n: u64, s: String, t: &str, r: Option<u32>)
    requires
        call_ensures(decimal, (n,), s),
        t@ == s@,
        call_ensures(parse_u32, (t,), r),
    ensures
        n <= u32::MAX ==> r == Some(n as u32),
        n > u32::MAX ==> r is None,
        n > 0 ==> s@[0] != '0',
        s@.len() > 0,
{
    decimals_spell(n as nat);
}

/// One digit more makes a number ten times as large and adds the digit; anything but digits, and
/// nothing at all, is no number.
pub proof fn numbers_are_read_digit_by_digit(
    s: &str,
    c: char,
    t: &str,
    a: Option<u32>,
    b: Option<u32>,
)
    requires
        s@.len() > 0,
        s@[0] != '+',
        t@ == s@.push(c),
        call_ensures(parse_u32, (s,), a),
        call_ensures(parse_u32, (t,), b),
    ensures
        a matches Some(n) ==> 48 <= c as u32 <= 57 ==> (if 10 * n + (c as u32 - 48) <= u32::MAX {
            b matches Some(m) && m == 10 * n + (c as u32 - 48)
        } else {
            b is None
        }),
        !(48 <= c as u32 <= 57) ==> b is None,
        b is Some ==> a is Some,
{
    assert(t@.drop_last() =~= s@);
    assert(t@[0] == s@[0]);
}

/// What is left behind a prefix, with the prefix before it, is the text.
pub proof fn a_prefix_is_taken_off(s: &str, head: &str, r: Option<&str>)
    requires
        call_ensures(strip_prefix, (s, head), r),
    ensures
        r matches Some(t) ==> s@ == head@ + t@,
        r is None ==> forall|t: Seq<char>| s@ != #[trigger] (head@ + t),
{
    if let Some(t) = r {
        assert(s@ =~= head@ + t@);
    } else {
        assert forall|t: Seq<char>| s@ != #[trigger] (head@ + t) by {
            if s@ == head@ + t {
                assert(s@.take(head@.len() as int) =~= head@);
            }
        }
    }
}

/// A text ends with another if something before that other makes the text, and holds it if it
/// stands between two others.
pub proof fn a_text_ends_with_and_holds_another(s: &str, part: &str, a: bool, b: bool)
    requires
        call_ensures(ends_with, (s, part), a),
        call_ensures(contains, (s, part), b),
    ensures
        a <==> exists|front: Seq<char>| s@ == #[trigger] (front + part@),
        b <==> exists|front: Seq<char>, back: Seq<char>| s@ == #[trigger] (front + part@ + back),
{
    if a {
        let n = s@.len() - part@.len();
        assert(s@ =~= s@.take(n) + part@);
    }
    if exists|front: Seq<char>| s@ == #[trigger] (front + part@) {
        let front = choose|front: Seq<char>| s@ == #[trigger] (front + part@);
        assert(s@.skip(s@.len() - part@.len()) =~= part@);
    }
    if b {
        let i = choose|i: int|
            0 <= i && i + part@.len() <= s@.len() && #[trigger] s@.subrange(i, i + part@.len())
                == part@;
        assert(s@ =~= s@.take(i) + part@ + s@.skip(i + part@.len()));
    }
    if exists|front: Seq<char>, back: Seq<char>| s@ == #[trigger] (front + part@ + back) {
        let (front, back) = choose|front: Seq<char>, back: Seq<char>|
            s@ == #[trigger] (front + part@ + back);
        let i = front.len() as int;
        assert(s@.subrange(i, i + part@.len()) =~= part@);
    }
}

/// The front of a text goes as far as it is made of one character.
pub proof fn the_front_goes(s: &str, c: char, r: &str)
    requires
        call_ensures(trim_front, (s, c), r),
    ensures
        r@.len() <= s@.len(),
        s@.skip(s@.len() - r@.len()) == r@,
        forall|i: int| 0 <= i < s@.len() - r@.len() ==> s@[i] == c,
        r@.len() > 0 ==> r@[0] != c,
{
    front_goes(s@, c);
}

proof fn front_goes(s: Seq<char>, c: char)
    ensures
        ({
            let r = crate::text::without_front(s, c);
            &&& r.len() <= s.len()
            &&& s.skip(s.len() - r.len()) == r
            &&& forall|i: int| 0 <= i < s.len() - r.len() ==> s[i] == c
            &&& r.len() > 0 ==> r[0] != c
        }),
    decreases s.len(),
{
    if s.len() > 0 && s[0] == c {
        front_goes(s.drop_first(), c);
        let r = crate::text::without_front(s, c);
        assert(s.skip(s.len() - r.len()) =~= r);
        assert forall|i: int| 0 <= i < s.len() - r.len() implies s[i] == c by {
            if i > 0 {
                assert(s.drop_first()[i - 1] == s[i]);
            }
        }
    } else {
        assert(s.skip(0) =~= s);
    }
}

/// The head of a text is its first characters, at most `n` of them.
pub proof fn the_head_is_the_first_characters(s: &str, n: usize, r: &str)
    requires
        call_ensures(head, (s, n), r),
    ensures
        r@.len() <= n && r@.len() <= s@.len() && (r@.len() == n || r@.len() == s@.len()),
        r@ == s@.take(r@.len() as int),
{
    assert(s@.take(s@.len() as int) =~= s@);
}

/// A list of one is that one; one more comes behind the text between.
pub proof fn lists_grow_at_their_end(
    parts: Vec<String>,
    more: Vec<String>,
    between: &str,
    a: String,
    b: String,
)
    requires
        call_ensures(list, (&parts, between), a),
        call_ensures(list, (&more, between), b),
        more@.len() == parts@.len() + 1,
        more@.drop_last() == parts@,
    ensures
        parts@.len() == 0 ==> a@.len() == 0 && b@ == more@[0]@,
        parts@.len() > 0 ==> b@ == a@ + between@ + more@.last()@,
{
    let (x, y) = (crate::text::texts(parts@), crate::text::texts(more@));
    assert(y.drop_last() =~= x);
}

/// A text is its characters, and two texts are joined end to end.
pub proof fn a_text_is_its_characters(
    s: &str,
    c: Vec<char>,
    chars: &[char],
    t: String,
    a: &str,
    b: &str,
    j: String,
)
    requires
        call_ensures(chars_of, (s,), c),
        call_ensures(string_of, (chars,), t),
        call_ensures(joined, (a, b), j),
    ensures
        c@ == s@,
        t@ == chars@,
        j@.len() == a@.len() + b@.len(),
        forall|i: int| 0 <= i < a@.len() ==> #[trigger] j@[i] == a@[i],
        forall|i: int| 0 <= i < b@.len() ==> j@[a@.len() + i] == #[trigger] b@[i],
{
}

/// Texts are the same if and only if each character is.
pub proof fn texts_are_compared_by_characters(a: &str, b: &str, r: bool)
    requires
        call_ensures(same, (a, b), r),
    ensures
        r <==> a@.len() == b@.len() && forall|i: int| 0 <= i < a@.len() ==> #[trigger] a@[i] == b@[i],
{
    if a@.len() == b@.len() && forall|i: int| 0 <= i < a@.len() ==> #[trigger] a@[i] == b@[i] {
        assert(a@ =~= b@);
    }
}

} // verus!
