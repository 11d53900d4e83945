//! Laws of the reader of byte strings.

use crate::media::video::bitstream::Reader;
use vstd::prelude::*;

verus! {

/// `b` is `a` after `n` more bytes were read.
pub open spec fn is_further(a: Reader<'_>, b: Reader<'_>, n: int) -> bool {
    b.buf@ == a.buf@ && b.pos == a.pos + n
}

/// So many bytes are left.
pub open spec fn left(a: Reader<'_>) -> int {
    a.buf@.len() - a.pos
}

/// A reader starts at the first byte.
pub proof fn a_reader_starts_at_the_first_byte(buf: &[u8], r: Reader<'_>)
    requires
        call_ensures(Reader::new, (buf,), r),
    ensures
        r.buf@ == buf@,
        r.pos == 0,
        left(r) == buf@.len(),
{
}

/// Bytes are read one after the other, numbers of two bytes with the high one first; what is not
/// there is not read.
pub proof fn bytes_are_read_in_order()
    ensures
        forall|a: &mut Reader<'_>, r: Option<u8>| #[trigger]
            call_ensures(Reader::u8, (a,), r) ==> (r is Some <==> left(*a) >= 1) && (
            r matches Some(v) ==> v == a.buf@[a.pos as int] && is_further(*a, *final(a), 1)) && (
            r is None ==> is_further(*a, *final(a), 0)),
        forall|a: &mut Reader<'_>, r: Option<u16>| #[trigger]
            call_ensures(Reader::u16, (a,), r) ==> (r is Some <==> left(*a) >= 2) && (
            r matches Some(v) ==> v == 256 * a.buf@[a.pos as int] + a.buf@[a.pos + 1] && is_further(
                *a,
                *final(a),
                2,
            )) && final(a).buf@ == a.buf@,
{
}

/// A run of bytes is read as it stands, or left out; what is not there is neither.
pub proof fn runs_of_bytes_are_read_as_they_stand()
    ensures
        forall|a: &mut Reader<'_>, n: usize, r: Option<&[u8]>| #[trigger]
            call_ensures(Reader::bytes, (a, n), r) ==> (r is Some <==> left(*a) >= n) && (
            r matches Some(s) ==> is_further(*a, *final(a), n as int) && s@.len() == n && forall|
                i: int,
            |
                0 <= i < n ==> #[trigger] s@[i] == a.buf@[a.pos + i]) && (r is None ==> is_further(
                *a,
                *final(a),
                0,
            )),
        forall|a: &mut Reader<'_>, n: usize, r: Option<()>| #[trigger]
            call_ensures(Reader::skip, (a, n), r) ==> (r is Some <==> left(*a) >= n) && (r is Some
                ==> is_further(*a, *final(a), n as int)) && (r is None ==> is_further(
                *a,
                *final(a),
                0,
            )),
{
}

} // verus!
