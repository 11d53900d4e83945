//! Laws of the VA-API helper.

use crate::vaapi_helper::{
    check_planes, codec, error_len, Feed, HelperCodec, Step, Took, ABI, MAX_STALLS, POOL_HEADROOM,
};
use vstd::prelude::*;

verus! {

/// The interface is the first; the pool holds two frames more than needed; three times the decoder
/// may want something without anything moving.
pub proof fn numbers_of_the_helper()
    ensures
        ABI == 1,
        crate::media::video::decode::vaapi::HELPER_ABI == 1,
        POOL_HEADROOM == 2,
        MAX_STALLS == 3,
{
}

/// The codecs have the numbers 1 to 5.
pub proof fn codecs_have_numbers(code: u32, r: Result<HelperCodec, String>)
    requires
        call_ensures(codec, (code,), r),
    ensures
        code == 1 ==> r == Ok::<HelperCodec, String>(HelperCodec::H264),
        code == 2 ==> r == Ok::<HelperCodec, String>(HelperCodec::Hevc),
        code == 3 ==> r == Ok::<HelperCodec, String>(HelperCodec::Vp8),
        code == 4 ==> r == Ok::<HelperCodec, String>(HelperCodec::Vp9),
        code == 5 ==> r == Ok::<HelperCodec, String>(HelperCodec::Av1),
        code == 0 || code > 5 ==> (r matches Err(e) && e@ == "неизвестный кодек "@
            + crate::text::decimal_of(code as nat)),
{
}

/// A packet is handed over from its first byte on, and is done when nothing is left.
pub proof fn a_packet_starts_at_its_first_byte(len: usize, f: Feed, more: bool)
    ensures
        call_ensures(Feed::new, (len,), f) ==> f.len == len && f.off == 0 && f.stalls == 0,
        call_ensures(Feed::is_more, (&f,), more) ==> (more <==> f.off < f.len),
{
}

/// What becomes of a packet of which the decoder took something, or nothing, or not yet.
pub open spec fn is_taken(a: Feed, b: Feed, outcome: Took, r: Step) -> bool {
    &&& b.len == a.len
    &&& outcome matches Took::Bytes(n) ==> b.off == a.off + n && (n > 0 ==> b.stalls == 0) && (n == 0
        ==> b.stalls == a.stalls)
    &&& outcome matches Took::Bytes(n) ==> (r is More <==> n > 0 && a.off + n < a.len) && (r is Done
        <==> n == 0 || a.off + n >= a.len)
    &&& outcome is Blocked ==> r is Drain && b.off == a.off && b.stalls == a.stalls
    &&& outcome matches Took::Failed(e) ==> (r matches Step::Fail(m) && m@ == "VA-API: "@ + e@)
        && b.off == a.off
}

/// What becomes of a packet after the events were handled: the rest is tried again, but no more
/// than three times in a row without anything moving.
pub open spec fn is_drained(a: Feed, b: Feed, progress: bool, r: Step) -> bool {
    &&& b.len == a.len
    &&& b.off == a.off
    &&& progress ==> r is More && b.stalls == a.stalls
    &&& !progress && a.stalls < 3 ==> r is More && b.stalls == a.stalls + 1
    &&& !progress && a.stalls >= 3 ==> b.stalls == a.stalls && (r matches Step::Fail(m) && m@
        == "VA-API: декодеру не хватает кадров"@)
}

/// A packet goes into the decoder piece by piece, and no decoder is asked forever.
pub proof fn a_packet_goes_in_piece_by_piece()
    ensures
        forall|f: &mut Feed, outcome: Took, r: Step| #[trigger]
            call_ensures(Feed::took, (f, outcome), r) ==> is_taken(*f, *final(f), outcome, r),
        forall|f: &mut Feed, progress: bool, r: Step| #[trigger]
            call_ensures(Feed::drained, (f, progress), r) ==> is_drained(
                *f,
                *final(f),
                progress,
                r,
            ),
{
}

/// A frame has two planes and their rows; a message leaves room for a zero.
pub proof fn frames_and_messages_fit(
    planes: usize,
    pitches: usize,
    r: Result<(), String>,
    message: usize,
    len: usize,
    n: Option<usize>,
)
    requires
        call_ensures(check_planes, (planes, pitches), r),
        call_ensures(error_len, (message, len), n),
    ensures
        r is Ok <==> planes >= 2 && pitches >= 2,
        r matches Err(e) ==> e@ == "кадр без двух плоскостей NV12"@,
        n is None <==> len == 0,
        n matches Some(k) ==> k < len && k <= message && (k == message || k == len - 1),
{
}

} // verus!
