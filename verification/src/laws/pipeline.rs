//! Laws of the pipeline of a video.

use crate::clock::Nanos;
use crate::media::video::pipeline::{
    Codec, DecodedFrame, Decoder, Demuxer, Next, Packet, PipeResult, Pipeline, VideoInfo, Want,
};
use vstd::prelude::*;

verus! {

/// The sum of two times, or the last moment there is.
pub open spec fn is_sum(a: Nanos, b: Nanos, r: Nanos) -> bool {
    r == (if a + b <= u128::MAX {
        a + b
    } else {
        u128::MAX as int
    })
}

/// A new pipeline is at the start of its video.
pub proof fn a_new_pipeline_is_at_the_start<D: Demuxer, C: Decoder>(
    demux: D,
    decoder: C,
    looped: bool,
    r: Pipeline<D, C>,
)
    requires
        call_ensures(Pipeline::<D, C>::new, (demux, decoder, looped), r),
    ensures
        r.demux == demux,
        r.decoder == decoder,
        r.looped == looped,
        r.ready@.len() == 0,
        !r.flushed,
        r.loop_offset == 0,
        r.shown == 0,
{
}

/// Demuxer, decoder and loop are the same.
pub open spec fn is_same_video<D: Demuxer, C: Decoder>(
    a: Pipeline<D, C>,
    b: Pipeline<D, C>,
) -> bool {
    a.demux == b.demux && a.decoder == b.decoder && a.looped == b.looped
}

/// The first picture that waits came out, as much later as the passes before it took.
pub open spec fn came_out<D: Demuxer, C: Decoder>(
    a: Pipeline<D, C>,
    b: Pipeline<D, C>,
    f: DecodedFrame,
) -> bool {
    &&& a.ready@.len() > 0
    &&& f.data == a.ready@[0].data
    &&& is_sum(a.ready@[0].pts, a.loop_offset, f.pts)
    &&& is_same_video(a, b)
    &&& b.ready@.len() == a.ready@.len() - 1
    &&& forall|i: int| 0 <= i < b.ready@.len() ==> #[trigger] b.ready@[i] == a.ready@[i + 1]
    &&& b.flushed == a.flushed
    &&& b.loop_offset == a.loop_offset
    &&& f.pts >= a.shown ==> b.shown == f.pts
    &&& f.pts < a.shown ==> b.shown == a.shown
}

/// The next pass starts at `offset`: one length later, or where the last picture was shown.
pub open spec fn is_next_start(
    before: Nanos,
    shown: Nanos,
    duration: Option<Nanos>,
    offset: Nanos,
) -> bool {
    match duration {
        Some(d) => is_sum(before, d, offset),
        None => offset >= before && offset >= shown && (offset == before || offset == shown),
    }
}

/// What a pipeline needs: a picture that waits comes out; without one a packet is needed, until the
/// decoder has given its last; then a loop starts over, and any other video is over.
pub open spec fn is_wanted<D: Demuxer, C: Decoder>(
    a: Pipeline<D, C>,
    b: Pipeline<D, C>,
    duration: Option<Nanos>,
    r: Want,
) -> bool {
    if a.ready@.len() > 0 {
        r matches Want::Frame(f) && came_out(a, b, f)
    } else {
        &&& is_same_video(a, b) && b.flushed == a.flushed && b.shown == a.shown && b.ready@.len()
            == 0
        &&& r is Packet <==> !a.flushed
        &&& r is Rewind <==> a.flushed && a.looped
        &&& r is End <==> a.flushed && !a.looped
        &&& r is Rewind ==> is_next_start(a.loop_offset, a.shown, duration, b.loop_offset)
        &&& !(r is Rewind) ==> b.loop_offset == a.loop_offset
    }
}

proof fn gave_came_out<D: Demuxer, C: Decoder>(
    a: Pipeline<D, C>,
    b: Pipeline<D, C>,
    f: DecodedFrame,
)
    requires
        a.gave(&b, f),
    ensures
        came_out(a, b, f),
{
}

/// Pictures come out in their order; what is needed next follows from what was.
pub proof fn a_pipeline_needs_one_thing_at_a_time<D: Demuxer, C: Decoder>()
    ensures
        forall|p: &mut Pipeline<D, C>, duration: Option<Nanos>, r: Want| #[trigger]
            call_ensures(Pipeline::<D, C>::want, (p, duration), r) ==> is_wanted(
                *p,
                *final(p),
                duration,
                r,
            ),
{
    assert forall|p: &mut Pipeline<D, C>, duration: Option<Nanos>, r: Want| #[trigger]
        call_ensures(Pipeline::<D, C>::want, (p, duration), r) implies is_wanted(
        *p,
        *final(p),
        duration,
        r,
    ) by {
        if let Want::Frame(f) = r {
            if p.ready@.len() > 0 {
                gave_came_out(*p, *final(p), f);
            }
        }
    }
}

/// New pictures wait behind the others, in their order.
pub open spec fn is_fed<D: Demuxer, C: Decoder>(
    a: Pipeline<D, C>,
    b: Pipeline<D, C>,
    frames: Seq<DecodedFrame>,
    last: bool,
) -> bool {
    &&& is_same_video(a, b)
    &&& b.loop_offset == a.loop_offset
    &&& b.shown == a.shown
    &&& b.flushed <==> a.flushed || last
    &&& b.ready@.len() == a.ready@.len() + frames.len()
    &&& forall|i: int| 0 <= i < a.ready@.len() ==> #[trigger] b.ready@[i] == a.ready@[i]
    &&& forall|i: int|
        0 <= i < frames.len() ==> b.ready@[a.ready@.len() + i] == #[trigger] frames[i]
}

/// Pictures wait in the order in which they were decoded.
pub proof fn pictures_wait_in_order<D: Demuxer, C: Decoder>()
    ensures
        forall|p: &mut Pipeline<D, C>, frames: Vec<DecodedFrame>, last: bool| #[trigger]
            call_ensures(Pipeline::<D, C>::feed, (p, frames, last), ()) ==> is_fed(
                *p,
                *final(p),
                frames@,
                last,
            ),
{
}

/// A step without a picture: over the end a loop starts over, with the demuxer at the start and the
/// decoder empty; before it, what the decoder makes of the next packet waits, or, after the last
/// one, what it held back.
pub open spec fn is_step<D: Demuxer, C: Decoder>(
    a: Pipeline<D, C>,
    b: Pipeline<D, C>,
    m: &mut D,
    k: &mut C,
) -> bool {
    &&& *m == a.demux
    &&& *k == a.decoder
    &&& a.ready@.len() == 0
    &&& b.looped == a.looped
    &&& b.shown == a.shown
    &&& a.flushed ==> {
        &&& a.looped
        &&& !b.flushed
        &&& b.ready@.len() == 0
        &&& exists|info: &VideoInfo| #[trigger]
            call_ensures(D::info, (&a.demux,), info) && is_next_start(
                a.loop_offset,
                a.shown,
                info.duration,
                b.loop_offset,
            )
        &&& exists|back: PipeResult<()>| #[trigger]
            call_ensures(D::rewind, (m,), back) && back is Ok
        &&& call_ensures(C::reset, (k,), ())
    }
    &&& !a.flushed ==> {
        &&& b.loop_offset == a.loop_offset
        &&& exists|out: Vec<DecodedFrame>|
            b.ready@ == #[trigger] out@ && (if b.flushed {
                call_ensures(D::next_packet, (m,), Ok(None)) && call_ensures(
                    C::flush,
                    (k,),
                    Ok(out),
                )
            } else {
                exists|p: Packet| #[trigger]
                    call_ensures(D::next_packet, (m,), Ok(Some(p))) && call_ensures(
                        C::decode,
                        (k, &p),
                        Ok(out),
                    )
            })
    }
}

proof fn stepped_is_step<D: Demuxer, C: Decoder>(
    a: Pipeline<D, C>,
    b: Pipeline<D, C>,
    m: &mut D,
    k: &mut C,
)
    requires
        a.stepped(&b, m, k),
    ensures
        is_step(a, b, m, k),
{
    if a.flushed {
        let info = choose|info: &VideoInfo| #[trigger]
            call_ensures(D::info, (&a.demux,), info) && b.loop_offset
                == crate::media::video::pipeline::next_offset(
                a.loop_offset,
                info.duration,
                a.shown,
            );
        assert(call_ensures(D::info, (&a.demux,), info));
        let back = choose|back: PipeResult<()>| #[trigger]
            call_ensures(D::rewind, (m,), back) && back is Ok;
        assert(call_ensures(D::rewind, (m,), back));
    } else {
        let (packet, out) = choose|packet: Option<Packet>, out: Vec<DecodedFrame>| #[trigger]
            call_ensures(D::next_packet, (m,), Ok(packet)) && b.ready@ == #[trigger] out@
                && match packet {
                Some(p) => !b.flushed && call_ensures(C::decode, (k, &p), Ok(out)),
                None => b.flushed && call_ensures(C::flush, (k,), Ok(out)),
            };
        assert(b.ready@ == out@);
        if let Some(p) = packet {
            assert(call_ensures(D::next_packet, (m,), Ok(Some(p))));
        }
    }
}

/// A turn gives the picture that waits, or says that the video is over, or makes a step.
pub proof fn a_turn_gives_a_picture_or_makes_a_step<D: Demuxer, C: Decoder>()
    ensures
        forall|p: &mut Pipeline<D, C>, r: PipeResult<Option<Next>>| #[trigger]
            call_ensures(Pipeline::<D, C>::turn, (p,), r) ==> {
                &&& r matches Ok(Some(Next::Frame(f))) ==> came_out(*p, *final(p), f)
                &&& r matches Ok(Some(Next::End)) ==> p.ready@.len() == 0 && p.flushed && !p.looped
                    && is_same_video(*p, *final(p)) && final(p).ready@.len() == 0 && final(p).flushed && final(p).loop_offset == p.loop_offset && final(p).shown == p.shown
                &&& r matches Ok(None) ==> exists|m: &mut D, k: &mut C|
                    *final(m) == final(p).demux && *final(k) == final(p).decoder
                        && #[trigger] is_step(*p, *final(p), m, k)
                &&& r is Err ==> p.ready@.len() == 0 && final(p).ready@.len() == 0 && (p.flushed
                    ==> p.looped) && final(p).flushed == p.flushed && final(p).looped == p.looped
                    && final(p).shown == p.shown
            },
{
    assert forall|p: &mut Pipeline<D, C>, r: PipeResult<Option<Next>>| #[trigger]
        call_ensures(Pipeline::<D, C>::turn, (p,), r) implies {
        &&& r matches Ok(Some(Next::Frame(f))) ==> came_out(*p, *final(p), f)
        &&& r matches Ok(Some(Next::End)) ==> p.ready@.len() == 0 && p.flushed && !p.looped
            && is_same_video(*p, *final(p)) && final(p).ready@.len() == 0 && final(p).flushed
            && final(p).loop_offset == p.loop_offset && final(p).shown == p.shown
        &&& r matches Ok(None) ==> exists|m: &mut D, k: &mut C|
            *final(m) == final(p).demux && *final(k) == final(p).decoder && #[trigger] is_step(
                *p,
                *final(p),
                m,
                k,
            )
        &&& r is Err ==> p.ready@.len() == 0 && final(p).ready@.len() == 0 && (p.flushed
            ==> p.looped) && final(p).flushed == p.flushed && final(p).looped == p.looped && final(p).shown == p.shown
    } by {
        if let Ok(Some(Next::Frame(f))) = r {
            gave_came_out(*p, *final(p), f);
        }
        if let Ok(None) = r {
            let (m, k) = choose|m: &mut D, k: &mut C|
                *final(m) == final(p).demux && *final(k) == final(p).decoder
                    && #[trigger] p.stepped(final(p), m, k);
            stepped_is_step(*p, *final(p), m, k);
        }
    }
}

/// The next picture is the one that waits, if one does. A loop is never over; a video that is over
/// stays over; and without a loop the time of the passes stays the same.
pub proof fn the_next_picture_is_the_one_that_waits<D: Demuxer, C: Decoder>()
    ensures
        forall|p: &mut Pipeline<D, C>, r: PipeResult<Next>| #[trigger]
            call_ensures(Pipeline::<D, C>::next_frame, (p,), r) ==> {
                &&& p.ready@.len() > 0 ==> (r matches Ok(Next::Frame(f)) && came_out(
                    *p,
                    *final(p),
                    f,
                ))
                &&& p.ready@.len() == 0 && p.flushed && !p.looped ==> (r matches Ok(Next::End))
                    && is_same_video(*p, *final(p)) && final(p).ready@.len() == 0 && final(p).flushed
                &&& p.looped ==> !(r matches Ok(Next::End))
                &&& final(p).looped == p.looped
                &&& final(p).loop_offset >= p.loop_offset
                &&& !p.looped ==> final(p).loop_offset == p.loop_offset
            },
{
    assert forall|p: &mut Pipeline<D, C>, r: PipeResult<Next>| #[trigger]
        call_ensures(Pipeline::<D, C>::next_frame, (p,), r) implies {
        &&& p.ready@.len() > 0 ==> (r matches Ok(Next::Frame(f)) && came_out(*p, *final(p), f))
        &&& p.ready@.len() == 0 && p.flushed && !p.looped ==> (r matches Ok(Next::End))
            && is_same_video(*p, *final(p)) && final(p).ready@.len() == 0 && final(p).flushed
        &&& p.looped ==> !(r matches Ok(Next::End))
        &&& final(p).looped == p.looped
        &&& final(p).loop_offset >= p.loop_offset
        &&& !p.looped ==> final(p).loop_offset == p.loop_offset
    } by {
        if p.ready@.len() > 0 {
            if let Ok(Next::Frame(f)) = r {
                gave_came_out(*p, *final(p), f);
            }
        }
    }
}

/// The states from `a` on, one step apart.
pub open spec fn is_path<D: Demuxer, C: Decoder>(
    way: Seq<Pipeline<D, C>>,
    a: Pipeline<D, C>,
    ms: Seq<&mut D>,
    ks: Seq<&mut C>,
) -> bool {
    &&& way.len() > 0
    &&& way[0] == a
    &&& ms.len() == way.len() - 1
    &&& ks.len() == way.len() - 1
    &&& forall|i: int, j: int|
        #![trigger ms[i], way[j]]
        0 <= i && j == i + 1 && j < way.len() ==> is_step(way[i], way[j], ms[i], ks[i])
}

proof fn way_is_path<D: Demuxer, C: Decoder>(
    way: Seq<Pipeline<D, C>>,
    a: Pipeline<D, C>,
    ms: Seq<&mut D>,
    ks: Seq<&mut C>,
)
    requires
        crate::media::video::pipeline::is_way(way, a, ms, ks),
    ensures
        is_path(way, a, ms, ks),
{
    assert forall|i: int, j: int|
        #![trigger ms[i], way[j]]
        0 <= i && j == i + 1 && j < way.len() implies is_step(way[i], way[j], ms[i], ks[i]) by {
        stepped_is_step(way[i], way[j], ms[i], ks[i]);
    }
}

/// The demuxer, called as `m`, failed with `e`: at the end of a pass on its way back to the start,
/// else on its way to the next packet.
pub open spec fn is_demuxer_failure<D: Demuxer, C: Decoder>(
    a: Pipeline<D, C>,
    m: &mut D,
    e: String,
) -> bool {
    &&& *m == a.demux
    &&& a.ready@.len() == 0
    &&& a.flushed ==> a.looped && call_ensures(D::rewind, (m,), Err(e))
    &&& !a.flushed ==> call_ensures(D::next_packet, (m,), Err(e))
}

/// The decoder, called as `k`, failed with `e` on the packet that the demuxer gave, or, without
/// one, on what it held back.
pub open spec fn is_decoder_failure<D: Demuxer, C: Decoder>(
    a: Pipeline<D, C>,
    m: &mut D,
    k: &mut C,
    e: String,
) -> bool {
    &&& *m == a.demux
    &&& *k == a.decoder
    &&& a.ready@.len() == 0
    &&& !a.flushed
    &&& exists|packet: Option<Packet>| #[trigger]
        call_ensures(D::next_packet, (m,), Ok(packet)) && (packet matches Some(p) ==> call_ensures(
            C::decode,
            (k, &p),
            Err(e),
        )) && (packet is None ==> call_ensures(C::flush, (k,), Err(e)))
}

proof fn lost_is_failure<D: Demuxer, C: Decoder>(
    a: Pipeline<D, C>,
    b: Pipeline<D, C>,
    m: &mut D,
    k: &mut C,
    e: String,
)
    ensures
        a.lost_demuxer(&b, m, e) ==> is_demuxer_failure(a, m, e),
        a.lost_decoder(&b, m, k, e) ==> is_decoder_failure(a, m, k, e),
{
    if a.lost_decoder(&b, m, k, e) {
        let packet = choose|packet: Option<Packet>| #[trigger]
            call_ensures(D::next_packet, (m,), Ok(packet)) && match packet {
                Some(p) => call_ensures(C::decode, (k, &p), Err(e)),
                None => call_ensures(C::flush, (k,), Err(e)),
            };
        assert(call_ensures(D::next_packet, (m,), Ok(packet)));
    }
}

/// A turn fails only where the demuxer or the decoder does, with the same words.
pub proof fn a_turn_fails_with_its_parts<D: Demuxer, C: Decoder>()
    ensures
        forall|p: &mut Pipeline<D, C>, r: PipeResult<Option<Next>>| #[trigger]
            call_ensures(Pipeline::<D, C>::turn, (p,), r) && r is Err ==> {
                ||| exists|m: &mut D| #[trigger] is_demuxer_failure(*p, m, r->Err_0)
                ||| exists|m: &mut D, k: &mut C| #[trigger]
                    is_decoder_failure(*p, m, k, r->Err_0)
            },
{
    assert forall|p: &mut Pipeline<D, C>, r: PipeResult<Option<Next>>| #[trigger]
        call_ensures(Pipeline::<D, C>::turn, (p,), r) && r is Err implies {
        ||| exists|m: &mut D| #[trigger] is_demuxer_failure(*p, m, r->Err_0)
        ||| exists|m: &mut D, k: &mut C| #[trigger] is_decoder_failure(*p, m, k, r->Err_0)
    } by {
        let e = r->Err_0;
        if exists|m: &mut D| #[trigger] p.lost_demuxer(final(p), m, e) {
            let m = choose|m: &mut D| #[trigger] p.lost_demuxer(final(p), m, e);
            lost_is_failure(*p, *final(p), m, arbitrary(), e);
        } else {
            let (m, k) = choose|m: &mut D, k: &mut C| #[trigger]
                p.lost_decoder(final(p), m, k, e);
            lost_is_failure(*p, *final(p), m, k, e);
        }
    }
}

/// `b` came of `a` in the last turn, after the steps before it, and `r` was the answer: a picture, the
/// end, a failure, or, after 4096 steps, that there are no pictures.
pub open spec fn is_answer<D: Demuxer, C: Decoder>(
    steps: int,
    a: Pipeline<D, C>,
    b: Pipeline<D, C>,
    r: PipeResult<Next>,
) -> bool {
    match r {
        Ok(Next::Frame(f)) => steps < 4096 && came_out(a, b, f),
        Ok(Next::End) => steps < 4096 && a.ready@.len() == 0 && a.flushed && !a.looped
            && is_same_video(a, b),
        Err(e) => {
            ||| steps < 4096 && exists|m: &mut D| #[trigger] is_demuxer_failure(a, m, e)
            ||| steps < 4096 && exists|m: &mut D, k: &mut C| #[trigger]
                is_decoder_failure(a, m, k, e)
            ||| steps == 4096 && exists|name: &'static str| #[trigger]
                call_ensures(C::name, (&b.decoder,), name) && e@ == name@ + " produces no frames"@
        },
    }
}

/// A picture, the end or a failure comes after fewer than 4096 steps, each of which decodes a packet,
/// empties the decoder or starts a pass; after 4096 steps the pipeline gives up, and tells the name
/// of the decoder.
pub proof fn a_pipeline_gives_up_in_the_end<D: Demuxer, C: Decoder>()
    ensures
        forall|p: &mut Pipeline<D, C>, r: PipeResult<Next>| #[trigger]
            call_ensures(Pipeline::<D, C>::next_frame, (p,), r) ==> exists|
                way: Seq<Pipeline<D, C>>,
                ms: Seq<&mut D>,
                ks: Seq<&mut C>,
            | #[trigger]
                is_path(way, *p, ms, ks) && is_answer(way.len() - 1, way.last(), *final(p), r),
{
    assert forall|p: &mut Pipeline<D, C>, r: PipeResult<Next>| #[trigger]
        call_ensures(Pipeline::<D, C>::next_frame, (p,), r) implies exists|
        way: Seq<Pipeline<D, C>>,
        ms: Seq<&mut D>,
        ks: Seq<&mut C>,
    | #[trigger]
        is_path(way, *p, ms, ks) && is_answer(way.len() - 1, way.last(), *final(p), r) by {
        let (way, ms, ks) = choose|way: Seq<Pipeline<D, C>>, ms: Seq<&mut D>, ks: Seq<&mut C>|
            #[trigger]
            crate::media::video::pipeline::is_way(way, *p, ms, ks) && (r matches Ok(Next::Frame(f))
                ==> way.len() <= crate::media::video::pipeline::PATIENCE && way.last().gave(
                final(p),
                f,
            )) && (r matches Ok(Next::End) ==> way.len()
                <= crate::media::video::pipeline::PATIENCE && way.last().is_over() && final(p).is_like(&way.last())) && (r is Err ==> {
                ||| way.len() <= crate::media::video::pipeline::PATIENCE && exists|m: &mut D, e: String|
                    r == Err::<Next, String>(e) && #[trigger] way.last().lost_demuxer(
                        final(p),
                        m,
                        e,
                    )
                ||| way.len() <= crate::media::video::pipeline::PATIENCE && exists|
                    m: &mut D,
                    k: &mut C,
                    e: String,
                |
                    r == Err::<Next, String>(e) && #[trigger] way.last().lost_decoder(
                        final(p),
                        m,
                        k,
                        e,
                    )
                ||| way.len() == crate::media::video::pipeline::PATIENCE + 1 && exists|
                    name: &'static str,
                | #[trigger]
                    call_ensures(C::name, (&final(p).decoder,), name) && r->Err_0@ == name@
                        + " produces no frames"@
            });
        way_is_path(way, *p, ms, ks);
        match r {
            Ok(Next::Frame(f)) => {
                gave_came_out(way.last(), *final(p), f);
            },
            Ok(Next::End) => {},
            Err(e) => {
                if way.len() <= crate::media::video::pipeline::PATIENCE {
                    if exists|m: &mut D| #[trigger] way.last().lost_demuxer(final(p), m, e) {
                        let m = choose|m: &mut D| #[trigger]
                            way.last().lost_demuxer(final(p), m, e);
                        lost_is_failure(way.last(), *final(p), m, arbitrary(), e);
                    } else {
                        let (m, k) = choose|m: &mut D, k: &mut C| #[trigger]
                            way.last().lost_decoder(final(p), m, k, e);
                        lost_is_failure(way.last(), *final(p), m, k, e);
                    }
                }
            },
        }
    }
}

/// Codecs have names; one that has none here is shown by the name that its file gives.
pub proof fn codecs_have_names(c: Codec, r: String)
    requires
        call_ensures(Codec::text, (&c,), r),
    ensures
        c is H264 ==> r@ == "H264"@,
        c is Hevc ==> r@ == "Hevc"@,
        c is Vp8 ==> r@ == "Vp8"@,
        c is Vp9 ==> r@ == "Vp9"@,
        c is Av1 ==> r@ == "Av1"@,
        c matches Codec::Other(n) ==> r@ == "Other("@ + crate::text::quoted(n@) + ")"@,
{
}

/// A pipeline tells what its demuxer knows and who decodes.
pub proof fn a_pipeline_tells_what_it_knows<D: Demuxer, C: Decoder>(
    p: Pipeline<D, C>,
    info: &VideoInfo,
    name: &'static str,
)
    ensures
        call_ensures(Pipeline::<D, C>::info, (&p,), info) ==> call_ensures(
            D::info,
            (&p.demux,),
            info,
        ),
        call_ensures(Pipeline::<D, C>::decoder_name, (&p,), name) ==> call_ensures(
            C::name,
            (&p.decoder,),
            name,
        ),
{
}

} // verus!
