//! Container, packets, decoder, frames. Concrete demuxers and decoders plug in through
//! traits; looping lives here, once.

use crate::clock::Nanos;
use crate::frame::FrameData;
use crate::text::{joined, quote};
use std::collections::VecDeque;
use vstd::prelude::*;
use vstd::string::*;

verus! {

/// What a video is encoded with.
#[derive(Debug, Clone, PartialEq, Eq)]
pub enum Codec {
    H264,
    Hevc,
    Vp8,
    Vp9,
    Av1,
    Other(String),
}

impl Codec {
    /// The codec as messages show it.
    pub open spec fn shown(&self) -> Seq<char> {
        match self {
            Codec::H264 => "H264"@,
            Codec::Hevc => "Hevc"@,
            Codec::Vp8 => "Vp8"@,
            Codec::Vp9 => "Vp9"@,
            Codec::Av1 => "Av1"@,
            Codec::Other(name) => "Other("@ + crate::text::quoted(name@) + ")"@,
        }
    }

    /// The codec as messages show it.
    pub fn text(&self) -> (r: String)
        ensures
            r@ == self.shown(),
    {
        match self {
            Codec::H264 => "H264".to_owned(),
            Codec::Hevc => "Hevc".to_owned(),
            Codec::Vp8 => "Vp8".to_owned(),
            Codec::Vp9 => "Vp9".to_owned(),
            Codec::Av1 => "Av1".to_owned(),
            Codec::Other(name) => {
                let mut out = joined("Other(", quote(name.as_str()).as_str());
                out.append(")");
                out
            },
        }
    }
}

/// What is known of a video before it is decoded.
#[derive(Debug, Clone)]
pub struct VideoInfo {
    pub width: u32,
    pub height: u32,
    pub duration: Option<Nanos>,
    pub codec: Codec,
}

/// A piece of the stream, as a decoder takes it.
#[derive(Debug, Clone)]
pub struct Packet {
    pub pts: Nanos,
    pub keyframe: bool,
    pub data: Vec<u8>,
}

/// A picture out of a decoder.
pub struct DecodedFrame {
    pub pts: Nanos,
    pub data: FrameData,
}

pub type PipeResult<T> = Result<T, String>;

/// Takes a file apart.
pub trait Demuxer {
    fn info(&self) -> &VideoInfo;

    /// `None` means the end of the file.
    fn next_packet(&mut self) -> PipeResult<Option<Packet>>;

    /// Back to the start, for a loop.
    fn rewind(&mut self) -> PipeResult<()>;
}

/// Makes pictures out of packets.
pub trait Decoder {
    fn name(&self) -> &'static str;

    /// Takes a packet and gives the pictures that are ready, none or several.
    fn decode(&mut self, packet: &Packet) -> PipeResult<Vec<DecodedFrame>>;

    /// End of the stream: gives everything that is still held back.
    fn flush(&mut self) -> PipeResult<Vec<DecodedFrame>>;

    /// Forgets everything, after a jump.
    fn reset(&mut self);
}

/// A demuxer, a decoder and the queue of ready pictures.
pub struct Pipeline<D: Demuxer, C: Decoder> {
    pub demux: D,
    pub decoder: C,
    pub ready: VecDeque<DecodedFrame>,
    pub flushed: bool,
    pub looped: bool,
    /// Added to the time of every picture; it grows with each pass, so time never goes back.
    pub loop_offset: Nanos,
    /// The latest time at which a picture came out.
    pub shown: Nanos,
}

/// What comes next out of a video.
pub enum Next {
    Frame(DecodedFrame),
    /// The video ended and there is no loop.
    End,
}

/// What a pipeline needs to go on.
pub enum Want {
    /// Nothing: here is the next picture.
    Frame(DecodedFrame),
    /// Nothing: the video ended.
    End,
    /// A new pass.
    Rewind,
    /// One more packet.
    Packet,
}

/// How many steps a pipeline makes without a picture before it gives up.
pub const PATIENCE: usize = 4096;

/// The sum of two spans of time; it stops at the largest that can be told.
pub open spec fn later(a: Nanos, b: Nanos) -> Nanos {
    if a + b > u128::MAX {
        u128::MAX
    } else {
        (a + b) as u128
    }
}

/// When the next pass starts: after one more length of the video. A video of unknown length
/// goes on where its last picture came out.
pub open spec fn next_offset(offset: Nanos, duration: Option<Nanos>, shown: Nanos) -> Nanos {
    match duration {
        Some(d) => later(offset, d),
        None => if shown > offset {
            shown
        } else {
            offset
        },
    }
}

impl<D: Demuxer, C: Decoder> Pipeline<D, C> {
    /// A pipeline at the start of its video.
    pub fn new(demux: D, decoder: C, looped: bool) -> (r: Pipeline<D, C>)
        ensures
            r.demux == demux,
            r.decoder == decoder,
            r.looped == looped,
            r.ready@.len() == 0,
            !r.flushed,
            r.loop_offset == 0,
            r.shown == 0,
    {
        Pipeline {
            demux,
            decoder,
            ready: VecDeque::new(),
            flushed: false,
            looped,
            loop_offset: 0,
            shown: 0,
        }
    }

    /// What is known of the video.
    pub fn info(&self) -> (r: &VideoInfo)
        ensures
            call_ensures(D::info, (&self.demux,), r),
    {
        self.demux.info()
    }

    /// The name of the decoder.
    pub fn decoder_name(&self) -> (r: &'static str)
        ensures
            call_ensures(C::name, (&self.decoder,), r),
    {
        self.decoder.name()
    }

    /// `f` is the picture in front of the queue, at its time in the pass.
    pub open spec fn is_front(&self, f: DecodedFrame) -> bool {
        &&& self.ready@.len() > 0
        &&& f.data == self.ready@[0].data
        &&& f.pts == later(self.ready@[0].pts, self.loop_offset)
    }

    /// The picture in front came out and left the pipeline as `after`.
    pub open spec fn gave(&self, after: &Pipeline<D, C>, f: DecodedFrame) -> bool {
        &&& self.is_front(f)
        &&& after.demux == self.demux
        &&& after.decoder == self.decoder
        &&& after.ready@ == self.ready@.drop_first()
        &&& after.flushed == self.flushed
        &&& after.looped == self.looped
        &&& after.loop_offset == self.loop_offset
        &&& after.shown == (if f.pts > self.shown {
            f.pts
        } else {
            self.shown
        })
    }

    /// What the pipeline needs next. A ready picture comes out with the time of the passes
    /// before it. `duration` is the length of the video, which a new pass adds to that time.
    pub fn want(&mut self, duration: Option<Nanos>) -> (r: Want)
        ensures
            if old(self).ready@.len() > 0 {
                r matches Want::Frame(f) && old(self).gave(final(self), f)
            } else {
                &&& final(self).demux == old(self).demux
                &&& final(self).decoder == old(self).decoder
                &&& final(self).looped == old(self).looped
                &&& final(self).flushed == old(self).flushed
                &&& final(self).shown == old(self).shown
                &&& final(self).ready@ == old(self).ready@
                &&& if !old(self).flushed {
                    r is Packet && final(self).loop_offset == old(self).loop_offset
                } else if old(self).looped {
                    r is Rewind && final(self).loop_offset == next_offset(
                        old(self).loop_offset,
                        duration,
                        old(self).shown,
                    )
                } else {
                    r is End && final(self).loop_offset == old(self).loop_offset
                }
            },
    {
        if let Some(f) = self.ready.pop_front() {
            assert(self.ready@ =~= old(self).ready@.drop_first());
            let pts: Nanos = f.pts.saturating_add(self.loop_offset);
            if pts > self.shown {
                self.shown = pts;
            }
            return Want::Frame(DecodedFrame { pts, data: f.data });
        }
        if self.flushed {
            if !self.looped {
                return Want::End;
            }
            match duration {
                Some(d) => {
                    self.loop_offset = self.loop_offset.saturating_add(d);
                },
                None => {
                    if self.shown > self.loop_offset {
                        self.loop_offset = self.shown;
                    }
                },
            }
            return Want::Rewind;
        }
        Want::Packet
    }

    /// Takes the pictures that a packet gave; `last` says that the decoder was flushed.
    pub fn feed(&mut self, frames: Vec<DecodedFrame>, last: bool)
        ensures
            final(self).demux == old(self).demux,
            final(self).decoder == old(self).decoder,
            final(self).looped == old(self).looped,
            final(self).loop_offset == old(self).loop_offset,
            final(self).shown == old(self).shown,
            final(self).ready@ == old(self).ready@ + frames@,
            final(self).flushed == (old(self).flushed || last),
    {
        let ghost all = frames@;
        let mut rest: VecDeque<DecodedFrame> = VecDeque::new();
        let mut frames = frames;
        // the pictures leave the vector from its end
        while frames.len() > 0
            invariant
                self.demux == old(self).demux,
                self.decoder == old(self).decoder,
                self.looped == old(self).looped,
                self.loop_offset == old(self).loop_offset,
                self.shown == old(self).shown,
                self.flushed == old(self).flushed,
                self.ready@ == old(self).ready@,
                frames@ + rest@ == all,
            decreases frames@.len(),
        {
            let ghost (a, b) = (frames@, rest@);
            if let Some(f) = frames.pop() {
                rest.push_front(f);
                assert(frames@ + rest@ =~= a + b);
            }
        }
        assert(frames@ + rest@ =~= rest@);
        self.ready.append(&mut rest);
        if last {
            self.flushed = true;
        }
    }

    /// The pipeline is as `other`; the queue may lie elsewhere.
    pub open spec fn is_like(&self, other: &Pipeline<D, C>) -> bool {
        &&& self.demux == other.demux
        &&& self.decoder == other.decoder
        &&& self.ready@ == other.ready@
        &&& self.flushed == other.flushed
        &&& self.looped == other.looped
        &&& self.loop_offset == other.loop_offset
        &&& self.shown == other.shown
    }

    /// The video is over.
    pub open spec fn is_over(&self) -> bool {
        self.ready@.len() == 0 && self.flushed && !self.looped
    }

    /// A new pass starts at the time `offset`.
    pub open spec fn is_next_pass(&self, offset: Nanos) -> bool {
        exists|info: &VideoInfo| #[trigger]
            call_ensures(D::info, (&self.demux,), info) && offset == next_offset(
                self.loop_offset,
                info.duration,
                self.shown,
            )
    }

    /// The pipeline became `after` without a picture: it started a new pass, or the queue now
    /// holds what the decoder gave for one more packet or held back until the end. The
    /// demuxer was called as `m` and the decoder as `k`.
    pub open spec fn stepped(&self, after: &Pipeline<D, C>, m: &mut D, k: &mut C) -> bool {
        &&& *m == self.demux
        &&& *k == self.decoder
        &&& self.ready@.len() == 0
        &&& after.looped == self.looped
        &&& after.shown == self.shown
        &&& if self.flushed {
            &&& self.looped
            &&& !after.flushed
            &&& after.ready@.len() == 0
            &&& self.is_next_pass(after.loop_offset)
            &&& exists|back: PipeResult<()>| #[trigger]
                call_ensures(D::rewind, (m,), back) && back is Ok
            &&& call_ensures(C::reset, (k,), ())
        } else {
            &&& after.loop_offset == self.loop_offset
            &&& exists|packet: Option<Packet>, out: Vec<DecodedFrame>| #[trigger]
                call_ensures(D::next_packet, (m,), Ok(packet)) && after.ready@ == #[trigger] out@
                    && match packet {
                    Some(p) => !after.flushed && call_ensures(C::decode, (k, &p), Ok(out)),
                    None => after.flushed && call_ensures(C::flush, (k,), Ok(out)),
                }
        }
    }

    /// The demuxer, called as `m`, failed with `e` and left the pipeline as `after`.
    pub open spec fn lost_demuxer(&self, after: &Pipeline<D, C>, m: &mut D, e: String) -> bool {
        &&& *m == self.demux
        &&& self.ready@.len() == 0
        &&& after.ready@.len() == 0
        &&& after.decoder == self.decoder
        &&& after.looped == self.looped
        &&& after.flushed == self.flushed
        &&& after.shown == self.shown
        &&& if self.flushed {
            self.looped && self.is_next_pass(after.loop_offset) && call_ensures(
                D::rewind,
                (m,),
                Err(e),
            )
        } else {
            after.loop_offset == self.loop_offset && call_ensures(D::next_packet, (m,), Err(e))
        }
    }

    /// The decoder, called as `k` after the demuxer was called as `m`, failed with `e` and left
    /// the pipeline as `after`.
    pub open spec fn lost_decoder(
        &self,
        after: &Pipeline<D, C>,
        m: &mut D,
        k: &mut C,
        e: String,
    ) -> bool {
        &&& *m == self.demux
        &&& *k == self.decoder
        &&& self.ready@.len() == 0
        &&& !self.flushed
        &&& after.ready@.len() == 0
        &&& !after.flushed
        &&& after.looped == self.looped
        &&& after.shown == self.shown
        &&& after.loop_offset == self.loop_offset
        &&& exists|packet: Option<Packet>| #[trigger]
            call_ensures(D::next_packet, (m,), Ok(packet)) && match packet {
                Some(p) => call_ensures(C::decode, (k, &p), Err(e)),
                None => call_ensures(C::flush, (k,), Err(e)),
            }
    }

    /// One turn: a picture that is ready comes out; a video that is over is over; else a new
    /// pass starts, or one more packet is decoded, or the decoder gives what it held back.
    /// `None` means that another turn is needed.
    pub fn turn(&mut self) -> (r: PipeResult<Option<Next>>)
        ensures
            r matches Ok(Some(Next::Frame(f))) ==> old(self).gave(final(self), f),
            r matches Ok(Some(Next::End)) ==> old(self).is_over() && final(self).is_like(old(self)),
            r matches Ok(None) ==> exists|m: &mut D, k: &mut C|
                *final(m) == final(self).demux && *final(k) == final(self).decoder
                    && #[trigger] old(self).stepped(final(self), m, k),
            r is Err ==> {
                ||| exists|m: &mut D, e: String|
                    *final(m) == final(self).demux && r == Err::<
                        Option<Next>,
                        String,
                    >(e) && #[trigger] old(self).lost_demuxer(final(self), m, e)
                ||| exists|m: &mut D, k: &mut C, e: String|
                    *final(m) == final(self).demux && *final(k) == final(self).decoder
                        && r == Err::<
                        Option<Next>,
                        String,
                    >(e) && #[trigger] old(self).lost_decoder(final(self), m, k, e)
            },
    {
        let info = self.demux.info();
        assert(call_ensures(D::info, (&old(self).demux,), info));
        let duration: Option<Nanos> = info.duration;
        match self.want(duration) {
            Want::Frame(f) => Ok(Some(Next::Frame(f))),
            Want::End => Ok(Some(Next::End)),
            Want::Rewind => {
                let back = self.demux.rewind();
                let ghost d = back;
                if let Err(e) = back {
                    proof {
                        let m = choose|m: &mut D|
                            *m == old(self).demux && *final(m) == self.demux
                                && #[trigger] call_ensures(D::rewind, (m,), d);
                        assert(old(self).lost_demuxer(self, m, e));
                    }
                    return Err(e);
                }
                self.decoder.reset();
                self.flushed = false;
                proof {
                    let m = choose|m: &mut D|
                        *m == old(self).demux && *final(m) == self.demux
                            && #[trigger] call_ensures(D::rewind, (m,), d);
                    let k = choose|k: &mut C|
                        *k == old(self).decoder && *final(k) == self.decoder
                            && #[trigger] call_ensures(C::reset, (k,), ());
                    assert(old(self).stepped(self, m, k));
                }
                Ok(None)
            },
            Want::Packet => {
                let packet = self.demux.next_packet();
                let ghost d = packet;
                match packet {
                    Ok(Some(p)) => {
                        let out = self.decoder.decode(&p);
                        let ghost c = out;
                        match out {
                            Ok(frames) => {
                                self.feed(frames, false);
                                assert(self.ready@ =~= frames@);
                                proof {
                                    let m = choose|m: &mut D|
                                        *m == old(self).demux && *final(m) == self.demux
                                            && #[trigger] call_ensures(D::next_packet, (m,), d);
                                    let k = choose|k: &mut C|
                                        *k == old(self).decoder && *final(k) == self.decoder
                                            && #[trigger] call_ensures(C::decode, (k, &p), c);
                                    assert(call_ensures(D::next_packet, (m,), Ok(Some(p))));
                                    assert(old(self).stepped(self, m, k));
                                }
                                Ok(None)
                            },
                            Err(e) => {
                                proof {
                                    let m = choose|m: &mut D|
                                        *m == old(self).demux && *final(m) == self.demux
                                            && #[trigger] call_ensures(D::next_packet, (m,), d);
                                    let k = choose|k: &mut C|
                                        *k == old(self).decoder && *final(k) == self.decoder
                                            && #[trigger] call_ensures(C::decode, (k, &p), c);
                                    assert(call_ensures(D::next_packet, (m,), Ok(Some(p))));
                                    assert(old(self).lost_decoder(self, m, k, e));
                                }
                                Err(e)
                            },
                        }
                    },
                    Ok(None) => {
                        let out = self.decoder.flush();
                        let ghost c = out;
                        match out {
                            Ok(frames) => {
                                self.feed(frames, true);
                                assert(self.ready@ =~= frames@);
                                proof {
                                    let m = choose|m: &mut D|
                                        *m == old(self).demux && *final(m) == self.demux
                                            && #[trigger] call_ensures(D::next_packet, (m,), d);
                                    let k = choose|k: &mut C|
                                        *k == old(self).decoder && *final(k) == self.decoder
                                            && #[trigger] call_ensures(C::flush, (k,), c);
                                    assert(call_ensures(
                                        D::next_packet,
                                        (m,),
                                        Ok(None::<Packet>),
                                    ));
                                    assert(old(self).stepped(self, m, k));
                                }
                                Ok(None)
                            },
                            Err(e) => {
                                proof {
                                    let m = choose|m: &mut D|
                                        *m == old(self).demux && *final(m) == self.demux
                                            && #[trigger] call_ensures(D::next_packet, (m,), d);
                                    let k = choose|k: &mut C|
                                        *k == old(self).decoder && *final(k) == self.decoder
                                            && #[trigger] call_ensures(C::flush, (k,), c);
                                    assert(call_ensures(
                                        D::next_packet,
                                        (m,),
                                        Ok(None::<Packet>),
                                    ));
                                    assert(old(self).lost_decoder(self, m, k, e));
                                }
                                Err(e)
                            },
                        }
                    },
                    Err(e) => {
                        proof {
                            let m = choose|m: &mut D|
                                *m == old(self).demux && *final(m) == self.demux
                                    && #[trigger] call_ensures(D::next_packet, (m,), d);
                            assert(old(self).lost_demuxer(self, m, e));
                        }
                        Err(e)
                    },
                }
            },
        }
    }

    /// The next picture of the video. Pictures that are ready come out at once; a video that
    /// is over and does not loop stays over; time never goes back. After [`PATIENCE`] turns
    /// without a picture the pipeline gives up: a broken file must not keep it busy forever.
    ///
    /// The contract tells the states on the way, one turn apart: what the demuxer and the
    /// decoder were asked in each, and what they became.
    pub fn next_frame(&mut self) -> (r: PipeResult<Next>)
        ensures
            final(self).looped == old(self).looped,
            final(self).loop_offset >= old(self).loop_offset,
            !old(self).looped ==> final(self).loop_offset == old(self).loop_offset,
            old(self).ready@.len() > 0 ==> (r matches Ok(Next::Frame(f)) && old(self).gave(
                final(self),
                f,
            )),
            old(self).is_over() ==> (r matches Ok(Next::End)) && final(self).is_like(old(self)),
            old(self).looped ==> !(r matches Ok(Next::End)),
            exists|way: Seq<Pipeline<D, C>>, ms: Seq<&mut D>, ks: Seq<&mut C>| #[trigger]
                is_way(way, *old(self), ms, ks) && (forall|i: int, j: int|
                    #![trigger ms[i], way[j]]
                    0 <= i && j == i + 1 && j < way.len() ==> *final(ms[i]) == way[j].demux
                        && *final(ks[i]) == way[j].decoder) && (r matches Ok(
                    Next::Frame(f),
                ) ==> way.len() <= PATIENCE && way.last().gave(final(self), f)) && (r matches Ok(
                    Next::End,
                ) ==> way.len() <= PATIENCE && way.last().is_over() && final(self).is_like(
                    &way.last(),
                )) && (r is Err ==> {
                    ||| way.len() <= PATIENCE && exists|m: &mut D, e: String|
                        *final(m) == final(self).demux && r == Err::<
                            Next,
                            String,
                        >(e) && #[trigger] way.last().lost_demuxer(final(self), m, e)
                    ||| way.len() <= PATIENCE && exists|m: &mut D, k: &mut C, e: String|
                        *final(m) == final(self).demux && *final(k) == final(self).decoder
                            && r == Err::<
                            Next,
                            String,
                        >(e) && #[trigger] way.last().lost_decoder(final(self), m, k, e)
                    ||| way.len() == PATIENCE + 1 && way.last() == *final(self) && exists|
                        name: &'static str,
                    | #[trigger]
                        call_ensures(C::name, (&final(self).decoder,), name) && r->Err_0@ == name@
                            + " produces no frames"@
                }),
    {
        let ghost mut way: Seq<Pipeline<D, C>> = seq![*self];
        assert(is_way(way, *old(self), Seq::<&mut D>::empty(), Seq::<&mut C>::empty()));
        for n in 0..PATIENCE
            invariant
                way.len() == n + 1,
                way.last() == *self,
                exists|ms: Seq<&mut D>, ks: Seq<&mut C>| #[trigger]
                    is_way(way, *old(self), ms, ks) && forall|i: int, j: int|
                        #![trigger ms[i], way[j]]
                        0 <= i && j == i + 1 && j < way.len() ==> *final(ms[i]) == way[j].demux
                            && *final(ks[i]) == way[j].decoder,
                self.looped == old(self).looped,
                self.loop_offset >= old(self).loop_offset,
                !old(self).looped ==> self.loop_offset == old(self).loop_offset,
                n == 0 ==> *self == *old(self),
                n > 0 ==> old(self).ready@.len() == 0 && !old(self).is_over(),
        {
            let ghost before = *self;
            match self.turn() {
                Ok(Some(next)) => {
                    return Ok(next);
                },
                Ok(None) => {
                    proof {
                        let (m, k) = choose|m: &mut D, k: &mut C|
                            *final(m) == self.demux && *final(k) == self.decoder
                                && #[trigger] before.stepped(self, m, k);
                        let (ms, ks) = choose|ms: Seq<&mut D>, ks: Seq<&mut C>| #[trigger]
                            is_way(way, *old(self), ms, ks) && forall|i: int, j: int|
                                #![trigger ms[i], way[j]]
                                0 <= i && j == i + 1 && j < way.len() ==> *final(ms[i])
                                    == way[j].demux && *final(ks[i]) == way[j].decoder;
                        let so_far = way;
                        let (ms2, ks2) = (ms.push(m), ks.push(k));
                        way = way.push(*self);
                        assert forall|i: int, j: int|
                            #![trigger ms2[i], way[j]]
                            0 <= i && j == i + 1 && j < way.len() implies *final(ms2[i])
                            == way[j].demux && *final(ks2[i]) == way[j].decoder by {
                            if j < so_far.len() {
                                assert(way[j] == so_far[j]);
                                assert(ms2[i] == ms[i]);
                                assert(ks2[i] == ks[i]);
                            }
                        }
                        assert(way.drop_last() =~= so_far);
                        assert(ms2.drop_last() =~= ms);
                        assert(ks2.drop_last() =~= ks);
                        the_way_goes_on(so_far, *old(self), ms, ks, way, ms2, ks2);
                    }
                },
                Err(e) => {
                    return Err(e);
                },
            }
        }
        let mut msg = self.decoder.name().to_owned();
        msg.append(" produces no frames");
        Err(msg)
    }
}

/// One turn leads from `a` to `b` and gives no picture yet.
pub open spec fn went_on<D: Demuxer, C: Decoder>(a: Pipeline<D, C>, b: Pipeline<D, C>) -> bool {
    exists|m: &mut D, k: &mut C|
        #[trigger] a.stepped(&b, m, k)
}

/// The states of a pipeline from `a` on, one turn apart, as long as it gives no picture. In each
/// turn the demuxer was called as one of `ms` and the decoder as one of `ks`.
pub open spec fn is_way<D: Demuxer, C: Decoder>(
    way: Seq<Pipeline<D, C>>,
    a: Pipeline<D, C>,
    ms: Seq<&mut D>,
    ks: Seq<&mut C>,
) -> bool {
    &&& way.len() > 0
    &&& way.first() == a
    &&& ms.len() == way.len() - 1
    &&& ks.len() == way.len() - 1
    &&& forall|i: int, j: int|
        #![trigger ms[i], way[j]]
        #![trigger way[i], way[j]]
        0 <= i && j == i + 1 && j < way.len() ==> way[i].stepped(
            &way[j],
            ms[i],
            ks[i],
        )
}

proof fn the_way_goes_on<D: Demuxer, C: Decoder>(
    way: Seq<Pipeline<D, C>>,
    a: Pipeline<D, C>,
    ms: Seq<&mut D>,
    ks: Seq<&mut C>,
    way2: Seq<Pipeline<D, C>>,
    ms2: Seq<&mut D>,
    ks2: Seq<&mut C>,
)
    requires
        is_way(way, a, ms, ks),
        way2.len() == way.len() + 1,
        way2.drop_last() == way,
        ms2.len() == way.len(),
        ms2.drop_last() == ms,
        ks2.len() == way.len(),
        ks2.drop_last() == ks,
        way.last().stepped(&way2.last(), ms2.last(), ks2.last()),
    ensures
        is_way(way2, a, ms2, ks2),
{
    assert(way2[0] == way2.drop_last()[0]);
    assert forall|i: int, j: int|
        #![trigger ms2[i], way2[j]]
        #![trigger way2[i], way2[j]]
        0 <= i && j == i + 1 && j < way2.len() implies way2[i].stepped(
        &way2[j],
        ms2[i],
        ks2[i],
    ) by {
        assert(way2[i] == way2.drop_last()[i]);
        if j < way.len() {
            assert(way2[j] == way2.drop_last()[j]);
            assert(ms2[i] == ms2.drop_last()[i]);
            assert(ks2[i] == ks2.drop_last()[i]);
        }
    }
}

/// The states of a pipeline, one turn apart; a picture comes out of each that has one ready.
pub open spec fn is_run<D: Demuxer, C: Decoder>(run: Seq<Pipeline<D, C>>) -> bool {
    forall|i: int, j: int|
        #![trigger run[i], run[j]]
        0 <= i && j == i + 1 && j < run.len() ==> went_on(run[i], run[j]) || exists|
            f: DecodedFrame,
        | #[trigger]
            run[i].gave(&run[j], f)
}

/// The states that one call of `next_frame` goes through, with the one it leaves behind, are a run.
pub proof fn a_call_is_a_run<D: Demuxer, C: Decoder>(
    way: Seq<Pipeline<D, C>>,
    a: Pipeline<D, C>,
    ms: Seq<&mut D>,
    ks: Seq<&mut C>,
    after: Pipeline<D, C>,
    f: DecodedFrame,
)
    requires
        is_way(way, a, ms, ks),
        way.last().gave(&after, f),
    ensures
        is_run(way.push(after)),
        way.push(after).first() == a,
        way.push(after).last() == after,
{
    let run = way.push(after);
    assert forall|i: int, j: int|
        #![trigger run[i], run[j]]
        0 <= i && j == i + 1 && j < run.len() implies went_on(run[i], run[j]) || exists|
        f: DecodedFrame,
    | #[trigger] run[i].gave(&run[j], f) by {
        assert(run[i] == way[i]);
        if j < way.len() {
            assert(run[j] == way[j]);
            assert(way[i].stepped(&way[j], ms[i], ks[i]));
        } else {
            assert(run[i].gave(&run[j], f));
        }
    }
}

/// The runs of two calls, one after the other, are one run.
pub proof fn runs_join<D: Demuxer, C: Decoder>(a: Seq<Pipeline<D, C>>, b: Seq<Pipeline<D, C>>)
    requires
        is_run(a),
        is_run(b),
        a.len() > 0,
        b.len() > 0,
        a.last() == b.first(),
    ensures
        is_run(a + b.drop_first()),
{
    let run = a + b.drop_first();
    let n = a.len() - 1;
    assert forall|i: int, j: int|
        #![trigger run[i], run[j]]
        0 <= i && j == i + 1 && j < run.len() implies went_on(run[i], run[j]) || exists|
        f: DecodedFrame,
    | #[trigger] run[i].gave(&run[j], f) by {
        if j < a.len() {
            assert(run[i] == a[i] && run[j] == a[j]);
        } else {
            assert(run[i] == b[i - n] && run[j] == b[j - n]);
        }
    }
}

/// A picture comes out of state `i`.
pub open spec fn gives<D: Demuxer, C: Decoder>(run: Seq<Pipeline<D, C>>, i: int) -> bool {
    0 <= i < run.len() && run[i].ready@.len() > 0
}

/// The time, in the file, of the picture that comes out of state `i`.
pub open spec fn time_in_file<D: Demuxer, C: Decoder>(
    run: Seq<Pipeline<D, C>>,
    i: int,
) -> Nanos {
    run[i].ready@[0].pts
}

/// The time at which the picture comes out of state `i`.
pub open spec fn time_of<D: Demuxer, C: Decoder>(run: Seq<Pipeline<D, C>>, i: int) -> Nanos {
    later(run[i].ready@[0].pts, run[i].loop_offset)
}

/// How many passes started before state `i`.
pub open spec fn passes<D: Demuxer, C: Decoder>(run: Seq<Pipeline<D, C>>, i: int) -> nat
    decreases i,
{
    if i <= 0 {
        0
    } else if run[i - 1].ready@.len() == 0 && run[i - 1].flushed {
        passes(run, i - 1) + 1
    } else {
        passes(run, i - 1)
    }
}

/// The demuxer told that the video is `d` long, whenever it was asked.
pub open spec fn is_long<D: Demuxer, C: Decoder>(
    run: Seq<Pipeline<D, C>>,
    d: Nanos,
) -> bool {
    forall|k: int, info: &VideoInfo|
        0 <= k < run.len() && #[trigger] call_ensures(D::info, (&run[k].demux,), info)
            ==> info.duration == Some(d)
}

/// Of a video whose length is known, a picture of a later pass comes out at its time in the file
/// and as many lengths later as passes were started.
pub proof fn each_pass_adds_the_length<D: Demuxer, C: Decoder>(
    run: Seq<Pipeline<D, C>>,
    d: Nanos,
    i: int,
)
    requires
        is_run(run),
        is_long(run, d),
        0 <= i < run.len(),
        run[0].loop_offset + passes(run, i) * d <= u128::MAX,
    ensures
        run[i].loop_offset == run[0].loop_offset + passes(run, i) * d,
        gives(run, i) ==> time_of(run, i) == later(
            time_in_file(run, i),
            (run[0].loop_offset + passes(run, i) * d) as u128,
        ),
    decreases i,
{
    if i > 0 {
        let n = passes(run, i - 1);
        assert((n + 1) * d == n * d + d) by (nonlinear_arith);
        assert(n * d >= 0) by (nonlinear_arith);
        each_pass_adds_the_length(run, d, i - 1);
        let (a, b) = (run[i - 1], run[i]);
        assert(went_on(a, b) || exists|f: DecodedFrame| #[trigger] a.gave(&b, f));
        if a.ready@.len() == 0 && a.flushed {
            assert(passes(run, i) == n + 1);
            assert(a.is_next_pass(b.loop_offset));
        } else {
            assert(passes(run, i) == n);
        }
    } else {
        assert(passes(run, i) * d == 0) by (nonlinear_arith)
            requires
                passes(run, i) == 0,
        ;
    }
}

/// What is known in state `k` of the picture that came out of state `i`: the same pass goes on,
/// or the time of the new one starts no earlier.
proof fn time_goes_on<D: Demuxer, C: Decoder>(run: Seq<Pipeline<D, C>>, i: int, k: int)
    requires
        is_run(run),
        gives(run, i),
        i < k < run.len(),
        forall|k: int, info: &VideoInfo|
            0 <= k < run.len() && #[trigger] call_ensures(D::info, (&run[k].demux,), info) ==> (
            info.duration matches Some(d) ==> time_in_file(run, i) <= d),
    ensures
        run[k].shown >= time_of(run, i),
        run[k].loop_offset >= run[i].loop_offset,
        passes(run, k) >= passes(run, i),
        passes(run, k) == passes(run, i) ==> run[k].loop_offset == run[i].loop_offset,
        passes(run, k) > passes(run, i) ==> run[k].loop_offset >= time_of(run, i),
    decreases k - i,
{
    let (a, b) = (run[k - 1], run[k]);
    assert(went_on(a, b) || exists|f: DecodedFrame| #[trigger] a.gave(&b, f));
    if k - 1 > i {
        time_goes_on(run, i, k - 1);
    }
}

/// Time never goes back, from picture to picture and from pass to pass, as long as it does not go
/// back inside a pass and no picture lies behind the end of the video. A video that does not
/// tell its length has no such end.
pub proof fn time_never_goes_back<D: Demuxer, C: Decoder>(
    run: Seq<Pipeline<D, C>>,
    i: int,
    j: int,
)
    requires
        is_run(run),
        gives(run, i),
        gives(run, j),
        i < j,
        passes(run, i) == passes(run, j) ==> time_in_file(run, i) <= time_in_file(run, j),
        forall|k: int, info: &VideoInfo|
            0 <= k < run.len() && #[trigger] call_ensures(D::info, (&run[k].demux,), info) ==> (
            info.duration matches Some(d) ==> time_in_file(run, i) <= d),
    ensures
        time_of(run, i) <= time_of(run, j),
{
    time_goes_on(run, i, j);
}

/// A picture of a later pass comes after every picture of the pass before it, as long as the
/// pictures of one pass lie inside the video.
pub proof fn later_passes_come_later(a: Nanos, b: Nanos, offset: Nanos, pass: Nanos)
    requires
        a < pass,
        offset + pass + b <= u128::MAX,
    ensures
        later(a, offset) < later(b, later(offset, pass)),
{
}

} // verus!
