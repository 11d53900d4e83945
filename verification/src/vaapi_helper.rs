//! The VA-API helper: what the helper library that decodes on the GPU decides between its
//! calls into the driver. Frames come out as NV12.

use crate::text::{decimal, joined};
use vstd::prelude::*;
use vstd::string::*;

verus! {

/// The version of the interface between the helper and the plugin.
pub const ABI: u32 = 1;

pub const CODEC_H264: u32 = 1;

pub const CODEC_HEVC: u32 = 2;

pub const CODEC_VP8: u32 = 3;

pub const CODEC_VP9: u32 = 4;

pub const CODEC_AV1: u32 = 5;

/// How many frames the pool holds beyond the least: room for the frame that is being copied.
pub const POOL_HEADROOM: usize = 2;

/// How often in a row the decoder may want something without anything moving.
pub const MAX_STALLS: u32 = 3;

/// A codec that the helper decodes.
#[derive(Debug, Clone, Copy, PartialEq, Eq, Structural)]
pub enum HelperCodec {
    H264,
    Hevc,
    Vp8,
    Vp9,
    Av1,
}

/// The codec of a number.
pub open spec fn codec_of(code: u32) -> Option<HelperCodec> {
    if code == CODEC_H264 {
        Some(HelperCodec::H264)
    } else if code == CODEC_HEVC {
        Some(HelperCodec::Hevc)
    } else if code == CODEC_VP8 {
        Some(HelperCodec::Vp8)
    } else if code == CODEC_VP9 {
        Some(HelperCodec::Vp9)
    } else if code == CODEC_AV1 {
        Some(HelperCodec::Av1)
    } else {
        None
    }
}

/// The codec of a number, or the message that it is unknown.
pub fn codec(code: u32) -> (r: Result<HelperCodec, String>)
    ensures
        match r {
            Ok(c) => codec_of(code) == Some(c),
            Err(e) => codec_of(code) is None && e@ == "неизвестный кодек "@
                + crate::text::decimal_of(code as nat),
        },
{
    if code == CODEC_H264 {
        Ok(HelperCodec::H264)
    } else if code == CODEC_HEVC {
        Ok(HelperCodec::Hevc)
    } else if code == CODEC_VP8 {
        Ok(HelperCodec::Vp8)
    } else if code == CODEC_VP9 {
        Ok(HelperCodec::Vp9)
    } else if code == CODEC_AV1 {
        Ok(HelperCodec::Av1)
    } else {
        Err(joined("неизвестный кодек ", decimal(code as u64).as_str()))
    }
}

/// The numbers of the plugin and of the helper mean the same codecs.
pub proof fn both_sides_agree(codec: crate::media::video::pipeline::Codec)
    ensures
        match crate::media::video::decode::vaapi::code_of(codec) {
            Some(c) => codec_of(c) == Some(
                match codec {
                    crate::media::video::pipeline::Codec::H264 => HelperCodec::H264,
                    crate::media::video::pipeline::Codec::Hevc => HelperCodec::Hevc,
                    crate::media::video::pipeline::Codec::Vp8 => HelperCodec::Vp8,
                    crate::media::video::pipeline::Codec::Vp9 => HelperCodec::Vp9,
                    _ => HelperCodec::Av1,
                },
            ),
            None => codec is Other,
        },
{
}

/// What the decoder did with the rest of a packet.
pub enum Took {
    /// It took so many bytes.
    Bytes(usize),
    /// It wants its events handled, or free frames.
    Blocked,
    Failed(String),
}

/// What to do next with a packet.
pub enum Step {
    /// Hand over the rest.
    More,
    /// Handle the events, then say whether something moved.
    Drain,
    /// The packet is done; handle the events once more.
    Done,
    Fail(String),
}

/// A packet on its way into the decoder.
pub struct Feed {
    pub len: usize,
    pub off: usize,
    pub stalls: u32,
}

impl Feed {
    /// The rest of the packet is inside it.
    pub open spec fn wf(&self) -> bool {
        self.off <= self.len && self.stalls <= MAX_STALLS
    }

    /// A packet of `len` bytes.
    pub fn new(len: usize) -> (r: Feed)
        ensures
            r.wf(),
            r.len == len,
            r.off == 0,
            r.stalls == 0,
    {
        Feed { len, off: 0, stalls: 0 }
    }

    /// Whether something is left to hand over.
    pub fn is_more(&self) -> (r: bool)
        ensures
            r == (self.off < self.len),
    {
        self.off < self.len
    }

    /// The decoder was handed the rest. One that takes nothing is left alone, so that nothing
    /// spins forever.
    pub fn took(&mut self, outcome: Took) -> (r: Step)
        requires
            old(self).wf(),
            outcome matches Took::Bytes(n) ==> old(self).off + n <= old(self).len,
        ensures
            final(self).wf(),
            final(self).len == old(self).len,
            match outcome {
                Took::Bytes(n) => if n == 0 {
                    r is Done && *final(self) == *old(self)
                } else {
                    &&& final(self).off == old(self).off + n
                    &&& final(self).stalls == 0
                    &&& if final(self).off < final(self).len {
                        r is More
                    } else {
                        r is Done
                    }
                },
                Took::Blocked => r is Drain && *final(self) == *old(self),
                Took::Failed(e) => (r matches Step::Fail(m) && m@ == "VA-API: "@ + e@)
                    && *final(self) == *old(self),
            },
    {
        match outcome {
            Took::Bytes(n) => {
                if n == 0 {
                    return Step::Done;
                }
                self.off = self.off + n;
                self.stalls = 0;
                if self.off < self.len {
                    Step::More
                } else {
                    Step::Done
                }
            },
            Took::Blocked => Step::Drain,
            Took::Failed(e) => Step::Fail(joined("VA-API: ", e.as_str())),
        }
    }

    /// The events were handled; `progress` says whether there were any.
    pub fn drained(&mut self, progress: bool) -> (r: Step)
        requires
            old(self).wf(),
        ensures
            final(self).wf(),
            final(self).len == old(self).len,
            final(self).off == old(self).off,
            if progress {
                r is More && final(self).stalls == old(self).stalls
            } else if old(self).stalls < MAX_STALLS {
                r is More && final(self).stalls == old(self).stalls + 1
            } else {
                (r matches Step::Fail(m) && m@ == "VA-API: декодеру не хватает кадров"@)
                    && final(self).stalls == old(self).stalls
            },
    {
        if progress {
            return Step::More;
        }
        if self.stalls >= MAX_STALLS {
            return Step::Fail("VA-API: декодеру не хватает кадров".to_owned());
        }
        self.stalls = self.stalls + 1;
        Step::More
    }
}

/// Whether a decoded frame has the two planes of NV12.
pub fn check_planes(planes: usize, pitches: usize) -> (r: Result<(), String>)
    ensures
        match r {
            Ok(_) => planes >= 2 && pitches >= 2,
            Err(e) => (planes < 2 || pitches < 2) && e@ == "кадр без двух плоскостей NV12"@,
        },
{
    if planes < 2 || pitches < 2 {
        Err("кадр без двух плоскостей NV12".to_owned())
    } else {
        Ok(())
    }
}

/// How many bytes of a message go into a buffer of `len` bytes, with a zero behind them;
/// `None` if there is no room at all.
pub fn error_len(message: usize, len: usize) -> (r: Option<usize>)
    ensures
        match r {
            Some(n) => len > 0 && n == (if message < len {
                message as int
            } else {
                len - 1
            }),
            None => len == 0,
        },
{
    if len == 0 {
        None
    } else if message < len {
        Some(message)
    } else {
        Some(len - 1)
    }
}

} // verus!
