//! PNG and JPEG: decoded once, with the `image` crate; the frame never changes.

use crate::clock::Nanos;
use crate::frame::{CpuFrame, Frame, FrameData};
use crate::media::{open_err, Kind, MediaError, Source};
use crate::path::extension;
use vstd::prelude::*;
use vstd::string::*;

verus! {

/// `image::ImageFormat`: a format of the `image` crate, carried from the guess to the decoder.
#[verifier::external_type_specification]
#[verifier::external_body]
pub struct ExImageFormat(image::ImageFormat);

/// What `image::guess_format` says of the bytes of a file.
pub uninterp spec fn guessed(b: Seq<u8>) -> Option<image::ImageFormat>;

/// What `image::ImageFormat::from_path` says of a path.
pub uninterp spec fn named(path: Seq<char>) -> Result<image::ImageFormat, Seq<char>>;

/// What `image::load_from_memory_with_format` gives, as RGBA: width, height and pixels, or why
/// the picture cannot be decoded.
pub uninterp spec fn loaded(b: Seq<u8>, format: image::ImageFormat) -> Result<
    (u32, u32, Seq<u8>),
    Seq<char>,
>;

/// A decoded picture, RGBA.
pub struct Picture {
    pub width: u32,
    pub height: u32,
    pub rgba: Vec<u8>,
}

/// `image::guess_format`: the format by the first bytes, `None` if no format starts like
/// that.
#[verifier::external_body]
fn guess(bytes: &[u8]) -> (r: Option<image::ImageFormat>)
    ensures
        r == guessed(bytes@),
{
    image::guess_format(bytes).ok()
}

/// `image::ImageFormat::from_path`: the format by the extension of the file.
#[verifier::external_body]
fn by_name(path: &str) -> (r: Result<image::ImageFormat, String>)
    ensures
        match named(path@) {
            Ok(f) => r matches Ok(g) && g == f,
            Err(why) => r matches Err(e) && e@ == why,
        },
{
    image::ImageFormat::from_path(path).map_err(|e| e.to_string())
}

/// `image::load_from_memory_with_format` and `DynamicImage::into_rgba8`: the picture has four
/// bytes per pixel, and not more pixels than the memory that the crate allows itself (512 MiB)
/// has bytes.
#[verifier::external_body]
fn load(bytes: &[u8], format: image::ImageFormat) -> (r: Result<Picture, String>)
    ensures
        match loaded(bytes@, format) {
            Ok((width, height, rgba)) => {
                &&& r matches Ok(p) && p.width == width && p.height == height && p.rgba@ == rgba
                &&& rgba.len() == 4 * width * height
                &&& width * height <= 0x2000_0000
            },
            Err(why) => r matches Err(e) && e@ == why,
        },
{
    let img = image::load_from_memory_with_format(bytes, format).map_err(|e| e.to_string())?;
    let img = img.into_rgba8();
    Ok(Picture { width: img.width(), height: img.height(), rgba: img.into_raw() })
}

/// The name that the format is looked up by; an empty extension counts as none.
pub open spec fn telling_name(path: Seq<char>) -> Seq<char> {
    match crate::path::extension_of(path) {
        Some(e) => if e.len() == 0 {
            ""@
        } else {
            path
        },
        None => path,
    }
}

/// The picture in a file. Its first bytes decide on the format; if they say nothing, its name
/// does.
pub open spec fn picture(path: Seq<char>, b: Seq<u8>) -> Result<(u32, u32, Seq<u8>), Seq<char>> {
    match guessed(b) {
        Some(f) => loaded(b, f),
        None => match named(telling_name(path)) {
            Ok(f) => loaded(b, f),
            Err(why) => Err(why),
        },
    }
}

fn name_to_ask(path: &str) -> (r: &str)
    ensures
        r@ == telling_name(path@),
{
    match extension(path) {
        Some(e) => if e.as_str().unicode_len() == 0 {
            ""
        } else {
            path
        },
        None => path,
    }
}

/// A picture that never changes.
pub struct StillSource {
    pub frame: Option<Frame>,
}

impl StillSource {
    /// The frame of a picture waits to be handed out.
    pub open spec fn shows(&self, width: u32, height: u32, rgba: Seq<u8>) -> bool {
        &&& self.frame matches Some(f)
        &&& f.generation == 1
        &&& f.data matches FrameData::Cpu(c)
        &&& c.wf()
        &&& c.width == width
        &&& c.height == height
        &&& c.pixels@ == crate::frame::premultiplied(rgba)
    }

    /// The source of a decoded picture.
    pub fn from_picture(path: &str, p: &Picture) -> (r: Result<StillSource, MediaError>)
        requires
            p.rgba@.len() == 4 * p.width * p.height,
            p.height > 0 ==> 4 * p.width <= u32::MAX,
        ensures
            if p.width == 0 || p.height == 0 {
                r matches Err(e) && e.is_open(path@, "пустая картинка"@)
            } else {
                r matches Ok(s) && s.shows(p.width, p.height, p.rgba@)
            },
    {
        if p.width == 0 || p.height == 0 {
            return Err(open_err(path, "пустая картинка"));
        }
        let frame = Frame {
            generation: 1,
            data: FrameData::Cpu(CpuFrame::from_rgba(p.width, p.height, p.rgba.as_slice())),
        };
        Ok(StillSource { frame: Some(frame) })
    }

    /// Opens the file `path`, which holds `bytes`.
    pub fn open(path: &str, bytes: &[u8]) -> (r: Result<StillSource, MediaError>)
        ensures
            match picture(path@, bytes@) {
                Err(why) => r matches Err(e) && e.is_open(path@, why),
                Ok((width, height, rgba)) => if width == 0 || height == 0 {
                    r matches Err(e) && e.is_open(path@, "пустая картинка"@)
                } else {
                    r matches Ok(s) && s.shows(width, height, rgba)
                },
            },
    {
        let format = match guess(bytes) {
            Some(f) => f,
            None => match by_name(name_to_ask(path)) {
                Ok(f) => f,
                Err(why) => {
                    return Err(open_err(path, why.as_str()));
                },
            },
        };
        match load(bytes, format) {
            Ok(p) => {
                assert(p.height > 0 ==> p.width <= p.width * p.height) by (nonlinear_arith);
                StillSource::from_picture(path, &p)
            },
            Err(why) => Err(open_err(path, why.as_str())),
        }
    }
}

impl Source for StillSource {
    fn kind(&self) -> (r: Kind)
        ensures
            r == Kind::Still,
    {
        Kind::Still
    }

    /// The frame is handed out once: who draws it keeps the texture.
    fn poll(&mut self, now: Nanos) -> (r: Result<Option<Frame>, MediaError>)
        ensures
            r == Ok::<Option<Frame>, MediaError>(old(self).frame),
            final(self).frame is None,
    {
        Ok(self.frame.take())
    }
}

} // verus!
