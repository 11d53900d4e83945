//! Laws of media files and of pictures.

use crate::clock::Nanos;
use crate::config::PlayParams;
use crate::frame::{CpuFrame, Frame, FrameData};
use crate::media::still::{Picture, StillSource};
use crate::media::{kind_for, ms, open, open_err, Kind, MediaError, Source};
use crate::path::extension;
use crate::text::to_lower;
use vstd::prelude::*;

verus! {

/// The extension of a file tells what it is shown as, in any case.
pub proof fn extensions_tell_kinds(
    path: &str,
    ext: Option<String>,
    e: &str,
    low: String,
    r: Option<Kind>,
)
    requires
        call_ensures(extension, (path,), ext),
        ext matches Some(x) ==> x@ == e@,
        call_ensures(to_lower, (e,), low),
        call_ensures(kind_for, (path,), r),
    ensures
        ext is None ==> r is None,
        r == Some(Kind::Still) <==> ext is Some && (low@ == seq!['p', 'n', 'g'] || low@ == seq![
            'j',
            'p',
            'g',
        ] || low@ == seq!['j', 'p', 'e', 'g']),
        r == Some(Kind::Gif) <==> ext is Some && low@ == seq!['g', 'i', 'f'],
        r == Some(Kind::Video) <==> ext is Some && (low@ == seq!['m', 'p', '4'] || low@ == seq![
            'm',
            '4',
            'v',
        ] || low@ == seq!['m', 'o', 'v'] || low@ == seq!['w', 'e', 'b', 'm'] || low@ == seq![
            'm',
            'k',
            'v',
        ]),
{
    reveal_strlit("png");
    reveal_strlit("jpg");
    reveal_strlit("jpeg");
    reveal_strlit("gif");
    reveal_strlit("mp4");
    reveal_strlit("m4v");
    reveal_strlit("mov");
    reveal_strlit("webm");
    reveal_strlit("mkv");
    assert("png"@ =~= seq!['p', 'n', 'g']);
    assert("jpg"@ =~= seq!['j', 'p', 'g']);
    assert("jpeg"@ =~= seq!['j', 'p', 'e', 'g']);
    assert("gif"@ =~= seq!['g', 'i', 'f']);
    assert("mp4"@ =~= seq!['m', 'p', '4']);
    assert("m4v"@ =~= seq!['m', '4', 'v']);
    assert("mov"@ =~= seq!['m', 'o', 'v']);
    assert("webm"@ =~= seq!['w', 'e', 'b', 'm']);
    assert("mkv"@ =~= seq!['m', 'k', 'v']);
    assert("png"@[0] == 'p' && "jpg"@[0] == 'j' && "jpeg"@[0] == 'j' && "gif"@[0] == 'g');
    assert("mp4"@[0] == 'm' && "m4v"@[0] == 'm' && "mov"@[0] == 'm' && "mkv"@[0] == 'm' && "webm"@[0]
        == 'w');
}

/// A file that is not there is missing; one whose extension tells nothing is told with it, or with
/// its path if it has none.
pub proof fn a_file_is_opened_by_its_extension(
    play: PlayParams,
    present: bool,
    r: Result<Kind, MediaError>,
    path: &str,
    ext: Option<String>,
    kind: Option<Kind>,
)
    requires
        call_ensures(open, (&play, present), r),
        path@ == play.path@,
        call_ensures(extension, (path,), ext),
        call_ensures(kind_for, (path,), kind),
    ensures
        !present ==> (r matches Err(MediaError::Missing(p)) && p@ == path@),
        present && kind is Some ==> r == Ok::<Kind, MediaError>(kind->0),
        present && kind is None ==> (r matches Err(MediaError::UnknownFormat(f)) && f@ == (
        match ext {
            Some(e) => "."@ + e@,
            None => path@,
        })),
{
}

/// Errors are told in words.
pub proof fn errors_are_told(e: MediaError, r: String, path: &str, reason: &str, o: MediaError)
    requires
        call_ensures(MediaError::text, (&e,), r),
        call_ensures(open_err, (path, reason), o),
    ensures
        e matches MediaError::Missing(p) ==> r@ == "file not found: "@ + p@,
        e matches MediaError::UnknownFormat(f) ==> r@ == "unsupported format "@ + f@,
        e matches MediaError::Open { path: p, reason: why } ==> r@ == "failed to open "@ + p@ + ": "@
            + why@,
        e matches MediaError::Video { path: p, reason: why } ==> r@ == "video "@ + p@ + ": "@ + why@,
        o matches MediaError::Open { path: p, reason: why } && p@ == path@ && why@ == reason@,
{
}

/// A millisecond has a million nanoseconds.
pub proof fn milliseconds_are_nanoseconds(v: u64, r: Nanos)
    requires
        call_ensures(ms, (v,), r),
    ensures
        r == v * 1_000_000,
{
}

/// The frame of a picture: its first, with the pixels that a frame of the picture has.
pub open spec fn is_first_frame(s: StillSource, c: CpuFrame) -> bool {
    &&& s.frame matches Some(f)
    &&& f.generation == 1
    &&& f.data matches FrameData::Cpu(d)
    &&& d.width == c.width
    &&& d.height == c.height
    &&& d.stride == c.stride
    &&& d.pixels@ == c.pixels@
}

/// The error of an empty picture.
pub open spec fn is_empty_picture(e: MediaError, path: Seq<char>) -> bool {
    e matches MediaError::Open { path: p, reason } && p@ == path && reason@ == "пустая картинка"@
}

/// A picture is shown as the frame of its pixels; one without pixels is not shown.
pub proof fn a_picture_is_shown_as_it_is(
    path: &str,
    p: Picture,
    r: Result<StillSource, MediaError>,
    bytes: &[u8],
    c: CpuFrame,
)
    requires
        call_ensures(StillSource::from_picture, (path, &p), r),
        bytes@ == p.rgba@,
        call_ensures(CpuFrame::from_rgba, (p.width, p.height, bytes), c),
    ensures
        r is Err <==> p.width == 0 || p.height == 0,
        r matches Err(e) ==> is_empty_picture(e, path@),
        r matches Ok(s) ==> is_first_frame(s, c),
{
}

/// The first bytes of a file tell its format, and its name does if they tell nothing, unless its
/// extension is empty; what the decoder makes of it is shown.
pub proof fn a_file_is_shown_as_it_is_decoded(
    path: &str,
    bytes: &[u8],
    r: Result<StillSource, MediaError>,
    format: image::ImageFormat,
)
    requires
        call_ensures(StillSource::open, (path, bytes), r),
        crate::media::still::guessed(bytes@) == Some(format) || (crate::media::still::guessed(
            bytes@,
        ) is None && crate::media::still::named(path@) == Ok::<image::ImageFormat, Seq<char>>(
            format,
        ) && crate::path::extension_of(path@) != Some(Seq::<char>::empty())) || (
        crate::media::still::guessed(bytes@) is None && crate::media::still::named(""@) == Ok::<
            image::ImageFormat,
            Seq<char>,
        >(format) && crate::path::extension_of(path@) == Some(Seq::<char>::empty())),
    ensures
        match crate::media::still::loaded(bytes@, format) {
            Err(why) => r matches Err(MediaError::Open { path: p, reason }) && p@ == path@ && reason@
                == why,
            Ok((width, height, rgba)) => if width == 0 || height == 0 {
                r matches Err(e) && is_empty_picture(e, path@)
            } else {
                r matches Ok(s) && (s.frame matches Some(f) && f.generation == 1 && (
                f.data matches FrameData::Cpu(c) && c.width == width && c.height == height && c.stride
                    == 4 * width && c.pixels@ == crate::frame::premultiplied(rgba)))
            },
        },
{
    if let Some(e) = crate::path::extension_of(path@) {
        if e.len() == 0 {
            assert(e =~= Seq::<char>::empty());
        }
    }
}

/// A still is a still, and its frame is handed out once.
pub proof fn a_still_is_handed_out_once(s: StillSource, kind: Kind)
    ensures
        call_ensures(<StillSource as Source>::kind, (&s,), kind) ==> kind is Still,
        forall|m: &mut StillSource, now: Nanos, r: Result<Option<Frame>, MediaError>| #[trigger]
            call_ensures(<StillSource as Source>::poll, (m, now), r) ==> (r matches Ok(f) && f
                == m.frame) && final(m).frame is None,
{
}

} // verus!
