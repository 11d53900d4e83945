//! Media sources: picture, GIF, video. The registry sees them all the same way: "the frame
//! for this moment, if it changed".

pub mod gif;
pub mod gif_file;
pub mod still;
pub mod video;

use crate::clock::Nanos;
use crate::config::PlayParams;
use crate::frame::Frame;
use crate::path::extension;
use crate::text::{same, to_lower};
use vstd::prelude::*;
use vstd::string::*;

verus! {

/// What a file is shown as.
#[derive(Debug, Clone, Copy, PartialEq, Eq, Structural)]
pub enum Kind {
    Still,
    Gif,
    Video,
}

/// Why a file is not shown. The message is ready for the user.
#[derive(Debug, Clone, PartialEq, Eq)]
pub enum MediaError {
    Missing(String),
    UnknownFormat(String),
    Open { path: String, reason: String },
    Video { path: String, reason: String },
}

impl MediaError {
    /// The message.
    pub open spec fn message(&self) -> Seq<char> {
        match self {
            MediaError::Missing(path) => "file not found: "@ + path@,
            MediaError::UnknownFormat(what) => "unsupported format "@ + what@,
            MediaError::Open { path, reason } => "failed to open "@ + path@ + ": "@ + reason@,
            MediaError::Video { path, reason } => "video "@ + path@ + ": "@ + reason@,
        }
    }

    /// The message for the user.
    pub fn text(&self) -> (r: String)
        ensures
            r@ == self.message(),
    {
        match self {
            MediaError::Missing(path) => {
                let mut out = "file not found: ".to_owned();
                out.append(path.as_str());
                out
            },
            MediaError::UnknownFormat(what) => {
                let mut out = "unsupported format ".to_owned();
                out.append(what.as_str());
                out
            },
            MediaError::Open { path, reason } => {
                let mut out = "failed to open ".to_owned();
                out.append(path.as_str());
                out.append(": ");
                out.append(reason.as_str());
                out
            },
            MediaError::Video { path, reason } => {
                let mut out = "video ".to_owned();
                out.append(path.as_str());
                out.append(": ");
                out.append(reason.as_str());
                out
            },
        }
    }

    /// The file `path` could not be opened, for this reason.
    pub open spec fn is_open(&self, path: Seq<char>, why: Seq<char>) -> bool {
        self matches MediaError::Open { path: p, reason } && p@ == path && reason@ == why
    }

    /// The video `path` cannot be played, for this reason.
    pub open spec fn is_video(&self, path: Seq<char>, why: Seq<char>) -> bool {
        self matches MediaError::Video { path: p, reason } && p@ == path && reason@ == why
    }
}

/// The error of a file that could not be opened.
pub fn open_err(path: &str, reason: &str) -> (e: MediaError)
    ensures
        e.is_open(path@, reason@),
{
    MediaError::Open { path: path.to_owned(), reason: reason.to_owned() }
}

/// What every source offers.
pub trait Source {
    /// What the source is.
    fn kind(&self) -> Kind;

    /// The frame current at `now`. `None` means that the picture has not changed since the
    /// last call. For video, a call also says "someone is watching": without calls the
    /// decoder goes to sleep.
    fn poll(&mut self, now: Nanos) -> Result<Option<Frame>, MediaError>;
}

/// What a file is shown as, by its extension. The case of the letters does not matter.
pub open spec fn kind_of(path: Seq<char>) -> Option<Kind> {
    match crate::path::extension_of(path) {
        Some(e) => {
            let ext = crate::text::lowered(e);
            if ext == "png"@ || ext == "jpg"@ || ext == "jpeg"@ {
                Some(Kind::Still)
            } else if ext == "gif"@ {
                Some(Kind::Gif)
            } else if ext == "mp4"@ || ext == "m4v"@ || ext == "mov"@ || ext == "webm"@ || ext
                == "mkv"@ {
                Some(Kind::Video)
            } else {
                None
            }
        },
        None => None,
    }
}

/// What a file is shown as, by its extension.
pub fn kind_for(path: &str) -> (r: Option<Kind>)
    ensures
        r == kind_of(path@),
{
    match extension(path) {
        Some(e) => {
            let lower = to_lower(e.as_str());
            let ext = lower.as_str();
            if same(ext, "png") || same(ext, "jpg") || same(ext, "jpeg") {
                Some(Kind::Still)
            } else if same(ext, "gif") {
                Some(Kind::Gif)
            } else if same(ext, "mp4") || same(ext, "m4v") || same(ext, "mov") || same(ext, "webm")
                || same(ext, "mkv") {
                Some(Kind::Video)
            } else {
                None
            }
        },
        None => None,
    }
}

/// How the format of an unsupported file is shown: its extension with the dot, or the whole
/// path.
pub open spec fn format_shown(path: Seq<char>) -> Seq<char> {
    match crate::path::extension_of(path) {
        Some(e) => "."@ + e,
        None => path,
    }
}

/// Which source opens the file of `play`; `present` says whether the file is there.
pub fn open(play: &PlayParams, present: bool) -> (r: Result<Kind, MediaError>)
    ensures
        match r {
            Ok(k) => present && kind_of(play.path@) == Some(k),
            Err(MediaError::Missing(p)) => !present && p@ == play.path@,
            Err(MediaError::UnknownFormat(f)) => present && kind_of(play.path@) is None && f@
                == format_shown(play.path@),
            Err(_) => false,
        },
{
    let path = play.path.as_str();
    if !present {
        return Err(MediaError::Missing(path.to_owned()));
    }
    match kind_for(path) {
        Some(k) => Ok(k),
        None => {
            let shown = match extension(path) {
                Some(e) => {
                    let mut out = ".".to_owned();
                    out.append(e.as_str());
                    out
                },
                None => path.to_owned(),
            };
            Err(MediaError::UnknownFormat(shown))
        },
    }
}

/// Milliseconds as a span of time.
pub fn ms(v: u64) -> (r: Nanos)
    ensures
        r == v * 1_000_000,
{
    v as u128 * 1_000_000
}

} // verus!
