//! GIF files, read with the `gif` crate.

use vstd::prelude::*;

verus! {

/// A frame as the file holds it. Places are in pixels and the delay is in hundredths of a
/// second.
pub struct RawFrame {
    pub delay: u16,
    /// 0 any, 1 keep, 2 background, 3 previous
    pub dispose: u8,
    pub left: u16,
    pub top: u16,
    pub width: u16,
    pub height: u16,
    pub rgba: Vec<u8>,
}

impl View for RawFrame {
    type V = (u16, u8, (u16, u16), (u16, u16), Seq<u8>);

    /// The delay, the disposal, left and top, width and height, the pixels.
    open spec fn view(&self) -> (u16, u8, (u16, u16), (u16, u16), Seq<u8>) {
        (
            self.delay,
            self.dispose,
            (self.left, self.top),
            (self.width, self.height),
            self.rgba@,
        )
    }
}

/// A little-endian number of two bytes.
pub open spec fn le16(b: Seq<u8>, at: int) -> u16 {
    (b[at] as int + 256 * b[at + 1] as int) as u16
}

/// The length in bytes of the global colour table that a header announces.
pub open spec fn table_len(b: Seq<u8>) -> int {
    if b[10] >= 128 {
        let bits = b[10] % 8;
        3 * (if bits == 0 {
            2int
        } else if bits == 1 {
            4
        } else if bits == 2 {
            8
        } else if bits == 3 {
            16
        } else if bits == 4 {
            32
        } else if bits == 5 {
            64
        } else if bits == 6 {
            128
        } else {
            256
        })
    } else {
        0
    }
}

/// The global colour table of a file.
pub open spec fn table(b: Seq<u8>) -> Option<Seq<u8>> {
    if table_len(b) > 0 {
        Some(b.subrange(13, 13 + table_len(b)))
    } else {
        None
    }
}

/// The index of the background colour, if the colour table has that entry. A file without a
/// table keeps its index.
pub open spec fn background_index(b: Seq<u8>) -> Option<usize> {
    if table_len(b) > 0 && 3 * b[11] >= table_len(b) {
        None
    } else {
        Some(b[11] as usize)
    }
}

/// A file that is being read, frame by frame.
#[verifier::external_body]
pub struct GifReader {
    inner: gif::Decoder<std::io::Cursor<Vec<u8>>>,
}

/// The bytes of the file that is being read.
pub uninterp spec fn input(r: GifReader) -> Seq<u8>;

/// How many frames were read.
pub uninterp spec fn taken(r: GifReader) -> nat;

/// What `DecodeOptions::read_info` says to the bytes of a file: nothing, or an error.
pub uninterp spec fn header(b: Seq<u8>) -> Result<(), Seq<char>>;

/// What `Decoder::read_next_frame` gives after `n` frames: a frame, the end, or an error.
pub uninterp spec fn frame(b: Seq<u8>, n: nat) -> Result<
    Option<(u16, u8, (u16, u16), (u16, u16), Seq<u8>)>,
    Seq<char>,
>;

/// `gif::DecodeOptions::read_info`, with RGBA output: reads the header of a file, up to the
/// first frame. Success depends on the bytes alone, and so does the text of the error. A file
/// that is opened holds the header and the colour table that it announces.
#[verifier::external_body]
pub(crate) fn read_info(bytes: Vec<u8>) -> (r: Result<GifReader, String>)
    ensures
        match header(bytes@) {
            Ok(_) => r matches Ok(g) && input(g) == bytes@ && taken(g) == 0 && bytes@.len() >= 13
                + table_len(bytes@),
            Err(why) => r matches Err(e) && e@ == why,
        },
{
    let mut opts = gif::DecodeOptions::new();
    opts.set_color_output(gif::ColorOutput::RGBA);
    match opts.read_info(std::io::Cursor::new(bytes)) {
        Ok(inner) => Ok(GifReader { inner }),
        Err(e) => Err(e.to_string()),
    }
}

/// `gif::Decoder::width`: the width of the screen, from the header.
#[verifier::external_body]
pub(crate) fn screen_width(g: &GifReader) -> (r: u16)
    ensures
        r == le16(input(*g), 6),
{
    g.inner.width()
}

/// `gif::Decoder::height`: the height of the screen, from the header.
#[verifier::external_body]
pub(crate) fn screen_height(g: &GifReader) -> (r: u16)
    ensures
        r == le16(input(*g), 8),
{
    g.inner.height()
}

/// `gif::Decoder::bg_color`: the index of the background colour.
#[verifier::external_body]
pub(crate) fn bg_color(g: &GifReader) -> (r: Option<usize>)
    ensures
        r == background_index(input(*g)),
{
    g.inner.bg_color()
}

/// `gif::Decoder::global_palette`: the global colour table.
#[verifier::external_body]
pub(crate) fn global_palette(g: &GifReader) -> (r: Option<Vec<u8>>)
    ensures
        match r {
            Some(p) => table(input(*g)) == Some(p@),
            None => table(input(*g)) is None,
        },
{
    g.inner.global_palette().map(<[u8]>::to_vec)
}

/// `gif::Decoder::read_next_frame`: the next frame, or `None` at the end. A frame has four bytes
/// per pixel, and its disposal is one of four. Every frame takes some bytes of the file, so
/// there are not more frames than bytes.
#[verifier::external_body]
pub(crate) fn read_next_frame(g: &mut GifReader) -> (r: Result<Option<RawFrame>, String>)
    ensures
        input(*final(g)) == input(*old(g)),
        match frame(input(*old(g)), taken(*old(g))) {
            Ok(Some(raw)) => {
                &&& r matches Ok(Some(f)) && f@ == raw
                &&& raw.1 <= 3
                &&& raw.4.len() == 4 * raw.3.0 * raw.3.1
                &&& taken(*final(g)) == taken(*old(g)) + 1
                &&& taken(*final(g)) <= input(*old(g)).len()
            },
            Ok(None) => r matches Ok(None),
            Err(why) => r matches Err(e) && e@ == why,
        },
{
    let next = g.inner.read_next_frame().map_err(|e| e.to_string())?;
    Ok(next.map(|f| RawFrame {
        delay: f.delay,
        dispose: f.dispose as u8,
        left: f.left,
        top: f.top,
        width: f.width,
        height: f.height,
        rgba: f.buffer.to_vec(),
    }))
}

} // verus!
