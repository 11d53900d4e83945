use gif::{DisposalMethod, Encoder, Frame as GFrame, Repeat};
use noshare_cover::frame::{Frame, FrameData};
use noshare_cover::media::gif::{background, Disposal, GifFrame, GifSource};
use noshare_cover::media::gif_file::RawFrame;
use noshare_cover::media::MediaError;
use std::time::Duration;

/// 2x1 GIF: frame 0 paints the left pixel red (Keep), frame 1 paints the right one blue.
fn write_gif(dispose0: DisposalMethod) -> Vec<u8> {
    let palette = [255, 0, 0, 0, 0, 255, 0, 0, 0];
    let mut f = Vec::new();
    let mut enc = Encoder::new(&mut f, 2, 1, &palette).unwrap();
    enc.set_repeat(Repeat::Infinite).unwrap();

    let a = GFrame {
        width: 1,
        height: 1,
        delay: 10,
        dispose: dispose0,
        buffer: std::borrow::Cow::Borrowed(&[0]),
        ..GFrame::default()
    };
    enc.write_frame(&a).unwrap();

    let b = GFrame {
        left: 1,
        width: 1,
        height: 1,
        delay: 20,
        buffer: std::borrow::Cow::Borrowed(&[1]),
        ..GFrame::default()
    };
    enc.write_frame(&b).unwrap();
    drop(enc);
    f
}

fn ms(v: u64) -> u128 {
    Duration::from_millis(v).as_nanos()
}

fn open(bytes: Vec<u8>, looped: bool) -> GifSource {
    GifSource::open("/t.gif", bytes, 1.0f64.to_bits(), looped).unwrap()
}

fn poll(g: &mut GifSource, now: u128) -> Option<Frame> {
    let raw = g.elapsed(now);
    g.poll(raw)
}

fn pixel(g: &GifSource, x: u32, y: u32) -> [u8; 4] {
    let i = ((y * g.width + x) * 4) as usize;
    g.canvas[i..i + 4].try_into().unwrap()
}

#[test]
fn timeline_and_keep_disposal() {
    let mut g = open(write_gif(DisposalMethod::Keep), true);
    assert_eq!(g.total, ms(300));

    let t0 = ms(77_000);
    assert!(poll(&mut g, t0).is_some());
    assert_eq!(pixel(&g, 0, 0), [0, 0, 255, 255]); // red in BGRA

    assert!(
        poll(&mut g, t0 + ms(50)).is_none(),
        "same frame -> no upload"
    );
    assert!(poll(&mut g, t0 + ms(150)).is_some());
    assert_eq!(
        pixel(&g, 0, 0),
        [0, 0, 255, 255],
        "Keep leaves previous frame"
    );
    assert_eq!(pixel(&g, 1, 0), [255, 0, 0, 255]); // blue

    // loop: back to frame 0, the canvas is rebuilt from scratch
    poll(&mut g, t0 + ms(310));
    assert_eq!(g.shown, Some(0));
}

#[test]
fn background_disposal_clears_rect() {
    let mut g = open(write_gif(DisposalMethod::Background), true);
    let t0 = ms(77_000);
    poll(&mut g, t0);
    poll(&mut g, t0 + ms(150));
    assert_eq!(pixel(&g, 0, 0), g.bg, "Background disposal restores bg");
}

#[test]
fn no_loop_stops_on_last_frame() {
    let mut g = open(write_gif(DisposalMethod::Keep), false);
    let t0 = ms(77_000);
    poll(&mut g, t0);
    poll(&mut g, t0 + ms(10_000));
    assert_eq!(g.shown, Some(1));
}

#[test]
fn previous_disposal_leaves_no_trace() {
    let mut g = open(write_gif(DisposalMethod::Previous), true);
    let blank = g.canvas.clone();
    let t0 = ms(1);
    poll(&mut g, t0);
    assert_eq!(pixel(&g, 0, 0), [0, 0, 255, 255]);
    poll(&mut g, t0 + ms(150));
    assert_eq!(pixel(&g, 0, 0), blank[..4], "as it was before the frame");
    assert_eq!(pixel(&g, 1, 0), [255, 0, 0, 255]);
}

#[test]
fn frames_come_out_with_numbers_and_pixels() {
    let mut g = open(write_gif(DisposalMethod::Keep), true);
    let f = poll(&mut g, 0).unwrap();
    assert_eq!(f.generation, 1);
    assert_eq!(f.data.size(), (2, 1));
    let FrameData::Cpu(c) = f.data else { panic!("pixels in memory") };
    assert_eq!(c.pixels.as_slice(), g.canvas.as_slice());
    assert_eq!(c.stride, 8);
    assert_eq!(poll(&mut g, ms(100)).unwrap().generation, 2);
    assert_eq!(poll(&mut g, ms(300)).unwrap().generation, 3, "the next pass");
}

#[test]
fn any_way_to_a_frame_gives_the_same_canvas() {
    let bytes = write_gif(DisposalMethod::Background);
    let mut straight = open(bytes.clone(), true);
    straight.show(1);
    let mut around = open(bytes, true);
    for target in [1, 0, 1, 1, 0, 1] {
        around.show(target);
    }
    assert_eq!(straight.canvas, around.canvas);
    assert_eq!(around.frame_at(ms(99)), 0);
    assert_eq!(around.frame_at(ms(100)), 1);
    assert_eq!(around.frame_at(ms(9999)), 1);
}

#[test]
fn the_background_comes_from_the_palette() {
    let g = open(write_gif(DisposalMethod::Keep), true);
    assert_eq!(g.bg, [0, 0, 255, 255], "entry 0 of the table, in BGRA");
    assert_eq!(background(Some(1), &Some(vec![9, 8, 7, 1, 2, 3])), [3, 2, 1, 255]);
    assert_eq!(background(Some(2), &Some(vec![9, 8, 7, 1, 2, 3])), [0, 0, 0, 0]);
    assert_eq!(background(None, &Some(vec![1, 2, 3])), [0, 0, 0, 0]);
    assert_eq!(background(Some(0), &None), [0, 0, 0, 0]);
}

fn raw(delay: u16, dispose: u8) -> RawFrame {
    RawFrame {
        delay,
        dispose,
        left: 1,
        top: 2,
        width: 1,
        height: 1,
        rgba: vec![1, 2, 3, 0],
    }
}

#[test]
fn short_delays_count_as_ten() {
    for (delay, want) in [(0, 100), (1, 100), (2, 20), (10, 100), (65535, 655_350)] {
        assert_eq!(GifFrame::from_raw(raw(delay, 0)).delay, ms(want));
    }
    for (code, want) in [
        (0, Disposal::Any),
        (1, Disposal::Keep),
        (2, Disposal::Background),
        (3, Disposal::Previous),
    ] {
        assert_eq!(GifFrame::from_raw(raw(5, code)).dispose, want);
    }
}

#[test]
fn frames_outside_the_canvas_are_clipped() {
    let f = GifFrame {
        left: 1,
        top: 0,
        width: 3,
        height: 2,
        rgba: vec![10, 20, 30, 255].repeat(6),
        ..GifFrame::from_raw(raw(5, 2))
    };
    let mut g = GifSource::from_frames("/t", 2, 1, [9, 9, 9, 9], vec![f], 0, true).unwrap();
    g.show(0);
    assert_eq!(g.canvas, vec![9, 9, 9, 9, 30, 20, 10, 255]);
    g.clear_canvas();
    assert_eq!(g.canvas, vec![9; 8]);
}

fn reason(r: Result<GifSource, MediaError>) -> String {
    match r.err().unwrap() {
        MediaError::Open { path, reason } => {
            assert_eq!(path, "/t.gif");
            reason
        }
        e => panic!("{e:?}"),
    }
}

#[test]
fn broken_files_say_why() {
    let open = |b: &[u8]| reason(GifSource::open("/t.gif", b.to_vec(), 0, true));
    assert_eq!(open(b"not a gif at all"), "malformed GIF header");
    assert_eq!(open(b""), "Unexpected End of File");
    // a screen without width
    let mut empty = write_gif(DisposalMethod::Keep);
    empty[6] = 0;
    assert_eq!(open(&empty), "empty GIF");
    // a header and the end
    let mut none = b"GIF89a".to_vec();
    none.extend([2, 0, 1, 0, 0, 0, 0, 0x3b, 0]);
    assert_eq!(open(&none), "GIF has no frames");
    // cut in the middle of a frame
    let whole = write_gif(DisposalMethod::Keep);
    assert!(!open(&whole[..whole.len() - 6]).is_empty());
}
