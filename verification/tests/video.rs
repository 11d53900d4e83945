use std::cell::RefCell;
use noshare_cover::clock::Nanos;
use noshare_cover::config::{Backend, Settings};
use noshare_cover::frame::{CpuFrame, Frame, FrameData};
use noshare_cover::gpu::pick_render_node;
use noshare_cover::media::video::backend::{open_decoder, open_pipeline, Machine};
use noshare_cover::media::video::pipeline::{
    Codec, DecodedFrame, Decoder, Demuxer, Next, Packet, PipeResult, Pipeline, VideoInfo,
};
use noshare_cover::media::video::{
    Action, Shared, VideoSource, Worker, DROP_LATE, FIRST_FRAME_WAIT, IDLE_AFTER,
};
use noshare_cover::media::MediaError;
use std::sync::Arc;

const MS: Nanos = 1_000_000;

// ------------------------------------------------------------------ synthetic video

/// N frames spaced by `step`, each a 1x1 BGRA holding the frame number.
struct FakeDemux {
    info: VideoInfo,
    frames: u32,
    step: Nanos,
    pos: u32,
}

impl FakeDemux {
    fn new(frames: u32, step: Nanos) -> Self {
        let info = VideoInfo {
            width: 1,
            height: 1,
            duration: Some(step * Nanos::from(frames)),
            codec: Codec::Av1,
        };
        Self {
            info,
            frames,
            step,
            pos: 0,
        }
    }
}

impl Demuxer for FakeDemux {
    fn info(&self) -> &VideoInfo {
        &self.info
    }

    fn next_packet(&mut self) -> PipeResult<Option<Packet>> {
        if self.pos >= self.frames {
            return Ok(None);
        }
        let p = Packet {
            pts: self.step * Nanos::from(self.pos),
            keyframe: self.pos == 0,
            data: vec![self.pos as u8],
        };
        self.pos += 1;
        Ok(Some(p))
    }

    fn rewind(&mut self) -> PipeResult<()> {
        self.pos = 0;
        Ok(())
    }
}

/// Holds one frame back (like real decoders with latency) to exercise flush.
#[derive(Default)]
struct FakeDecoder {
    held: Option<Packet>,
    mute: bool,
}

fn out(p: Packet) -> DecodedFrame {
    let px = p.data[0];
    DecodedFrame {
        pts: p.pts,
        data: FrameData::Cpu(CpuFrame::from_bgra(1, 1, Arc::new(vec![px, px, px, 255]))),
    }
}

impl Decoder for FakeDecoder {
    fn name(&self) -> &'static str {
        "fake"
    }

    fn decode(&mut self, packet: &Packet) -> PipeResult<Vec<DecodedFrame>> {
        if self.mute {
            return Ok(Vec::new());
        }
        Ok(self
            .held
            .replace(packet.clone())
            .map(out)
            .into_iter()
            .collect())
    }

    fn flush(&mut self) -> PipeResult<Vec<DecodedFrame>> {
        Ok(self.held.take().map(out).into_iter().collect())
    }

    fn reset(&mut self) {
        self.held = None;
    }
}

fn pts(n: Next) -> Option<Nanos> {
    match n {
        Next::Frame(f) => Some(f.pts),
        Next::End => None,
    }
}

#[test]
fn plays_all_frames_then_ends() {
    let step = 40 * MS;
    let mut p = Pipeline::new(FakeDemux::new(3, step), FakeDecoder::default(), false);
    let got: Vec<_> = std::iter::from_fn(|| pts(p.next_frame().unwrap())).collect();
    assert_eq!(got, vec![0, step, step * 2]);
}

#[test]
fn loop_keeps_time_monotonic() {
    let step = 40 * MS;
    let mut p = Pipeline::new(FakeDemux::new(2, step), FakeDecoder::default(), true);
    let got: Vec<_> = (0..5)
        .map(|_| pts(p.next_frame().unwrap()).unwrap())
        .collect();
    assert_eq!(got, vec![0, step, step * 2, step * 3, step * 4]);
}

#[test]
fn a_video_without_frames_gives_up() {
    let mute = FakeDecoder { held: None, mute: true };
    let mut p = Pipeline::new(FakeDemux::new(2, MS), mute, true);
    assert_eq!(p.next_frame().err().as_deref(), Some("fake produces no frames"));
    assert_eq!((p.decoder_name(), p.info().width), ("fake", 1));
}

#[test]
fn an_ended_video_stays_ended() {
    let mut p = Pipeline::new(FakeDemux::new(1, MS), FakeDecoder::default(), false);
    assert_eq!(pts(p.next_frame().unwrap()), Some(0));
    for _ in 0..3 {
        assert_eq!(pts(p.next_frame().unwrap()), None);
    }
}

// ------------------------------------------------------------------ the thread

/// A video thread on a clock that only moves when somebody waits.
struct Thread {
    pipe: Pipeline<FakeDemux, FakeDecoder>,
    worker: Worker,
    shared: Shared,
    source: VideoSource,
    now: Nanos,
    decoded: usize,
    dropped: usize,
    slow: Nanos,
    next: Option<Action>,
}

fn source(frames: u32, step_ms: u64, looped: bool) -> Thread {
    let step = Nanos::from(step_ms) * MS;
    Thread {
        pipe: Pipeline::new(FakeDemux::new(frames, step), FakeDecoder::default(), looped),
        worker: Worker::new(),
        shared: Shared::new(),
        source: VideoSource::new("fake".into()),
        now: 1_000 * MS,
        decoded: 0,
        dropped: 0,
        slow: 0,
        next: None,
    }
}

impl Thread {
    /// Runs the thread until `until`, or until it has nothing to do before that.
    fn run(&mut self, until: Nanos) {
        while self.now < until {
            let action = match self.next.take() {
                Some(a) => a,
                None => self.worker.tick(&mut self.shared, self.now),
            };
            match action {
                Action::Wait(t) => {
                    let wake = self.now + t;
                    if wake > until {
                        self.now = until;
                    } else {
                        self.now = wake;
                    }
                }
                Action::WaitLong => self.now = until,
                Action::Stop => {
                    self.next = Some(Action::Stop);
                    return;
                }
                Action::Decode => {
                    self.decoded += 1;
                    let frame = self.pipe.next_frame();
                    self.now += self.slow;
                    self.next = Some(self.worker.decoded(&mut self.shared, frame, self.now));
                }
                Action::Scale(t) => {
                    self.next = Some(self.worker.timed(&mut self.shared, t, self.now));
                }
                Action::Drop => self.dropped += 1,
                Action::Show => {}
            }
        }
    }

    fn poll(&mut self) -> Result<Option<Frame>, MediaError> {
        let now = self.now;
        let wait = self.source.watch(&mut self.shared, now);
        if wait {
            let deadline = now + FIRST_FRAME_WAIT;
            while let Some(left) = VideoSource::patience(&self.shared, deadline, self.now) {
                let step = left.min(MS);
                self.run(self.now + step);
            }
        }
        self.source.poll(&mut self.shared)
    }

    fn wait_frame(&mut self, timeout: Nanos) -> Option<Frame> {
        let end = self.now + timeout;
        while self.now < end {
            if let Some(f) = self.poll().unwrap() {
                return Some(f);
            }
            self.run(self.now + 5 * MS);
        }
        None
    }
}

#[test]
fn produces_frames_while_watched() {
    let mut s = source(50, 10, true);
    let a = s.wait_frame(2_000 * MS).expect("first frame");
    let b = s.wait_frame(2_000 * MS).expect("next frame");
    assert!(b.generation > a.generation);
}

#[test]
fn sleeps_when_not_watched() {
    let mut s = source(1000, 5, true);
    s.wait_frame(2_000 * MS).expect("frame");
    s.run(s.now + IDLE_AFTER + 200 * MS);
    let before = s.shared.generation;
    s.run(s.now + 300 * MS);
    let after = s.shared.generation;
    assert_eq!(before, after, "no decoding without viewers");
}

#[test]
fn drop_joins_thread_quickly() {
    let mut s = source(1000, 1000, true); // long gaps between frames
    s.wait_frame(2_000 * MS);
    s.run(s.now + 10 * MS);
    let t = s.now;
    s.shared.close();
    s.run(s.now + 500 * MS);
    assert!(matches!(s.next, Some(Action::Stop)));
    assert!(s.now - t < 500 * MS, "drop must not wait for next frame");
}

#[test]
fn no_loop_keeps_last_frame_and_stops() {
    let mut s = source(3, 5, false);
    let mut last = None;
    let end = s.now + 2_000 * MS;
    while s.now < end && !s.shared.ended {
        if let Some(f) = s.poll().unwrap() {
            last = Some(f.generation);
        }
        s.run(s.now + 2 * MS);
    }
    assert!(s.shared.ended);
    assert!(last.is_some());
}

#[test]
fn after_sleep_the_clock_starts_anew() {
    let mut s = source(1000, 10, true);
    s.wait_frame(1_000 * MS).unwrap();
    s.run(s.now + 10_000 * MS);
    let (shown, dropped) = (s.shared.generation, s.dropped);
    s.wait_frame(1_000 * MS).unwrap();
    assert!(s.shared.generation <= shown + 3, "slept time is not made up for");
    assert_eq!(s.dropped, dropped, "and nothing is dropped");
}

#[test]
fn late_frames_are_dropped() {
    let mut s = source(1000, 10, true);
    s.slow = 50 * MS;
    for _ in 0..100 {
        let _ = s.poll().unwrap();
        s.run(s.now + 20 * MS);
    }
    assert!(s.dropped > 0);
    assert_eq!(DROP_LATE, 80 * MS);
}

#[test]
fn errors_before_the_first_frame_are_told() {
    let mut st = Shared::new();
    let mut v = VideoSource::new("/v.mp4".into());
    assert!(v.watch(&mut st, 5));
    assert_eq!(st.watched, Some(5));
    assert!(matches!(v.poll(&mut st), Ok(None)));
    st.crashed();
    match v.poll(&mut st) {
        Err(e) => assert_eq!(e.text(), "video /v.mp4: декодер упал"),
        Ok(_) => panic!("the thread died"),
    }
    // a frame that is ready still comes out
    st.publish(DecodedFrame {
        pts: 0,
        data: FrameData::Cpu(CpuFrame::from_bgra(1, 1, Arc::new(vec![0; 4]))),
    });
    assert_eq!(v.poll(&mut st).unwrap().unwrap().generation, 1);
    match v.poll(&mut st) {
        Err(e) => assert_eq!(e.text(), "video /v.mp4: декодер упал"),
        Ok(_) => panic!("no frame is left and none will come"),
    }
    assert!(!v.watch(&mut st, 6), "no more waiting");
}

#[test]
fn an_error_of_the_pipeline_ends_the_thread() {
    let mut st = Shared::new();
    let mut w = Worker::new();
    st.watched = Some(100);
    assert!(matches!(w.tick(&mut st, 100), Action::Decode));
    assert!(matches!(w.decoded(&mut st, Err("no luck".into()), 100), Action::Stop));
    assert_eq!(st.error.as_deref(), Some("no luck"));
    st.crashed();
    assert_eq!(st.error.as_deref(), Some("no luck"), "its own word comes first");
}

#[test]
fn interest_fades_after_a_while() {
    let mut st = Shared::new();
    assert!(!st.is_watched(0));
    st.watched = Some(0);
    assert!(st.is_watched(IDLE_AFTER - 1));
    assert!(!st.is_watched(IDLE_AFTER));
    assert!(!Shared::new().is_watched(7));
}

// ------------------------------------------------------------------ backends

/// A machine with no GPU at `gpu_device`, or with one that refuses.
#[derive(Default)]
struct Bench {
    node: Option<&'static str>,
    nvidia: bool,
    nvdec: bool,
    software: bool,
    asked: RefCell<Vec<&'static str>>,
}

impl Machine<FakeDecoder> for Bench {
    fn render_node(&self, explicit: Option<&String>) -> Result<String, String> {
        self.asked.borrow_mut().push("node");
        match self.node {
            Some(n) => Ok(n.to_string()),
            None => {
                let there = explicit.is_some_and(|p| std::path::Path::new(p).exists());
                pick_render_node(explicit.map(String::as_str), there, None)
            }
        }
    }

    fn is_nvidia(&self, _: &str) -> bool {
        self.nvidia
    }

    fn nvdec(&self, _: &Codec, _: &str) -> PipeResult<FakeDecoder> {
        self.asked.borrow_mut().push("nvdec");
        if self.nvdec {
            Ok(FakeDecoder::default())
        } else {
            Err("no driver".into())
        }
    }

    fn vaapi(&self, _: &Codec, _: &str) -> PipeResult<FakeDecoder> {
        self.asked.borrow_mut().push("vaapi");
        Err("no libva".into())
    }

    fn av1(&self) -> PipeResult<FakeDecoder> {
        self.asked.borrow_mut().push("av1");
        if self.software {
            Ok(FakeDecoder::default())
        } else {
            Err("dav1d_open: -12".into())
        }
    }

    fn h264(&self) -> PipeResult<FakeDecoder> {
        self.asked.borrow_mut().push("h264");
        Err("no openh264".into())
    }

    fn vpx(&self, _: &Codec) -> PipeResult<FakeDecoder> {
        self.asked.borrow_mut().push("vpx");
        Err("no libvpx".into())
    }
}

fn settings(backend: Backend) -> Settings {
    Settings {
        backend,
        gpu_device: Some("/nonexistent/renderD999".into()),
        ..Settings::defaults("/x".into())
    }
}

#[test]
fn gpu_only_reports_why() {
    let err = open_decoder(&Bench::default(), &Codec::Av1, &settings(Backend::Gpu))
        .err()
        .unwrap();
    assert!(err.contains("GPU"), "{err}");
    assert!(!err.contains("CPU"), "gpu-only must not fall back: {err}");
    assert_eq!(err, "GPU: no such device: /nonexistent/renderD999");
}

#[test]
fn auto_tries_both() {
    let err = open_decoder(
        &Bench::default(),
        &Codec::Other("V_TEST".into()),
        &settings(Backend::Auto),
    )
    .err()
    .unwrap();
    assert!(err.contains("GPU") && err.contains("CPU"), "{err}");
    assert!(err.ends_with("; CPU: software decoder for Other(\"V_TEST\") is not wired up yet"));
}

#[test]
fn nvidia_is_asked_before_vaapi() {
    let mut m = Bench { node: Some("/dev/dri/renderD128"), nvidia: true, ..Bench::default() };
    let err = open_decoder(&m, &Codec::H264, &settings(Backend::Auto)).err().unwrap();
    assert_eq!(
        err,
        "GPU /dev/dri/renderD128: NVDEC: no driver; VA-API: no libva; CPU: no openh264"
    );
    assert_eq!(*m.asked.borrow(), ["node", "nvdec", "vaapi", "h264"]);
    m = Bench { nvdec: true, ..m };
    m.asked.borrow_mut().clear();
    assert!(open_decoder(&m, &Codec::H264, &settings(Backend::Auto)).is_ok());
    assert_eq!(*m.asked.borrow(), ["node", "nvdec"]);
}

#[test]
fn cpu_only_leaves_the_gpu_alone() {
    let m = Bench { software: true, ..Bench::default() };
    assert!(open_decoder(&m, &Codec::Av1, &settings(Backend::Cpu)).is_ok());
    let err = open_decoder(&m, &Codec::Hevc, &settings(Backend::Cpu)).err().unwrap();
    assert_eq!(err, "CPU: software decoder for Hevc is not wired up yet");
    let err = open_decoder(&m, &Codec::Vp8, &settings(Backend::Cpu)).err().unwrap();
    assert_eq!(err, "CPU: no libvpx");
    assert_eq!(*m.asked.borrow(), ["av1", "vpx"]);
}

#[test]
fn pipelines_need_a_demuxer_and_a_decoder() {
    let m = Bench { software: true, ..Bench::default() };
    let s = settings(Backend::Cpu);
    let none: PipeResult<FakeDemux> = Err("MP4: broken".into());
    assert_eq!(open_pipeline(&m, none, true, &s).err().as_deref(), Some("MP4: broken"));
    let mut p = open_pipeline(&m, Ok(FakeDemux::new(1, MS)), false, &s).ok().unwrap();
    assert_eq!(pts(p.next_frame().unwrap()), Some(0));
}

#[test]
fn a_video_of_unknown_length_goes_on() {
    let step = 40 * MS;
    let mut demux = FakeDemux::new(3, step);
    demux.info.duration = None;
    let mut p = Pipeline::new(demux, FakeDecoder::default(), true);
    let got: Vec<_> = (0..7)
        .map(|_| pts(p.next_frame().unwrap()).unwrap())
        .collect();
    assert_eq!(got, vec![0, step, step * 2, step * 2, step * 3, step * 4, step * 4]);
    assert_eq!(p.shown, step * 4);
}

/// Fails where it is told to.
struct Broken {
    info: VideoInfo,
    packets: u32,
    rewinds: bool,
}

impl Demuxer for Broken {
    fn info(&self) -> &VideoInfo {
        &self.info
    }

    fn next_packet(&mut self) -> PipeResult<Option<Packet>> {
        if self.packets == 0 {
            return if self.rewinds { Ok(None) } else { Err("no packet".into()) };
        }
        self.packets -= 1;
        Ok(Some(Packet { pts: 0, keyframe: true, data: vec![1] }))
    }

    fn rewind(&mut self) -> PipeResult<()> {
        Err("no way back".into())
    }
}

#[test]
fn errors_of_the_demuxer_come_out() {
    let info = || FakeDemux::new(1, MS).info;
    let broken = Broken { info: info(), packets: 2, rewinds: false };
    let mut p = Pipeline::new(broken, FakeDecoder::default(), true);
    assert_eq!(pts(p.next_frame().unwrap()), Some(0), "what is ready comes first");
    assert_eq!(p.next_frame().err().as_deref(), Some("no packet"));
    let broken = Broken { info: info(), packets: 1, rewinds: true };
    let mut p = Pipeline::new(broken, FakeDecoder::default(), true);
    assert_eq!(pts(p.next_frame().unwrap()), Some(0));
    assert_eq!(p.next_frame().err().as_deref(), Some("no way back"));
}

#[test]
fn the_first_frame_is_waited_for_once() {
    let mut st = Shared::new();
    let mut v = VideoSource::new("/v.mp4".into());
    assert!(v.watch(&mut st, 5));
    assert!(!v.watch(&mut st, 6), "the second call does not wait, though no frame came");
    assert_eq!(st.watched, Some(6));
}
