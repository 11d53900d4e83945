use noshare_cover::clock::Nanos;
use noshare_cover::config::{ConfigError, PlayParams, Settings};
use noshare_cover::ffi::{
    nsc_animating, nsc_cover_alive, nsc_resolve, nsc_take_notification, NscPlayRequest, NSC_FRAME_CPU,
    NSC_FRAME_DMABUF, NSC_FRAME_NONE,
};
use noshare_cover::frame::{CpuFrame, DmaBufFrame, DmaBufPlane, Frame, FrameData, DRM_FORMAT_ARGB8888};
use noshare_cover::media::{Kind, MediaError, Source};
use noshare_cover::registry::{Opener, Registry, EVICT_AFTER, MISSING_RETRY};
use std::cell::Cell;
use std::sync::Arc;

const SECOND: Nanos = 1_000_000_000;

struct Solid {
    polls: u64,
    kind: Kind,
    planes: usize,
    fails_at: u64,
}

impl Source for Solid {
    fn kind(&self) -> Kind {
        self.kind
    }

    fn poll(&mut self, _: Nanos) -> Result<Option<Frame>, MediaError> {
        self.polls += 1;
        if self.polls == self.fails_at {
            return Err(MediaError::Video { path: "/v".into(), reason: "broken".into() });
        }
        if self.planes > 0 {
            let planes = (0..self.planes)
                .map(|i| DmaBufPlane { fd: 10 + i as i32, offset: i as u32, stride: 64 })
                .collect();
            return Ok(Some(Frame {
                generation: self.polls,
                data: FrameData::DmaBuf(Arc::new(DmaBufFrame {
                    width: 8,
                    height: 6,
                    fourcc: 77,
                    modifier: 99,
                    planes,
                })),
            }));
        }
        Ok(Some(Frame {
            generation: self.polls,
            data: FrameData::Cpu(CpuFrame::from_bgra(1, 1, Arc::new(vec![0; 4]))),
        }))
    }
}

#[derive(Default)]
struct World {
    opens: Cell<usize>,
    present: bool,
}

impl Opener<Solid> for World {
    fn open(&self, p: &PlayParams, _: &Settings) -> Result<Solid, MediaError> {
        self.opens.set(self.opens.get() + 1);
        let solid = |kind, planes, fails_at| Ok(Solid { polls: 0, kind, planes, fails_at });
        match p.path.as_str() {
            "/missing" if !self.present => Err(MediaError::Missing("/missing".into())),
            "/bad" => Err(MediaError::UnknownFormat(".xyz".into())),
            "/gpu" => solid(Kind::Video, 2, 0),
            "/many" => solid(Kind::Video, 5, 0),
            "/breaks" => solid(Kind::Video, 0, 2),
            "/gif" => solid(Kind::Gif, 0, 0),
            _ => solid(Kind::Still, 0, 0),
        }
    }

    fn is_there(&self, _: &str) -> bool {
        self.present
    }

    fn defaults(&self) -> Settings {
        Settings::defaults("/fallback".into())
    }
}

fn play(path: &str) -> PlayParams {
    PlayParams {
        path: path.into(),
        speed: 1.0f64.to_bits(),
        looped: true,
    }
}

fn defaults() -> Settings {
    Settings::defaults("/default".into())
}

/// Registry with settings; the default cover (/default) is already prewarmed.
fn reg() -> Registry<Solid, World> {
    let mut r = Registry::with_opener(World::default());
    r.set_settings(defaults(), None, 0);
    r
}

#[test]
fn default_cover_is_prewarmed_and_kept() {
    let r = reg();
    assert_eq!(r.len(), 1, "default cover is opened right away");
    let mut r = r;
    r.end_frame(EVICT_AFTER * 3);
    assert_eq!(
        r.len(),
        1,
        "and never evicted, even if unused for a long time"
    );
}

#[test]
fn shared_cover_polled_once_per_frame() {
    let mut r = reg();
    let now = 0;
    r.begin_frame();
    let g1 = r.resolve(&play("/a"), now).unwrap().frame.generation;
    let g2 = r.resolve(&play("/a"), now).unwrap().frame.generation;
    assert_eq!(g1, g2, "second window in same frame reuses the frame");
    r.begin_frame();
    assert_eq!(
        r.resolve(&play("/a"), now).unwrap().frame.generation,
        g1 + 1
    );
    assert_eq!(r.len(), 2, "/default + /a");
}

#[test]
fn errors_notify_once() {
    let mut r = reg();
    let now = 0;
    for _ in 0..3 {
        r.begin_frame();
        assert!(r.resolve(&play("/bad"), now).is_none());
    }
    assert!(r.notifier().pop().is_some());
    assert!(r.notifier().pop().is_none());
}

#[test]
fn settings_change_resets_everything() {
    let mut r = reg();
    let now = 0;
    r.begin_frame();
    let id = r.resolve(&play("/a"), now).unwrap().id;
    let epoch = r.epoch();
    r.set_settings(
        Settings {
            speed: 2.0f64.to_bits(),
            ..defaults()
        },
        None,
        now,
    );
    assert_eq!(r.epoch(), epoch + 1);
    assert_eq!(
        r.len(),
        1,
        "everything reset, only the default cover is prewarmed again"
    );
    r.begin_frame();
    assert_ne!(
        r.resolve(&play("/a"), now).unwrap().id,
        id,
        "new cover id after reset"
    );
}

#[test]
fn same_settings_do_not_reset() {
    let mut r = reg();
    let e = r.epoch();
    r.set_settings(defaults(), None, 0);
    assert_eq!(r.epoch(), e);
}

#[test]
fn unused_covers_are_evicted() {
    let mut r = reg();
    let now = 0;
    r.begin_frame();
    r.resolve(&play("/a"), now);
    r.end_frame(now + 5 * SECOND);
    assert_eq!(r.len(), 2);
    r.end_frame(now + EVICT_AFTER + SECOND);
    assert_eq!(r.len(), 1, "/a evicted, /default kept");
}

#[test]
fn missing_file_is_retried_with_backoff() {
    let mut r = reg();
    let now = 0;
    let before = r.opener.opens.get();
    for i in 0..10u128 {
        r.begin_frame();
        r.resolve(&play("/missing"), now + i * 10_000_000);
    }
    // first open only; retries happen after the backoff and only if the file appears
    assert_eq!(r.opener.opens.get() - before, 1);
}

#[test]
fn a_missing_file_that_appears_is_shown() {
    let mut r = reg();
    r.begin_frame();
    assert!(r.resolve(&play("/missing"), 0).is_none());
    assert_eq!(
        r.notifier().pop().as_deref(),
        Some("noshare-cover: file not found: /missing")
    );
    r.begin_frame();
    assert!(r.resolve(&play("/missing"), MISSING_RETRY).is_none(), "still missing");
    r.opener.present = true;
    r.begin_frame();
    assert!(r.resolve(&play("/missing"), MISSING_RETRY + 1).is_none(), "not its time yet");
    r.begin_frame();
    assert!(r.resolve(&play("/missing"), 2 * MISSING_RETRY).is_some());
    assert!(r.notifier().pop().is_none());
}

#[test]
fn a_source_that_breaks_is_closed_and_told_of() {
    let mut r = reg();
    r.begin_frame();
    assert!(r.resolve(&play("/breaks"), 0).is_some());
    for _ in 0..3 {
        r.begin_frame();
        assert!(r.resolve(&play("/breaks"), 0).is_none());
    }
    assert_eq!(
        r.notifier().pop().as_deref(),
        Some("noshare-cover: video /v: broken")
    );
    assert!(r.notifier().pop().is_none());
}

#[test]
fn moving_covers_count_while_they_are_shown() {
    let mut r = reg();
    assert!(!r.animating(0), "a picture does not move");
    r.begin_frame();
    r.resolve(&play("/gif"), SECOND);
    assert!(r.animating(SECOND));
    assert!(r.animating(EVICT_AFTER + SECOND - 1));
    assert!(!r.animating(EVICT_AFTER + SECOND));
    assert!(nsc_animating(&r, SECOND));
    assert!(nsc_animating(&r, 2 * SECOND - 1));
    assert!(!nsc_animating(&r, 2 * SECOND), "shown a second ago, alive still");
    assert!(!nsc_animating(&reg(), 0), "a picture does not move");
}

#[test]
fn live_covers_have_different_numbers() {
    let mut r = reg();
    r.begin_frame();
    for p in ["/a", "/b", "/c"] {
        r.resolve(&play(p), 0);
    }
    assert_eq!(r.live_ids(), vec![1, 2, 3, 4]);
    assert!(nsc_cover_alive(&r, 3));
    r.end_frame(EVICT_AFTER);
    assert_eq!(r.live_ids(), vec![1]);
    assert!(!nsc_cover_alive(&r, 3));
    r.begin_frame();
    assert_eq!(r.resolve(&play("/a"), EVICT_AFTER).unwrap().id, 5, "numbers are not used again");
    assert!(!r.is_empty());
}

#[test]
fn errors_of_the_configuration_are_told() {
    let mut r: Registry<Solid, World> = Registry::with_opener(World::default());
    assert_eq!(r.epoch(), 0);
    assert_eq!(r.settings(defaults()).path_cover, "/default");
    r.set_settings(
        Settings::defaults(String::new()),
        Some(ConfigError::UnknownBackend("x".into())),
        0,
    );
    assert!(r.is_empty(), "nothing to warm up without a file");
    assert_eq!(r.settings(defaults()).path_cover, "");
    assert_eq!(
        r.notifier().pop().as_deref(),
        Some("noshare-cover: неизвестный backend «x», жду auto, gpu или cpu")
    );
}

fn request<'a>(path: Option<&'a str>) -> NscPlayRequest<'a> {
    NscPlayRequest {
        rule_path: path,
        rule_speed: None,
        rule_number: None,
        rule_loop: None,
    }
}

#[test]
fn frames_cross_the_interface() {
    let mut r = reg();
    r.begin_frame();
    let (ok, f) = nsc_resolve(&mut r, &request(None), None, 0);
    assert!(ok);
    assert_eq!((f.cover_id, f.generation, f.kind), (1, 2, NSC_FRAME_CPU));
    assert_eq!((f.width, f.height, f.stride, f.fourcc), (1, 1, 4, DRM_FORMAT_ARGB8888));
    assert_eq!(f.pixels.unwrap().as_slice(), &[0, 0, 0, 0]);

    let (ok, f) = nsc_resolve(&mut r, &request(Some(" ~gpu ")), None, 0);
    assert!(ok && f.kind == NSC_FRAME_CPU);
    let (ok, f) = nsc_resolve(&mut r, &request(Some("/gpu")), None, 0);
    assert!(ok);
    assert_eq!((f.kind, f.width, f.height, f.fourcc, f.modifier), (NSC_FRAME_DMABUF, 8, 6, 77, 99));
    assert_eq!(f.plane_count, 2);
    assert_eq!((f.planes[1].fd, f.planes[1].offset, f.planes[1].stride), (11, 1, 64));
    assert_eq!(f.planes[2].fd, 0);

    let (ok, f) = nsc_resolve(&mut r, &request(Some("/many")), None, 0);
    assert!(!ok && f.kind == NSC_FRAME_NONE, "too many planes");
    let (ok, f) = nsc_resolve(&mut r, &request(Some("/bad")), None, 0);
    assert!(!ok && f.cover_id == 0);
}

#[test]
fn notifications_are_cut_between_characters() {
    let mut r = reg();
    assert_eq!(nsc_take_notification(&mut r, 8), None);
    for _ in 0..2 {
        r.notifier().push("üüü".into());
        r.notifier().reset();
    }
    assert_eq!(nsc_take_notification(&mut r, 0), None);
    assert_eq!(nsc_take_notification(&mut r, 6), Some("üü".as_bytes().to_vec()));
    assert_eq!(nsc_take_notification(&mut r, 7), Some("üüü".as_bytes().to_vec()));
    assert_eq!(nsc_take_notification(&mut r, 7), None);
}

#[test]
fn without_settings_the_defaults_are_used() {
    let mut r: Registry<Solid, World> = Registry::with_opener(World::default());
    r.begin_frame();
    assert!(nsc_resolve(&mut r, &request(None), None, 0).0);
    assert_eq!(r.covers[0].play.path, "/fallback");
    r.resolve(&play("/a"), 0);
    r.end_frame(EVICT_AFTER);
    assert_eq!(r.len(), 1);
    assert_eq!(r.covers[0].play.path, "/fallback");
}

#[test]
fn one_file_written_in_two_ways_has_one_cover() {
    let mut r = reg();
    r.begin_frame();
    let first = r.resolve(&play("/a/b"), 0).unwrap().id;
    assert_eq!(r.resolve(&play("/a//b"), 0).unwrap().id, first);
    assert_ne!(r.resolve(&play("/a/c"), 0).unwrap().id, first);
    assert_eq!(r.len(), 3);
    let epoch = r.epoch();
    r.set_settings(Settings::defaults("//default/.".into()), None, 0);
    assert_eq!(r.epoch(), epoch, "nothing changed");
}

#[test]
fn a_failed_cover_is_told_of_once_in_a_whole_run() {
    let mut r = reg();
    for i in 0..200 {
        let now = Nanos::from(i as u64) * SECOND;
        r.begin_frame();
        assert!(r.resolve(&play("/bad"), now).is_none());
        r.end_frame(now);
    }
    assert_eq!(r.opener.opens.get(), 2, "the default cover and one try");
    assert!(r.notifier().pop().is_some());
    assert!(r.notifier().pop().is_none());
}

#[test]
fn a_missing_file_is_opened_only_when_it_is_there() {
    let mut r = reg();
    r.begin_frame();
    assert!(r.resolve(&play("/missing"), 0).is_none());
    assert!(r.notifier().pop().is_some());
    for i in 1..50 {
        r.begin_frame();
        assert!(r.resolve(&play("/missing"), i * SECOND / 4).is_none());
    }
    assert_eq!(r.opener.opens.get(), 2);
    assert!(r.notifier().pop().is_none());
    r.opener.present = true;
    r.begin_frame();
    assert!(r.resolve(&play("/missing"), 60 * SECOND).is_some());
    assert_eq!(r.opener.opens.get(), 3);
}

/// A picture that becomes a GIF.
struct Turning(Cell<bool>);

impl Source for Turning {
    fn kind(&self) -> Kind {
        if self.0.replace(true) {
            Kind::Gif
        } else {
            Kind::Still
        }
    }

    fn poll(&mut self, _: Nanos) -> Result<Option<Frame>, MediaError> {
        Ok(None)
    }
}

struct Turns;

impl Opener<Turning> for Turns {
    fn open(&self, _: &PlayParams, _: &Settings) -> Result<Turning, MediaError> {
        Ok(Turning(Cell::new(false)))
    }

    fn is_there(&self, _: &str) -> bool {
        true
    }

    fn defaults(&self) -> Settings {
        defaults()
    }
}

#[test]
fn a_source_is_asked_what_it_is_at_each_call() {
    let mut r: Registry<Turning, Turns> = Registry::with_opener(Turns);
    assert!(!r.animating(0));
    r.begin_frame();
    assert!(r.resolve(&play("/a"), 0).is_none());
    assert!(!r.animating(0));
    assert!(r.animating(0));
    assert!(nsc_animating(&r, 0));
    assert!(!nsc_animating(&r, SECOND));
}
