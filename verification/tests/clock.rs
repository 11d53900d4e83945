use noshare_cover::clock::{span, PlaybackClock};
use std::time::Duration;

fn ms(v: u64) -> u128 {
    Duration::from_millis(v).as_nanos()
}

/// The position at `now`: the elapsed time, scaled by the speed, placed in the clip.
fn position(c: &mut PlaybackClock, now: u128, duration: Option<u128>) -> u128 {
    let elapsed = Duration::from_nanos(c.elapsed(now) as u64);
    let raw = elapsed.mul_f64(f64::from_bits(c.speed)).as_nanos();
    c.position(raw, duration)
}

#[test]
fn loops_over_duration() {
    let t0 = ms(5_000);
    let mut c = PlaybackClock::new(1.0f64.to_bits(), true);
    assert_eq!(position(&mut c, t0, Some(ms(1000))), ms(0));
    assert_eq!(position(&mut c, t0 + ms(1500), Some(ms(1000))), ms(500));
}

#[test]
fn speed_scales_time() {
    let t0 = ms(5_000);
    let mut c = PlaybackClock::new(2.0f64.to_bits(), true);
    position(&mut c, t0, None);
    assert_eq!(position(&mut c, t0 + ms(300), None), ms(600));
}

#[test]
fn no_loop_clamps_to_last_moment() {
    let t0 = ms(5_000);
    let mut c = PlaybackClock::new(1.0f64.to_bits(), false);
    position(&mut c, t0, Some(ms(1000)));
    assert_eq!(
        position(&mut c, t0 + ms(5000), Some(ms(1000))),
        ms(1000) - 1
    );
}

#[test]
fn restart_resets_origin() {
    let t0 = ms(5_000);
    let mut c = PlaybackClock::new(1.0f64.to_bits(), true);
    position(&mut c, t0, None);
    c.restart();
    assert_eq!(position(&mut c, t0 + ms(700), None), ms(0));
}

#[test]
fn empty_clips_have_no_loop() {
    let c = PlaybackClock::new(1.0f64.to_bits(), true);
    assert_eq!(c.position(ms(7), Some(0)), ms(7));
}

#[test]
fn every_pass_shows_the_same_moments() {
    let c = PlaybackClock::new(1.0f64.to_bits(), true);
    for pass in 0..5 {
        assert_eq!(c.position(ms(40) + pass * ms(300), Some(ms(300))), ms(40));
    }
}

#[test]
fn without_a_loop_time_never_goes_back() {
    let c = PlaybackClock::new(1.0f64.to_bits(), false);
    let mut last = 0;
    for i in 0..50 {
        let p = c.position(ms(i * 10), Some(ms(200)));
        assert!(p >= last && p < ms(200));
        last = p;
    }
    assert_eq!(last, ms(200) - 1);
}

#[test]
fn a_moment_before_the_start_counts_as_the_start() {
    assert_eq!(span(3, 10), 0);
    assert_eq!(span(10, 3), 7);
    let mut c = PlaybackClock::new(1.0f64.to_bits(), true);
    assert_eq!(c.elapsed(100), 0);
    assert_eq!(c.elapsed(40), 0);
    assert_eq!(c.elapsed(140), 40);
}

#[test]
fn clocks_run_at_a_sane_speed() {
    assert_eq!(PlaybackClock::new(f64::NAN.to_bits(), true).speed, 1.0f64.to_bits());
    assert_eq!(PlaybackClock::new(2.5f64.to_bits(), true).speed, 2.5f64.to_bits());
}
