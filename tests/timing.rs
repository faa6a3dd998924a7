use salmon_rs::timing::{pacing_delay, FrameTiming, FpsSample, MAX_FPS, NANOS_PER_SECOND};

#[test]
fn new_timing_starts_at_zero() {
    let t = FrameTiming::new();
    assert_eq!(t.frame_count(), 0);
    assert_eq!(t.last_frame_time(), 0);
    assert_eq!(t.fps_update_time(), 0);
    let d = FrameTiming::default();
    assert_eq!(d.frame_count(), 0);
}

#[test]
fn no_sample_within_a_second_then_one_on_crossing() {
    let mut t = FrameTiming::new();
    // 59 frames at 60 fps, all under one second
    let step: u64 = NANOS_PER_SECOND / 60;
    for k in 1..=59u64 {
        assert_eq!(t.update_fps(k * step), None);
        assert_eq!(t.frame_count() as u64, k);
        assert_eq!(t.last_frame_time(), k * step);
    }
    let sample = t.update_fps(NANOS_PER_SECOND).expect("a sample at one second");
    assert_eq!(sample, FpsSample { frames: 60, elapsed_nanos: NANOS_PER_SECOND });
    assert_eq!(sample.millifps(), 60_000);
    let fps = sample.millifps() as f64 / 1000.0;
    assert!((fps - 60.0).abs() <= 60.0 * 0.05);
    assert_eq!(t.frame_count(), 0);
    assert_eq!(t.fps_update_time(), NANOS_PER_SECOND);
    assert_eq!(t.last_frame_time(), NANOS_PER_SECOND);
    assert_eq!(t.update_fps(NANOS_PER_SECOND + step), None);
    assert_eq!(t.frame_count(), 1);
}

#[test]
fn sample_divides_by_real_elapsed_time() {
    let mut t = FrameTiming::new();
    assert_eq!(t.update_fps(500_000_000), None);
    assert_eq!(t.update_fps(1_000_000_000), t_sample(2, 1_000_000_000));
    let mut u = FrameTiming::new();
    assert_eq!(u.update_fps(1_500_000_000), t_sample(1, 1_500_000_000));
    assert_eq!(FpsSample { frames: 3, elapsed_nanos: 1_500_000_000 }.millifps(), 2000);
    assert_eq!(FpsSample { frames: 1, elapsed_nanos: 3 * NANOS_PER_SECOND }.millifps(), 333);
}

fn t_sample(frames: u32, elapsed_nanos: u64) -> Option<FpsSample> {
    Some(FpsSample { frames, elapsed_nanos })
}

#[test]
fn clock_going_back_counts_as_no_time() {
    let mut t = FrameTiming::new();
    t.update_fps(2 * NANOS_PER_SECOND);
    assert_eq!(t.update_fps(NANOS_PER_SECOND), None);
    assert_eq!(t.frame_count(), 1);
}

#[test]
fn pacing_at_240_fps_waits_out_the_interval() {
    let t = FrameTiming::with_fps_limit(true, 240);
    // 1/240 s = 4_166_666.67 ns, rounded up
    let d = t.apply_fps_limit(0);
    assert_eq!(d, 4_166_667);
    assert!(d as f64 / 1e9 >= 1.0 / 240.0);
    assert_eq!(t.apply_fps_limit(1_000_000), 3_166_667);
    assert_eq!(t.apply_fps_limit(4_166_667), 0);
    assert_eq!(t.apply_fps_limit(10_000_000), 0);
}

#[test]
fn pacing_is_measured_from_the_last_frame() {
    let mut t = FrameTiming::with_fps_limit(true, 240);
    t.update_fps(50_000_000);
    assert_eq!(t.apply_fps_limit(50_000_000), 4_166_667);
    assert_eq!(t.apply_fps_limit(52_000_000), 2_166_667);
}

#[test]
fn pacing_off_never_waits() {
    let t = FrameTiming::with_fps_limit(false, 240);
    assert_eq!(t.apply_fps_limit(0), 0);
    assert_eq!(pacing_delay(false, 1, 0, 0), 0);
}

#[test]
fn default_limit_is_max_fps() {
    let t = FrameTiming::new();
    assert_eq!(MAX_FPS, 320);
    assert_eq!(t.apply_fps_limit(0), 3_125_000);
    assert_eq!(pacing_delay(true, 3, 0, 0), 333_333_334);
}
