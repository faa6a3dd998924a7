//! Frame timing: a frames-per-second sample about once a second, and a floor
//! on the interval between frames.
//!
//! Times are nanoseconds on a monotonic clock whose origin is the moment the
//! timing was created; the caller reads the clock and does the sleeping.

use vstd::prelude::*;

verus! {

/// Nanoseconds in one second.
pub const NANOS_PER_SECOND: u64 = 1_000_000_000;

/// Whether a new timing limits the frame rate.
pub const ENABLE_FPS_LIMIT: bool = true;

/// The frame rate that a new timing does not exceed.
pub const MAX_FPS: u32 = 320;

/// The time from `earlier` to `now`, or zero if `now` comes first.
pub open spec fn since(earlier: int, now: int) -> int {
    if now >= earlier {
        now - earlier
    } else {
        0
    }
}

/// The shortest interval between frames at `max_fps`: `1 / max_fps`
/// seconds, in nanoseconds rounded up.
pub open spec fn target_interval(max_fps: int) -> int {
    (NANOS_PER_SECOND + max_fps - 1) / max_fps
}

/// How long to wait at `now` so that at least the target interval lies
/// between the last frame and the next.
pub open spec fn pacing_delay_of(enabled: bool, max_fps: int, last_frame: int, now: int) -> int {
    if enabled && since(last_frame, now) < target_interval(max_fps) {
        target_interval(max_fps) - since(last_frame, now)
    } else {
        0
    }
}

/// A measurement of the frame rate: `frames` frames in `elapsed_nanos`.
#[derive(Clone, Copy, Debug, PartialEq, Eq, Structural)]
pub struct FpsSample {
    pub frames: u32,
    pub elapsed_nanos: u64,
}

impl FpsSample {
    /// The frame rate in thousandths of a frame per second, rounded down.
    pub fn millifps(&self) -> (r: u128)
        requires
            self.elapsed_nanos > 0,
        ensures
            r as int == (self.frames as int) * 1_000_000_000_000 / (self.elapsed_nanos as int),
    {
        assert((self.frames as int) * 1_000_000_000_000 <= 0xffff_ffff * 1_000_000_000_000) by (nonlinear_arith)
            requires
                self.frames <= 0xffff_ffffu32,
        ;
        (self.frames as u128) * 1_000_000_000_000 / (self.elapsed_nanos as u128)
    }
}

/// What a frame timing holds.
pub struct TimingView {
    /// When the last frame was recorded.
    pub last_frame: int,
    /// Frames recorded since the last sample.
    pub frames: int,
    /// When the last sample was taken.
    pub sample_start: int,
    pub limit_enabled: bool,
    pub max_fps: int,
}

impl TimingView {
    pub open spec fn valid(self) -> bool {
        &&& 0 < self.max_fps <= u32::MAX
        &&& 0 <= self.frames <= u32::MAX
        &&& 0 <= self.last_frame <= u64::MAX
        &&& 0 <= self.sample_start <= u64::MAX
    }

    /// The frame count after one more frame; it stays at its largest value.
    pub open spec fn next_count(self) -> int {
        if self.frames < u32::MAX {
            self.frames + 1
        } else {
            self.frames
        }
    }

    /// Whether a frame recorded at `now` closes a sample.
    pub open spec fn samples_at(self, now: int) -> bool {
        since(self.sample_start, now) >= NANOS_PER_SECOND
    }
}

/// Tracks frame times, measures the frame rate and paces frames.
pub struct FrameTiming {
    last_frame_time: u64,
    frame_count_since_last_update: u32,
    fps_update_time: u64,
    limit_enabled: bool,
    max_fps: u32,
}

impl View for FrameTiming {
    type V = TimingView;

    closed spec fn view(&self) -> TimingView {
        TimingView {
            last_frame: self.last_frame_time as int,
            frames: self.frame_count_since_last_update as int,
            sample_start: self.fps_update_time as int,
            limit_enabled: self.limit_enabled,
            max_fps: self.max_fps as int,
        }
    }
}

/// `now - earlier`, or zero if `now` comes first.
fn nanos_since(earlier: u64, now: u64) -> (d: u64)
    ensures
        d as int == since(earlier as int, now as int),
{
    if now >= earlier {
        now - earlier
    } else {
        0
    }
}

/// The nanoseconds to wait at `now` so that at least `1 / max_fps` seconds
/// separate the frame recorded at `last_frame` from the next one; zero when
/// limiting is off or the interval has already passed.
pub fn pacing_delay(enabled: bool, max_fps: u32, last_frame: u64, now: u64) -> (d: u64)
    requires
        max_fps > 0,
    ensures
        d as int == pacing_delay_of(enabled, max_fps as int, last_frame as int, now as int),
{
    if !enabled {
        return 0;
    }
    let target: u64 = (NANOS_PER_SECOND + max_fps as u64 - 1) / (max_fps as u64);
    let elapsed = nanos_since(last_frame, now);
    if elapsed < target {
        target - elapsed
    } else {
        0
    }
}

impl FrameTiming {
    /// A timing created at time zero, limited to `MAX_FPS` when
    /// `ENABLE_FPS_LIMIT` is set.
    pub fn new() -> (t: Self)
        ensures
            t@ == (TimingView {
                last_frame: 0,
                frames: 0,
                sample_start: 0,
                limit_enabled: ENABLE_FPS_LIMIT,
                max_fps: MAX_FPS as int,
            }),
            t@.valid(),
    {
        Self::with_fps_limit(ENABLE_FPS_LIMIT, MAX_FPS)
    }

    /// A timing created at time zero with its own frame-rate limit.
    pub fn with_fps_limit(enabled: bool, max_fps: u32) -> (t: Self)
        requires
            max_fps > 0,
        ensures
            t@ == (TimingView {
                last_frame: 0,
                frames: 0,
                sample_start: 0,
                limit_enabled: enabled,
                max_fps: max_fps as int,
            }),
            t@.valid(),
    {
        FrameTiming {
            last_frame_time: 0,
            frame_count_since_last_update: 0,
            fps_update_time: 0,
            limit_enabled: enabled,
            max_fps,
        }
    }

    /// Records a frame produced at `now`. Once at least a second has passed
    /// since the last sample, returns the frames counted over the time since
    /// then and starts a new sample; otherwise returns `None`.
    pub fn update_fps(&mut self, now: u64) -> (r: Option<FpsSample>)
        requires
            old(self)@.valid(),
        ensures
            final(self)@.valid(),
            old(self)@.samples_at(now as int) ==> r == Some(
                FpsSample {
                    frames: old(self)@.next_count() as u32,
                    elapsed_nanos: since(old(self)@.sample_start, now as int) as u64,
                },
            ) && final(self)@ == (TimingView {
                last_frame: now as int,
                frames: 0,
                sample_start: now as int,
                ..old(self)@
            }),
            !old(self)@.samples_at(now as int) ==> r is None && final(self)@ == (TimingView {
                last_frame: now as int,
                frames: old(self)@.next_count(),
                ..old(self)@
            }),
    {
        if self.frame_count_since_last_update < u32::MAX {
            self.frame_count_since_last_update = self.frame_count_since_last_update + 1;
        }
        let elapsed = nanos_since(self.fps_update_time, now);
        self.last_frame_time = now;
        if elapsed >= NANOS_PER_SECOND {
            let sample = FpsSample { frames: self.frame_count_since_last_update, elapsed_nanos: elapsed };
            self.frame_count_since_last_update = 0;
            self.fps_update_time = now;
            Some(sample)
        } else {
            None
        }
    }

    /// The nanoseconds to sleep at `now`, before the next frame, so that the
    /// frame rate stays under the limit.
    pub fn apply_fps_limit(&self, now: u64) -> (d: u64)
        requires
            self@.valid(),
        ensures
            d as int == pacing_delay_of(self@.limit_enabled, self@.max_fps, self@.last_frame, now as int),
    {
        pacing_delay(self.limit_enabled, self.max_fps, self.last_frame_time, now)
    }

    /// Frames recorded since the last sample.
    pub fn frame_count(&self) -> (n: u32)
        ensures
            n as int == self@.frames,
    {
        self.frame_count_since_last_update
    }

    /// When the last frame was recorded.
    pub fn last_frame_time(&self) -> (t: u64)
        ensures
            t as int == self@.last_frame,
    {
        self.last_frame_time
    }

    /// When the last sample was taken.
    pub fn fps_update_time(&self) -> (t: u64)
        ensures
            t as int == self@.sample_start,
    {
        self.fps_update_time
    }
}

impl Default for FrameTiming {
    fn default() -> (t: Self)
        ensures
            t@ == (TimingView {
                last_frame: 0,
                frames: 0,
                sample_start: 0,
                limit_enabled: ENABLE_FPS_LIMIT,
                max_fps: MAX_FPS as int,
            }),
    {
        Self::new()
    }
}

/// With limiting on, waiting the pacing delay puts at least `1 / max_fps`
/// seconds between the last frame and the next, and never waits longer than
/// that interval.
pub proof fn lemma_pacing_floor(max_fps: int, last_frame: int, now: int)
    requires
        0 < max_fps,
        last_frame <= now,
    ensures
        ({
            let d = pacing_delay_of(true, max_fps, last_frame, now);
            &&& 0 <= d <= target_interval(max_fps)
            &&& (now + d - last_frame) * max_fps >= NANOS_PER_SECOND
        }),
{
    let t = target_interval(max_fps);
    let n = NANOS_PER_SECOND + max_fps - 1;
    vstd::arithmetic::div_mod::lemma_fundamental_div_mod(n, max_fps);
    assert(t * max_fps >= NANOS_PER_SECOND) by (nonlinear_arith)
        requires
            n == max_fps * (n / max_fps) + n % max_fps,
            0 <= n % max_fps < max_fps,
            t == n / max_fps,
            n == NANOS_PER_SECOND + max_fps - 1,
    ;
    let d = pacing_delay_of(true, max_fps, last_frame, now);
    assert(now + d - last_frame >= t);
    assert((now + d - last_frame) * max_fps >= t * max_fps) by (nonlinear_arith)
        requires
            now + d - last_frame >= t,
            0 < max_fps,
    ;
}

} // verus!
