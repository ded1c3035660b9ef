//! Setpoint profiles: sparse breakpoints that the controller interpolates at loop rate.
//!
//! The library decides, for an elapsed time, which breakpoint value applies or
//! which segment the time falls in (and how far along it); the caller holds the
//! target values of the breakpoints and performs the interpolation
//! `a + (offset / span) * (b - a)`.

use vstd::prelude::*;

verus! {

/// Maximum number of breakpoints in a profile.
pub const MAX_PROFILE_POINTS: usize = 16;

/// How the segment leaving a point behaves.
#[derive(Clone, Copy, Debug, PartialEq, Eq, Structural)]
pub enum SegmentInterp {
    /// Linear ramp from this point's value to the next point's value.
    Linear,
    /// Hold this point's value until the next point's time, then jump.
    Step,
}

/// What happens once elapsed time passes the last breakpoint.
#[derive(Clone, Copy, Debug, PartialEq, Eq, Structural)]
pub enum EndBehavior {
    /// Hold the final value until stopped.
    HoldLast,
    /// The profile is done; the control loop should finish.
    Stop,
    /// Restart from t = 0 (elapsed wraps modulo the total time).
    Loop,
}

/// One breakpoint's timing: when it is reached and how the segment leaving it behaves.
#[derive(Clone, Copy, Debug, PartialEq, Eq, Structural)]
pub struct ProfilePoint {
    pub t_ms: u32,
    pub interp: SegmentInterp,
}

impl Default for ProfilePoint {
    /// Time 0, linear.
    fn default() -> (r: ProfilePoint)
        ensures
            r == (ProfilePoint { t_ms: 0, interp: SegmentInterp::Linear }),
    {
        ProfilePoint { t_ms: 0, interp: SegmentInterp::Linear }
    }
}

/// A setpoint trajectory: `count` valid points (sorted by time ascending), the rest padding.
#[derive(Clone, Copy, Debug)]
pub struct SetpointProfile {
    pub points: [ProfilePoint; 16],
    pub count: u8,
    pub end_behavior: EndBehavior,
    /// Time of the last breakpoint (cached), used for wrapping and for completion.
    pub total_ms: u32,
}

impl Default for SetpointProfile {
    /// An empty profile: no points, holding the last value, total time 0.
    fn default() -> (r: SetpointProfile)
        ensures
            r.count == 0,
            r.end_behavior == EndBehavior::HoldLast,
            r.total_ms == 0,
            forall|i: int| 0 <= i < 16 ==> r.points@[i] == (ProfilePoint { t_ms: 0, interp: SegmentInterp::Linear }),
    {
        let z = ProfilePoint { t_ms: 0, interp: SegmentInterp::Linear };
        SetpointProfile { points: [z, z, z, z, z, z, z, z, z, z, z, z, z, z, z, z], count: 0, end_behavior: EndBehavior::HoldLast, total_ms: 0 }
    }
}

/// Which target value applies.
#[derive(Clone, Copy, Debug, PartialEq, Eq, Structural)]
pub enum ProfileTarget {
    /// No points: the target is 0.
    Zero,
    /// The value of breakpoint `i`.
    Point(usize),
    /// Between breakpoints `from` and `to = from + 1`: `offset_ms` of `span_ms` into the segment.
    Between { from: usize, to: usize, offset_ms: u32, span_ms: u32 },
}

/// The target within segment `i` (from point `i` to point `i + 1`) at time `t`: a
/// step segment holds point `i` until point `i + 1`'s time and jumps to it there; a
/// linear segment interpolates between the two.
pub open spec fn segment_target(pts: Seq<ProfilePoint>, i: int, t: u32) -> ProfileTarget {
    let a = pts[i];
    let b = pts[i + 1];
    match a.interp {
        SegmentInterp::Step => if t == b.t_ms {
            ProfileTarget::Point((i + 1) as usize)
        } else {
            ProfileTarget::Point(i as usize)
        },
        SegmentInterp::Linear => if b.t_ms == a.t_ms {
            ProfileTarget::Point((i + 1) as usize)
        } else {
            ProfileTarget::Between {
                from: i as usize,
                to: (i + 1) as usize,
                offset_ms: (t - a.t_ms) as u32,
                span_ms: (b.t_ms - a.t_ms) as u32,
            }
        },
    }
}

/// The first segment from `i` on whose end points enclose `t`; the last point when none does.
pub open spec fn scan_segments(pts: Seq<ProfilePoint>, n: int, t: u32, i: int) -> ProfileTarget
    decreases n - i,
{
    if i >= n - 1 {
        ProfileTarget::Point((n - 1) as usize)
    } else if pts[i].t_ms <= t && t <= pts[i + 1].t_ms {
        segment_target(pts, i, t)
    } else {
        scan_segments(pts, n, t, i + 1)
    }
}

/// The target at an in-range time `t` for a profile of `n >= 2` points.
pub open spec fn target_at(pts: Seq<ProfilePoint>, n: int, t: u32) -> ProfileTarget {
    if t <= pts[0].t_ms {
        ProfileTarget::Point(0)
    } else {
        scan_segments(pts, n, t, 0)
    }
}

/// The target of a profile at `elapsed_ms`.
pub open spec fn spec_eval(p: SetpointProfile, elapsed_ms: u32) -> ProfileTarget {
    let n = p.count as int;
    let pts = p.points@;
    if n == 0 {
        ProfileTarget::Zero
    } else if n == 1 {
        ProfileTarget::Point(0)
    } else if elapsed_ms >= pts[n - 1].t_ms {
        match p.end_behavior {
            EndBehavior::HoldLast => ProfileTarget::Point((n - 1) as usize),
            EndBehavior::Stop => ProfileTarget::Point((n - 1) as usize),
            EndBehavior::Loop => if p.total_ms == 0 {
                ProfileTarget::Point((n - 1) as usize)
            } else {
                target_at(pts, n, (elapsed_ms % p.total_ms) as u32)
            },
        }
    } else {
        target_at(pts, n, elapsed_ms)
    }
}

/// A target that the caller can evaluate against the profile's first `n` points.
pub open spec fn target_valid(r: ProfileTarget, n: int) -> bool {
    match r {
        ProfileTarget::Zero => n == 0,
        ProfileTarget::Point(i) => i < n,
        ProfileTarget::Between { from, to, offset_ms, span_ms } => to == from + 1 && to < n && 0 < span_ms && offset_ms <= span_ms,
    }
}

proof fn lemma_scan_valid(pts: Seq<ProfilePoint>, n: int, t: u32, i: int)
    requires
        2 <= n <= pts.len(),
        n <= 16,
        0 <= i <= n - 1,
    ensures
        target_valid(scan_segments(pts, n, t, i), n),
    decreases n - i,
{
    if i < n - 1 {
        if pts[i].t_ms <= t && t <= pts[i + 1].t_ms {
            let a = pts[i];
            let b = pts[i + 1];
            assert(scan_segments(pts, n, t, i) == segment_target(pts, i, t));
            if a.interp == SegmentInterp::Linear && b.t_ms != a.t_ms {
                assert(b.t_ms - a.t_ms > 0);
                assert(t - a.t_ms <= b.t_ms - a.t_ms);
            }
        } else {
            lemma_scan_valid(pts, n, t, i + 1);
        }
    }
}

fn eval_segments(pts: &[ProfilePoint; 16], n: usize, t: u32) -> (r: ProfileTarget)
    requires
        2 <= n <= 16,
        t > pts@[0].t_ms,
    ensures
        r == scan_segments(pts@, n as int, t, 0),
{
    let mut i: usize = 0;
    while i < n - 1
        invariant
            2 <= n <= 16,
            0 <= i <= n - 1,
            scan_segments(pts@, n as int, t, i as int) == scan_segments(pts@, n as int, t, 0),
        decreases n - i,
    {
        let a = pts[i];
        let b = pts[i + 1];
        if t >= a.t_ms && t <= b.t_ms {
            return match a.interp {
                SegmentInterp::Step => if t == b.t_ms {
                    ProfileTarget::Point(i + 1)
                } else {
                    ProfileTarget::Point(i)
                },
                SegmentInterp::Linear => {
                    let span = b.t_ms - a.t_ms;
                    if span == 0 {
                        ProfileTarget::Point(i + 1)
                    } else {
                        ProfileTarget::Between { from: i, to: i + 1, offset_ms: t - a.t_ms, span_ms: span }
                    }
                },
            };
        }
        i = i + 1;
    }
    ProfileTarget::Point(n - 1)
}

/// Evaluate the profile at `elapsed_ms`: which breakpoint value (or which segment,
/// and how far into it) gives the current target. Pure; assumes sorted points.
pub fn eval_profile(profile: &SetpointProfile, elapsed_ms: u32) -> (r: ProfileTarget)
    requires
        profile.count as int <= MAX_PROFILE_POINTS,
    ensures
        r == spec_eval(*profile, elapsed_ms),
        target_valid(r, profile.count as int),
{
    let n = profile.count as usize;
    if n == 0 {
        return ProfileTarget::Zero;
    }
    if n == 1 {
        return ProfileTarget::Point(0);
    }
    let last_t = profile.points[n - 1].t_ms;
    let t = if elapsed_ms >= last_t {
        match profile.end_behavior {
            EndBehavior::HoldLast => return ProfileTarget::Point(n - 1),
            EndBehavior::Stop => return ProfileTarget::Point(n - 1),
            EndBehavior::Loop => {
                if profile.total_ms == 0 {
                    return ProfileTarget::Point(n - 1);
                }
                elapsed_ms % profile.total_ms
            },
        }
    } else {
        elapsed_ms
    };
    proof {
        lemma_scan_valid(profile.points@, n as int, t, 0);
    }
    if t <= profile.points[0].t_ms {
        return ProfileTarget::Point(0);
    }
    eval_segments(&profile.points, n, t)
}

/// Has a `Stop`-terminated profile finished? (`HoldLast` and `Loop` never finish.)
pub fn profile_finished(profile: &SetpointProfile, elapsed_ms: u32) -> (r: bool)
    ensures
        r == (profile.count > 0 && profile.end_behavior == EndBehavior::Stop && elapsed_ms >= profile.total_ms),
{
    profile.count > 0 && profile.end_behavior == EndBehavior::Stop && elapsed_ms >= profile.total_ms
}

/// Timing of the compiled-in demo profile: breakpoints at 0, 5 s, 25 s and 30 s, all
/// linear, holding the last value; the caller's values are 0, 1500, 1500 and 1800 RPM.
pub fn default_profile() -> (r: SetpointProfile)
    ensures
        r.count == 4,
        r.end_behavior == EndBehavior::HoldLast,
        r.total_ms == 30000,
        r.points@[0] == (ProfilePoint { t_ms: 0, interp: SegmentInterp::Linear }),
        r.points@[1] == (ProfilePoint { t_ms: 5000, interp: SegmentInterp::Linear }),
        r.points@[2] == (ProfilePoint { t_ms: 25000, interp: SegmentInterp::Linear }),
        r.points@[3] == (ProfilePoint { t_ms: 30000, interp: SegmentInterp::Linear }),
        forall|i: int| 4 <= i < 16 ==> r.points@[i] == (ProfilePoint { t_ms: 0, interp: SegmentInterp::Linear }),
{
    let z = ProfilePoint { t_ms: 0, interp: SegmentInterp::Linear };
    let points = [
        z,
        ProfilePoint { t_ms: 5000, interp: SegmentInterp::Linear },
        ProfilePoint { t_ms: 25000, interp: SegmentInterp::Linear },
        ProfilePoint { t_ms: 30000, interp: SegmentInterp::Linear },
        z, z, z, z, z, z, z, z, z, z, z, z,
    ];
    SetpointProfile { points, count: 4, end_behavior: EndBehavior::HoldLast, total_ms: 30000 }
}

// ── laws ──

/// A looping profile whose total time is its last breakpoint repeats with that period:
/// past the end, the target at `e` is the target at `e mod total`.
pub proof fn lemma_loop_is_periodic(p: SetpointProfile, e: u32)
    requires
        2 <= p.count <= 16,
        p.end_behavior == EndBehavior::Loop,
        p.total_ms == p.points@[p.count - 1].t_ms,
        p.total_ms > 0,
        e >= p.total_ms,
    ensures
        spec_eval(p, e) == spec_eval(p, (e % p.total_ms) as u32),
{
}

/// Past its last breakpoint, a hold-last profile holds the final value forever.
pub proof fn lemma_hold_last_holds(p: SetpointProfile, e: u32)
    requires
        1 <= p.count <= 16,
        p.end_behavior == EndBehavior::HoldLast,
        e >= p.points@[p.count - 1].t_ms,
    ensures
        spec_eval(p, e) == ProfileTarget::Point((p.count - 1) as usize),
{
}

/// Before the first breakpoint the target is the first value.
pub proof fn lemma_before_first_point(p: SetpointProfile, e: u32)
    requires
        1 <= p.count <= 16,
        e <= p.points@[0].t_ms,
        e < p.points@[p.count - 1].t_ms,
    ensures
        spec_eval(p, e) == ProfileTarget::Point(0),
{
}

/// Once a stop-terminated profile reports finished, its target is the final value.
pub proof fn lemma_finished_means_final_value(p: SetpointProfile, e: u32)
    requires
        1 <= p.count <= 16,
        p.end_behavior == EndBehavior::Stop,
        p.total_ms >= p.points@[p.count - 1].t_ms,
        p.count > 0 && e >= p.total_ms,
    ensures
        spec_eval(p, e) == ProfileTarget::Point((p.count - 1) as usize),
{
}

/// Inside a linear segment of a sorted profile (strictly inside both ends) the
/// target is the interpolation across exactly that segment.
pub proof fn lemma_inside_linear_segment(p: SetpointProfile, i: int, e: u32)
    requires
        2 <= p.count <= 16,
        0 <= i < p.count - 1,
        forall|j: int, k: int| 0 <= j <= k < p.count ==> p.points@[j].t_ms <= p.points@[k].t_ms,
        p.points@[i].t_ms < e < p.points@[i + 1].t_ms,
        p.points@[i].interp == SegmentInterp::Linear,
    ensures
        spec_eval(p, e) == (ProfileTarget::Between {
            from: i as usize,
            to: (i + 1) as usize,
            offset_ms: (e - p.points@[i].t_ms) as u32,
            span_ms: (p.points@[i + 1].t_ms - p.points@[i].t_ms) as u32,
        }),
{
    let n = p.count as int;
    assert(e < p.points@[n - 1].t_ms);
    lemma_scan_skips(p.points@, n, e, 0, i);
}

/// A step segment of a sorted profile holds its own point's value strictly after its
/// start, up to the next point's time, and jumps to the next point's value at that time.
pub proof fn lemma_step_holds_then_jumps(p: SetpointProfile, i: int, e: u32)
    requires
        2 <= p.count <= 16,
        0 <= i < p.count - 1,
        forall|j: int, k: int| 0 <= j <= k < p.count ==> p.points@[j].t_ms <= p.points@[k].t_ms,
        p.points@[i].t_ms < e <= p.points@[i + 1].t_ms,
        e < p.points@[p.count - 1].t_ms,
        p.points@[i].interp == SegmentInterp::Step,
    ensures
        e < p.points@[i + 1].t_ms ==> spec_eval(p, e) == ProfileTarget::Point(i as usize),
        e == p.points@[i + 1].t_ms ==> spec_eval(p, e) == ProfileTarget::Point((i + 1) as usize),
{
    let n = p.count as int;
    lemma_scan_skips(p.points@, n, e, 0, i);
}

proof fn lemma_scan_skips(pts: Seq<ProfilePoint>, n: int, t: u32, j: int, i: int)
    requires
        2 <= n <= pts.len(),
        0 <= j <= i < n - 1,
        forall|a: int, b: int| 0 <= a <= b < n ==> pts[a].t_ms <= pts[b].t_ms,
        pts[i].t_ms < t,
    ensures
        scan_segments(pts, n, t, j) == scan_segments(pts, n, t, i),
    decreases i - j,
{
    if j < i {
        assert(pts[j + 1].t_ms <= pts[i].t_ms);
        lemma_scan_skips(pts, n, t, j + 1, i);
    }
}

} // verus!
