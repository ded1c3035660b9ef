//! Calibration schedule: hold each of the calibration demand levels, let the speed
//! settle, then sample it over a window at the tail of the hold.
//!
//! The library runs the schedule (which point, settling or sampling, how long,
//! how many samples, when a point closes and when the run completes). The caller
//! feeds the speed samples into its running sums, turns a closed window into a
//! point (mean and spread over `samples`), and fits the line once all points are in.

use vstd::prelude::*;

verus! {

/// Number of demand levels sampled.
pub const CAL_POINT_COUNT: usize = 4;
/// Hold time per demand level (ms); must exceed the mechanical settling time.
pub const SETTLE_MS: u32 = 2500;
/// Averaging window at the tail of each hold (ms).
pub const WINDOW_MS: u32 = 500;

/// Part of the schedule the calibrator is in.
#[derive(Clone, Copy, Debug, PartialEq, Eq, Structural)]
pub enum CalPhase {
    Settling,
    Sampling,
    Done,
}

/// What one calibration tick asks of the caller.
#[derive(Clone, Copy, Debug, PartialEq, Eq, Structural)]
pub enum CalTick {
    /// Calibration is over: demand 0, done, no new result.
    Finished,
    /// Hold demand level `point`; when `begin_sampling`, clear the running sums first
    /// thing next tick (the sampling window starts).
    Hold { point: usize, begin_sampling: bool },
    /// Add this tick's speed to the sums of level `point` (now `samples` samples).
    /// When `close`, the window is over: the sums make point `point`. When also
    /// `complete`, all levels are in: fit, report, demand 0, done.
    /// Otherwise keep holding level `point` (or the next level after a close).
    Sample { point: usize, samples: u32, close: bool, complete: bool },
}

/// What a [`Calibrator`] holds.
pub struct CalView {
    pub phase: CalPhase,
    pub point_idx: usize,
    pub elapsed_in_point: u32,
    pub sample_count: u32,
    pub collected: usize,
}

/// The calibration schedule.
#[derive(Clone, Copy, Debug)]
pub struct Calibrator {
    phase: CalPhase,
    point_idx: usize,
    elapsed_in_point: u32,
    sample_count: u32,
    collected: usize,
}

impl View for Calibrator {
    type V = CalView;

    closed spec fn view(&self) -> CalView {
        CalView {
            phase: self.phase,
            point_idx: self.point_idx,
            elapsed_in_point: self.elapsed_in_point,
            sample_count: self.sample_count,
            collected: self.collected,
        }
    }
}

/// Schedule invariant: one closed point per finished level, levels in range while running,
/// and a settling clock below the start of the sampling window.
pub open spec fn cal_wf(v: CalView) -> bool {
    &&& v.collected == v.point_idx
    &&& v.phase == CalPhase::Done <==> v.point_idx == CAL_POINT_COUNT
    &&& v.point_idx <= CAL_POINT_COUNT
    &&& v.phase == CalPhase::Settling ==> v.elapsed_in_point < SETTLE_MS - WINDOW_MS
}

/// The step does not overflow the clock or the sample counter.
pub open spec fn cal_step_fits(v: CalView, dt_ms: u32) -> bool {
    &&& v.phase != CalPhase::Done ==> v.elapsed_in_point + dt_ms <= u32::MAX
    &&& v.phase == CalPhase::Sampling ==> v.sample_count < u32::MAX
}

/// The schedule after one tick of `dt_ms`, and what that tick asks of the caller.
pub open spec fn cal_next(v: CalView, dt_ms: u32) -> (CalView, CalTick) {
    match v.phase {
        CalPhase::Done => (v, CalTick::Finished),
        CalPhase::Settling => {
            let e = (v.elapsed_in_point + dt_ms) as u32;
            if e >= SETTLE_MS - WINDOW_MS {
                (CalView { phase: CalPhase::Sampling, elapsed_in_point: e, sample_count: 0, ..v },
                 CalTick::Hold { point: v.point_idx, begin_sampling: true })
            } else {
                (CalView { elapsed_in_point: e, ..v }, CalTick::Hold { point: v.point_idx, begin_sampling: false })
            }
        },
        CalPhase::Sampling => {
            let e = (v.elapsed_in_point + dt_ms) as u32;
            let samples = (v.sample_count + 1) as u32;
            if e >= SETTLE_MS {
                let next = (v.point_idx + 1) as usize;
                let complete = next >= CAL_POINT_COUNT;
                (CalView {
                    phase: if complete { CalPhase::Done } else { CalPhase::Settling },
                    point_idx: next,
                    elapsed_in_point: 0,
                    sample_count: samples,
                    collected: (v.collected + 1) as usize,
                }, CalTick::Sample { point: v.point_idx, samples, close: true, complete })
            } else {
                (CalView { elapsed_in_point: e, sample_count: samples, ..v },
                 CalTick::Sample { point: v.point_idx, samples, close: false, complete: false })
            }
        },
    }
}

impl Calibrator {
    /// A fresh schedule: settling on the first level.
    pub fn new() -> (r: Calibrator)
        ensures
            cal_wf(r@),
            r@ == (CalView { phase: CalPhase::Settling, point_idx: 0, elapsed_in_point: 0, sample_count: 0, collected: 0 }),
    {
        Calibrator { phase: CalPhase::Settling, point_idx: 0, elapsed_in_point: 0, sample_count: 0, collected: 0 }
    }

    /// The current phase.
    pub fn phase(&self) -> (r: CalPhase)
        ensures
            r == self@.phase,
    {
        self.phase
    }

    /// Does a step of `dt_ms` stay clear of counter overflow?
    pub fn step_fits(&self, dt_ms: u32) -> (r: bool)
        ensures
            r == cal_step_fits(self@, dt_ms),
    {
        (self.phase == CalPhase::Done || dt_ms <= u32::MAX - self.elapsed_in_point)
            && (self.phase != CalPhase::Sampling || self.sample_count < u32::MAX)
    }

    /// Advance the schedule by `dt_ms`.
    pub fn step(&mut self, dt_ms: u32) -> (t: CalTick)
        requires
            cal_wf(old(self)@),
            cal_step_fits(old(self)@, dt_ms),
        ensures
            cal_wf(final(self)@),
            (final(self)@, t) == cal_next(old(self)@, dt_ms),
    {
        match self.phase {
            CalPhase::Done => CalTick::Finished,
            CalPhase::Settling => {
                self.elapsed_in_point = self.elapsed_in_point + dt_ms;
                if self.elapsed_in_point >= SETTLE_MS - WINDOW_MS {
                    self.phase = CalPhase::Sampling;
                    self.sample_count = 0;
                    CalTick::Hold { point: self.point_idx, begin_sampling: true }
                } else {
                    CalTick::Hold { point: self.point_idx, begin_sampling: false }
                }
            },
            CalPhase::Sampling => {
                self.elapsed_in_point = self.elapsed_in_point + dt_ms;
                let point = self.point_idx;
                self.sample_count = self.sample_count + 1;
                if self.elapsed_in_point >= SETTLE_MS {
                    self.collected = self.collected + 1;
                    self.point_idx = self.point_idx + 1;
                    self.elapsed_in_point = 0;
                    if self.point_idx >= CAL_POINT_COUNT {
                        self.phase = CalPhase::Done;
                        return CalTick::Sample { point, samples: self.sample_count, close: true, complete: true };
                    }
                    self.phase = CalPhase::Settling;
                    CalTick::Sample { point, samples: self.sample_count, close: true, complete: false }
                } else {
                    CalTick::Sample { point, samples: self.sample_count, close: false, complete: false }
                }
            },
        }
    }
}

// ── laws ──

/// Once done, the schedule stays done and asks for nothing but demand 0.
pub proof fn lemma_done_is_absorbing(v: CalView, dt_ms: u32)
    requires
        v.phase == CalPhase::Done,
    ensures
        cal_next(v, dt_ms).0 == v,
        cal_next(v, dt_ms).1 == CalTick::Finished,
{
}

/// Every point's sampling window opens with a request to clear the sums: a tick
/// that moves the schedule from settling to sampling asks to begin sampling on the
/// point being settled, and no other tick does.
pub proof fn lemma_each_window_starts_clean(v: CalView, dt_ms: u32)
    ensures
        v.phase == CalPhase::Settling && cal_next(v, dt_ms).0.phase == CalPhase::Sampling
            ==> cal_next(v, dt_ms).1 == (CalTick::Hold { point: v.point_idx, begin_sampling: true }),
        (cal_next(v, dt_ms).1 matches CalTick::Hold { begin_sampling: true, .. })
            ==> v.phase == CalPhase::Settling && cal_next(v, dt_ms).0.phase == CalPhase::Sampling
                && cal_next(v, dt_ms).0.sample_count == 0,
{
}

/// Every tick names a valid calibration level; points close in order (the closing
/// point is the next free slot), and completion comes exactly with the last level.
pub proof fn lemma_points_close_in_order(v: CalView, dt_ms: u32)
    requires
        cal_wf(v),
        cal_step_fits(v, dt_ms),
    ensures
        cal_wf(cal_next(v, dt_ms).0),
        match cal_next(v, dt_ms).1 {
            CalTick::Finished => v.phase == CalPhase::Done,
            CalTick::Hold { point, begin_sampling } => point < CAL_POINT_COUNT && point == v.point_idx,
            CalTick::Sample { point, samples, close, complete } => {
                &&& point < CAL_POINT_COUNT
                &&& point == v.collected
                &&& close ==> cal_next(v, dt_ms).0.collected == point + 1
                &&& complete <==> (close && point == CAL_POINT_COUNT - 1)
                &&& samples >= 1
            },
        },
{
}

/// The schedule after `k` ticks of `dt_ms`.
pub open spec fn cal_after(v: CalView, dt_ms: u32, k: nat) -> CalView
    decreases k,
{
    if k == 0 {
        v
    } else {
        cal_next(cal_after(v, dt_ms, (k - 1) as nat), dt_ms).0
    }
}

/// The number of closed points never decreases, and the phase stays well formed,
/// along any run of ticks.
pub proof fn lemma_collected_monotone(v: CalView, dt_ms: u32, k: nat)
    requires
        cal_wf(v),
    ensures
        cal_wf(cal_after(v, dt_ms, k)),
        cal_after(v, dt_ms, k).collected >= v.collected,
    decreases k,
{
    if k > 0 {
        lemma_collected_monotone(v, dt_ms, (k - 1) as nat);
    }
}

/// A tick that reports calibration done: the completing tick, or any tick after it.
pub open spec fn cal_done(t: CalTick) -> bool {
    t == CalTick::Finished || t matches CalTick::Sample { complete: true, .. }
}

/// The schedule after ticks of the lengths in `dts`, in order.
pub open spec fn cal_run(v: CalView, dts: Seq<u32>) -> CalView
    decreases dts.len(),
{
    if dts.len() == 0 {
        v
    } else {
        cal_next(cal_run(v, dts.drop_last()), dts.last()).0
    }
}

/// What tick `j` of a run with tick lengths `dts` asks of the caller.
pub open spec fn cal_tick_at(v: CalView, dts: Seq<u32>, j: int) -> CalTick {
    cal_next(cal_run(v, dts.take(j)), dts[j]).1
}

/// After a tick that reports done, the schedule is done at every later tick and
/// each later tick asks for nothing but demand 0, whatever the tick lengths.
proof fn lemma_done_stays_done(v: CalView, dts: Seq<u32>, k: int, m: int)
    requires
        0 <= k < m <= dts.len(),
        cal_done(cal_tick_at(v, dts, k)),
    ensures
        cal_run(v, dts.take(m)).phase == CalPhase::Done,
    decreases m,
{
    let prev = dts.take(m - 1);
    assert(dts.take(m).drop_last() =~= prev);
    assert(dts.take(m).last() == dts[m - 1]);
    if m - 1 > k {
        lemma_done_stays_done(v, dts, k, m - 1);
    }
}

/// A calibration run completes at most once, whatever the tick lengths: the
/// completing tick is the first tick that reports done, and every later tick is
/// `Finished` (demand 0, done, no new result).
pub proof fn lemma_completes_once(v: CalView, dts: Seq<u32>, j: int)
    requires
        0 <= j < dts.len(),
        cal_tick_at(v, dts, j) matches CalTick::Sample { complete: true, .. },
    ensures
        forall|k: int| j < k < dts.len() ==> #[trigger] cal_tick_at(v, dts, k) == CalTick::Finished,
        forall|k: int| 0 <= k < j ==> !cal_done(#[trigger] cal_tick_at(v, dts, k)),
{
    assert forall|k: int| j < k < dts.len() implies #[trigger] cal_tick_at(v, dts, k) == CalTick::Finished by {
        lemma_done_stays_done(v, dts, j, k);
    }
    assert forall|k: int| 0 <= k < j implies !cal_done(#[trigger] cal_tick_at(v, dts, k)) by {
        if cal_done(cal_tick_at(v, dts, k)) {
            lemma_done_stays_done(v, dts, k, j);
        }
    }
}

} // verus!
