//! Linear ramp timing.
//!
//! A ramp runs from a start value to an end value over a duration. The library
//! keeps the clock (elapsed time, completion); each sample says where along the
//! ramp the output is, and the caller interpolates its start and end values:
//! `start + (end - start) * elapsed / duration`, or `end` once finished.

use vstd::prelude::*;

verus! {

/// Position along a ramp.
#[derive(Clone, Copy, Debug, PartialEq, Eq, Structural)]
pub enum RampSample {
    /// The ramp is finished: the output is the end value.
    End,
    /// `elapsed_ms` of `duration_ms` have passed (elapsed < duration).
    Along { elapsed_ms: u32, duration_ms: u32 },
}

/// What a [`Ramp`] holds.
pub struct RampView {
    pub duration_ms: u32,
    pub elapsed_ms: u32,
    pub done: bool,
}

/// Ramp clock: a zero duration is treated as 1 ms.
#[derive(Clone, Copy, Debug)]
pub struct Ramp {
    duration_ms: u32,
    elapsed_ms: u32,
    done: bool,
}

impl View for Ramp {
    type V = RampView;

    closed spec fn view(&self) -> RampView {
        RampView { duration_ms: self.duration_ms, elapsed_ms: self.elapsed_ms, done: self.done }
    }
}

/// Well-formed ramp clock: positive duration, and unfinished ramps are inside it.
pub open spec fn ramp_wf(v: RampView) -> bool {
    &&& v.duration_ms >= 1
    &&& !v.done ==> v.elapsed_ms < v.duration_ms
}

/// Where a ramp clock stands.
pub open spec fn sample_of(v: RampView) -> RampSample {
    if v.done {
        RampSample::End
    } else {
        RampSample::Along { elapsed_ms: v.elapsed_ms, duration_ms: v.duration_ms }
    }
}

/// The clock after advancing by `dt_ms`.
pub open spec fn ticked(v: RampView, dt_ms: u32) -> RampView {
    if v.done {
        v
    } else if v.elapsed_ms + dt_ms >= v.duration_ms {
        RampView { elapsed_ms: (v.elapsed_ms + dt_ms) as u32, done: true, ..v }
    } else {
        RampView { elapsed_ms: (v.elapsed_ms + dt_ms) as u32, ..v }
    }
}

/// Advancing by `dt_ms` does not overflow the elapsed-time counter.
pub open spec fn tick_fits(v: RampView, dt_ms: u32) -> bool {
    v.done || v.elapsed_ms + dt_ms <= u32::MAX
}

impl Ramp {
    /// A ramp over `duration_ms` (at least 1 ms), not started.
    pub fn new(duration_ms: u32) -> (r: Ramp)
        ensures
            ramp_wf(r@),
            r@ == (RampView { duration_ms: if duration_ms == 0 { 1 } else { duration_ms }, elapsed_ms: 0, done: false }),
    {
        Ramp { duration_ms: if duration_ms == 0 { 1 } else { duration_ms }, elapsed_ms: 0, done: false }
    }

    /// Advance by `dt_ms` and return the new position.
    pub fn tick(&mut self, dt_ms: u32) -> (s: RampSample)
        requires
            ramp_wf(old(self)@),
            tick_fits(old(self)@, dt_ms),
        ensures
            ramp_wf(final(self)@),
            final(self)@ == ticked(old(self)@, dt_ms),
            s == sample_of(final(self)@),
    {
        if self.done {
            return RampSample::End;
        }
        self.elapsed_ms = self.elapsed_ms + dt_ms;
        if self.elapsed_ms >= self.duration_ms {
            self.done = true;
            RampSample::End
        } else {
            RampSample::Along { elapsed_ms: self.elapsed_ms, duration_ms: self.duration_ms }
        }
    }

    /// Has the ramp reached its end?
    pub fn is_done(&self) -> (r: bool)
        ensures
            r == self@.done,
    {
        self.done
    }

    /// Is there room for `dt_ms` more on the elapsed-time counter?
    pub fn elapsed_within(&self, dt_ms: u32) -> (r: bool)
        ensures
            r == (self@.elapsed_ms + dt_ms <= u32::MAX),
    {
        self.elapsed_ms <= u32::MAX - dt_ms
    }

    /// Current position without advancing.
    pub fn current_value(&self) -> (s: RampSample)
        ensures
            s == sample_of(self@),
    {
        if self.done {
            RampSample::End
        } else {
            RampSample::Along { elapsed_ms: self.elapsed_ms, duration_ms: self.duration_ms }
        }
    }
}

// ── laws ──

/// A finished ramp stays finished and keeps yielding its end value.
pub proof fn lemma_ramp_end_is_absorbing(v: RampView, dt_ms: u32)
    requires
        v.done,
    ensures
        ticked(v, dt_ms) == v,
        sample_of(ticked(v, dt_ms)) == RampSample::End,
{
}

/// A tick that covers the remaining time finishes the ramp; a shorter one advances
/// the clock by exactly `dt_ms` and leaves it unfinished.
pub proof fn lemma_ramp_progress(v: RampView, dt_ms: u32)
    requires
        ramp_wf(v),
        !v.done,
        tick_fits(v, dt_ms),
    ensures
        dt_ms >= v.duration_ms - v.elapsed_ms ==> ticked(v, dt_ms).done,
        dt_ms < v.duration_ms - v.elapsed_ms ==> !ticked(v, dt_ms).done && ticked(v, dt_ms).elapsed_ms == v.elapsed_ms + dt_ms,
        ramp_wf(ticked(v, dt_ms)),
{
}

/// A fresh ramp ticked in steps of `dt_ms > 0` is finished after `k` ticks once
/// `k * dt_ms` reaches its duration.
pub proof fn lemma_ramp_finishes(duration_ms: u32, dt_ms: u32, k: nat)
    requires
        dt_ms > 0,
        duration_ms >= 1,
        k * dt_ms >= duration_ms,
        (k * dt_ms) <= u32::MAX,
    ensures
        ticks(RampView { duration_ms, elapsed_ms: 0, done: false }, dt_ms, k).done,
    decreases k,
{
    lemma_ticks_elapsed(RampView { duration_ms, elapsed_ms: 0, done: false }, dt_ms, k);
}

/// The clock after `k` ticks of `dt_ms`.
pub open spec fn ticks(v: RampView, dt_ms: u32, k: nat) -> RampView
    decreases k,
{
    if k == 0 {
        v
    } else {
        ticked(ticks(v, dt_ms, (k - 1) as nat), dt_ms)
    }
}

proof fn lemma_ticks_elapsed(v: RampView, dt_ms: u32, k: nat)
    requires
        !v.done,
        v.elapsed_ms == 0,
        v.duration_ms >= 1,
        k * dt_ms <= u32::MAX,
    ensures
        ticks(v, dt_ms, k).done ==> k * dt_ms >= v.duration_ms,
        !ticks(v, dt_ms, k).done ==> ticks(v, dt_ms, k).elapsed_ms == k * dt_ms,
        k * dt_ms >= v.duration_ms ==> ticks(v, dt_ms, k).done,
        ticks(v, dt_ms, k).duration_ms == v.duration_ms,
    decreases k,
{
    if k > 0 {
        let k1 = (k - 1) as nat;
        assert(k1 * dt_ms <= k * dt_ms) by (nonlinear_arith)
            requires k1 + 1 == k;
        assert(k * dt_ms == k1 * dt_ms + dt_ms) by (nonlinear_arith)
            requires k1 + 1 == k;
        lemma_ticks_elapsed(v, dt_ms, k1);
        let p = ticks(v, dt_ms, k1);
        if p.done {
            assert(k1 * dt_ms >= v.duration_ms);
        }
    } else {
        assert(k * dt_ms == 0) by (nonlinear_arith)
            requires k == 0;
    }
}

} // verus!
