//! The telemetry loop's bookkeeping: the frame timestamp, the encoder movement
//! since the previous tick, and when a frame is sent or a status line logged.
//! Turning encoder counts into a speed and building the frame are the caller's.

use vstd::prelude::*;
use crate::states::STATE;

verus! {

/// Telemetry period (ms).
pub const TELEMETRY_PERIOD_MS: u32 = 10;

/// Encoder counts per shaft revolution.
pub const COUNTS_PER_REV: u32 = 8192;

/// Log a status line every this many telemetry ticks.
pub const LOG_EVERY: u32 = 100;

/// Counts moved between two readings of a wrapping 32-bit counter, as a signed number.
pub open spec fn spec_delta(last: u32, current: u32) -> i32 {
    current.wrapping_sub(last) as i32
}

/// Encoder counts moved since the previous reading (the counter wraps).
pub fn encoder_delta(last: u32, current: u32) -> (r: i32)
    ensures
        r == spec_delta(last, current),
{
    current.wrapping_sub(last) as i32
}

/// Frames are sent in every state but BOOT (the link is not up yet).
pub fn frame_due(state: STATE) -> (r: bool)
    ensures
        r == (state != STATE::BOOT),
{
    !matches!(state, STATE::BOOT)
}

/// What one telemetry tick asks of the caller.
#[derive(Clone, Copy, Debug, PartialEq, Eq, Structural)]
pub struct TelemetryStep {
    /// Timestamp of this frame (ms, wrapping).
    pub ts_ms: u32,
    /// Encoder counts moved since the previous tick.
    pub delta_counts: i32,
    /// Send the frame (and any pending calibration report).
    pub send: bool,
    /// Log a status line.
    pub log: bool,
}

/// The telemetry loop's counters.
pub struct TelemetryClock {
    last_count: u32,
    ts_ms: u32,
    loop_counter: u32,
}

pub struct ClockView {
    pub last_count: u32,
    pub ts_ms: u32,
    pub loop_counter: u32,
}

impl View for TelemetryClock {
    type V = ClockView;

    closed spec fn view(&self) -> ClockView {
        ClockView { last_count: self.last_count, ts_ms: self.ts_ms, loop_counter: self.loop_counter }
    }
}

impl TelemetryClock {
    pub fn new() -> (r: TelemetryClock)
        ensures
            r@ == (ClockView { last_count: 0, ts_ms: 0, loop_counter: 0 }),
    {
        TelemetryClock { last_count: 0, ts_ms: 0, loop_counter: 0 }
    }

    /// One telemetry tick with the encoder reading `count` in `state`.
    pub fn tick(&mut self, count: u32, state: STATE) -> (r: TelemetryStep)
        ensures
            r.ts_ms == old(self)@.ts_ms.wrapping_add(TELEMETRY_PERIOD_MS),
            r.delta_counts == spec_delta(old(self)@.last_count, count),
            r.send == (state != STATE::BOOT),
            r.log == (old(self)@.loop_counter % LOG_EVERY == 0),
            final(self)@ == (ClockView {
                last_count: count,
                ts_ms: r.ts_ms,
                loop_counter: old(self)@.loop_counter.wrapping_add(1),
            }),
    {
        self.ts_ms = self.ts_ms.wrapping_add(TELEMETRY_PERIOD_MS);
        let delta = encoder_delta(self.last_count, count);
        self.last_count = count;
        let log = self.loop_counter % LOG_EVERY == 0;
        self.loop_counter = self.loop_counter.wrapping_add(1);
        TelemetryStep { ts_ms: self.ts_ms, delta_counts: delta, send: frame_due(state), log }
    }
}

// ── laws ──

/// Across one counter wrap the measured movement is still right: whenever the shaft
/// moved by `d` counts with |d| < 2^31, the delta is `d`.
pub proof fn lemma_delta_survives_wrap(last: u32, d: int)
    requires
        -0x8000_0000 <= d < 0x8000_0000,
    ensures
        spec_delta(last, ((last + d) % 0x1_0000_0000) as u32) == d,
{
    let current = ((last + d) % 0x1_0000_0000) as u32;
    let w = current.wrapping_sub(last);
    assert(w == (current - last) % 0x1_0000_0000 || w == current - last + 0x1_0000_0000 || w == current - last) by {
        assert(w == (if current >= last { current - last } else { current - last + 0x1_0000_0000 }));
    }
    if d >= 0 {
        if last + d < 0x1_0000_0000 {
            assert(current == last + d);
        } else {
            assert(current == last + d - 0x1_0000_0000);
        }
    } else {
        if last + d >= 0 {
            assert(current == last + d);
        } else {
            assert(current == last + d + 0x1_0000_0000);
        }
    }
    assert((w as int) == (if d >= 0 { d } else { d + 0x1_0000_0000 }));
    assert(w as i32 == (if w < 0x8000_0000 { w as int } else { w - 0x1_0000_0000 })) by (bit_vector);
}

} // verus!
