//! The status a state worker reports after one tick.

use vstd::prelude::*;

verus! {

/// Local fault codes a worker can report.
#[derive(PartialEq, Eq, Clone, Copy, Debug, Structural)]
pub enum FaultCode {
    Timeout,
    SensorError,
    WifiLost,
}

/// A generic status report for any state worker.
#[derive(PartialEq, Eq, Clone, Copy, Debug, Structural)]
pub enum WorkerStatus {
    /// Busy; come back next tick.
    Running,
    /// Job done, ready for a transition.
    Complete,
    /// Failed, with the reason.
    Failed(FaultCode),
}

/// What one tick of the calibration worker decided: its status, and whether the
/// indicator LED is to be toggled.
#[derive(PartialEq, Eq, Clone, Copy, Debug, Structural)]
pub struct WorkerTick {
    pub status: WorkerStatus,
    pub toggle_led: bool,
}

/// Calibration worker tick at `ticks`: blink and keep running for the first 1000
/// ticks, fail with a timeout past 5000, otherwise report completion.
pub fn run(ticks: u64) -> (r: WorkerTick)
    ensures
        ticks < 1000 ==> r == (WorkerTick { status: WorkerStatus::Running, toggle_led: true }),
        1000 <= ticks <= 5000 ==> r == (WorkerTick { status: WorkerStatus::Complete, toggle_led: false }),
        ticks > 5000 ==> r == (WorkerTick { status: WorkerStatus::Failed(FaultCode::Timeout), toggle_led: false }),
{
    if ticks < 1000 {
        return WorkerTick { status: WorkerStatus::Running, toggle_led: true };
    }
    if ticks > 5000 {
        return WorkerTick { status: WorkerStatus::Failed(FaultCode::Timeout), toggle_led: false };
    }
    WorkerTick { status: WorkerStatus::Complete, toggle_led: false }
}

} // verus!
