//! Commands from the operator console, as the control loop sees them.
//!
//! The wire messages carry numeric set-points (target speed, gains, clamps) that
//! the caller applies; what the control loop decides on is the kind of each
//! command and, for a run configuration, its mode and timing.

use vstd::prelude::*;

verus! {

/// How a run is driven.
#[derive(Clone, Copy, Debug, PartialEq, Eq, Structural)]
pub enum RunMode {
    /// Direct demand, no feedback.
    OpenLoop,
    /// PID closed loop on the target speed.
    ClosedLoop,
    /// The calibration sequence.
    Calibrate,
    /// Live manual control from the console.
    Manual,
    /// Spool up, excite, lock and generate.
    Generate,
}

/// The mode and timing of a run configuration.
#[derive(Clone, Copy, Debug, PartialEq, Eq, Structural)]
pub struct RunPlan {
    pub mode: RunMode,
    /// Ramp-up duration (ms).
    pub ramp_up_ms: u32,
    /// Hold duration (ms); 0 holds until stopped.
    pub hold_ms: u32,
    /// Ramp-down duration (ms).
    pub ramp_down_ms: u32,
}

/// The plan of the default run configuration.
pub open spec fn spec_default_plan() -> RunPlan {
    RunPlan { mode: RunMode::OpenLoop, ramp_up_ms: 5000, hold_ms: 0, ramp_down_ms: 5000 }
}

/// Open loop, 5 s up, hold until stopped, 5 s down.
pub fn default_plan() -> (r: RunPlan)
    ensures
        r == spec_default_plan(),
{
    RunPlan { mode: RunMode::OpenLoop, ramp_up_ms: 5000, hold_ms: 0, ramp_down_ms: 5000 }
}

/// Which live parameter an adjustment changes.
#[derive(Clone, Copy, Debug, PartialEq, Eq, Structural)]
pub enum LiveParam {
    /// Demand directly (manual and open loop).
    Duty,
    /// Target speed.
    TargetRpm,
    /// PID gains, hot-swapped.
    PidGains,
    /// Maximum demand clamp.
    MaxDutyClamp,
    /// Target line frequency.
    TargetFreqHz,
    /// Target RMS voltage.
    TargetVRms,
}

/// A command from the console, by kind.
#[derive(Clone, Copy, Debug, PartialEq, Eq, Structural)]
pub enum Command {
    Ping,
    /// Load a run configuration (its mode and timing shown here).
    Configure(RunPlan),
    Start,
    Stop,
    EmergencyStop,
    /// Adjust a live parameter.
    LiveAdjust(LiveParam),
    /// Legacy set-points.
    Setpoints,
    ClearFaults,
    /// The bridge announces a (re)start.
    Hello,
    /// The bridge acknowledges our announcement.
    HelloAck,
    /// Load a setpoint profile.
    LoadProfile,
}

/// Human-readable name of a command kind.
pub open spec fn command_label(c: Command) -> Seq<char> {
    match c {
        Command::Ping => "Ping"@,
        Command::Configure(_) => "Configure"@,
        Command::Start => "Start"@,
        Command::Stop => "Stop"@,
        Command::EmergencyStop => "EmergencyStop"@,
        Command::LiveAdjust(_) => "LiveAdjust"@,
        Command::Setpoints => "Set"@,
        Command::ClearFaults => "ClearFaults"@,
        Command::Hello => "Hello"@,
        Command::HelloAck => "HelloAck"@,
        Command::LoadProfile => "LoadProfile"@,
    }
}

/// Human-readable command name for logging.
pub fn cmd_name(c: &Command) -> (r: &'static str)
    ensures
        r@ == command_label(*c),
{
    match c {
        Command::Ping => "Ping",
        Command::Configure(_) => "Configure",
        Command::Start => "Start",
        Command::Stop => "Stop",
        Command::EmergencyStop => "EmergencyStop",
        Command::LiveAdjust(_) => "LiveAdjust",
        Command::Setpoints => "Set",
        Command::ClearFaults => "ClearFaults",
        Command::Hello => "Hello",
        Command::HelloAck => "HelloAck",
        Command::LoadProfile => "LoadProfile",
    }
}

/// The queued items other than handshake acknowledgements, in their order.
pub open spec fn without_acks<T>(q: Seq<(Command, T)>) -> Seq<(Command, T)>
    decreases q.len(),
{
    if q.len() == 0 {
        Seq::empty()
    } else if q.last().0 == Command::HelloAck {
        without_acks(q.drop_last())
    } else {
        without_acks(q.drop_last()).push(q.last())
    }
}

/// A queued item that is not a handshake acknowledgement.
pub open spec fn not_ack<T>() -> spec_fn((Command, T)) -> bool {
    |x: (Command, T)| x.0 != Command::HelloAck
}

/// A queued handshake acknowledgement.
pub open spec fn is_ack<T>() -> spec_fn((Command, T)) -> bool {
    |x: (Command, T)| x.0 == Command::HelloAck
}

/// Dropping acknowledgements removes exactly the items of kind `HelloAck`: what is
/// left is the queue filtered by kind, in order (every other kind, `Hello` included,
/// stays), and the length falls by exactly the number of acknowledgements.
pub proof fn lemma_without_acks_is_filter<T>(q: Seq<(Command, T)>)
    ensures
        without_acks(q) == q.filter(not_ack::<T>()),
        without_acks(q).len() + q.filter(is_ack::<T>()).len() == q.len(),
    decreases q.len(),
{
    reveal_with_fuel(Seq::filter, 1);
    if q.len() == 0 {
        assert(q =~= Seq::<(Command, T)>::empty());
    } else {
        lemma_without_acks_is_filter(q.drop_last());
        let l = q.last();
        assert(not_ack::<T>()(l) == (l.0 != Command::HelloAck));
        assert(is_ack::<T>()(l) == (l.0 == Command::HelloAck));
    }
}

} // verus!
