//! The machine's operating states and the faults that can stop it.

use vstd::prelude::*;

verus! {

/// Operating state of the generator set.
#[allow(non_camel_case_types)]
#[derive(Clone, Copy, Debug, PartialEq, Eq, Structural)]
pub enum STATE {
    /// Clocks, GPIO, peripherals, link handshake.
    BOOT,
    /// Learning the demand-to-RPM relationship.
    CALIBRATE,
    /// Motor off, waiting for a run configuration.
    IDLE,
    /// Ramping the prime mover up to speed.
    SPOOLUP,
    /// Building up excitation on the induction generator.
    EXCITE,
    /// Phase-locking the output to the reference.
    PLL_LOCK,
    /// Locked; output gate not yet open.
    READY,
    /// Serving load.
    GENERATE,
    /// Recovering from a sudden change of load.
    LOAD_REJECTION,
    /// Tripped by a fault; actuators held off.
    FAULT,
    /// Emergency stop; actuators held off.
    ESTOP,
    /// A run configuration is loaded, waiting for Start.
    CONFIGURED,
    /// Live manual control of the demand.
    MANUAL,
    /// Graceful ramp down to a stop.
    RAMP_DOWN,
}

/// Reasons for a trip.
#[derive(Clone, Copy, Debug, PartialEq, Eq, Structural)]
pub enum Fault {
    OverVoltage,
    UnderVoltage,
    OverCurrent,
    OverTemp,
    NoExcitation,
    PllUnlock,
    /// Speed reading outside the plausible window (or not a number).
    SensorOutOfRange,
    /// Speed above the overspeed limit.
    Overspeed,
}

/// Human-readable name of a state.
pub open spec fn state_label(s: STATE) -> Seq<char> {
    match s {
        STATE::BOOT => "Boot"@,
        STATE::CALIBRATE => "Calibrate"@,
        STATE::IDLE => "Idle"@,
        STATE::SPOOLUP => "Spool Up"@,
        STATE::EXCITE => "Excite"@,
        STATE::PLL_LOCK => "PLL Lock"@,
        STATE::READY => "Ready"@,
        STATE::GENERATE => "Generate"@,
        STATE::LOAD_REJECTION => "Load Rejection"@,
        STATE::FAULT => "FAULT"@,
        STATE::ESTOP => "ESTOP"@,
        STATE::CONFIGURED => "Configured"@,
        STATE::MANUAL => "Manual"@,
        STATE::RAMP_DOWN => "Ramp Down"@,
    }
}

/// Position of a state in the timing table and on the wire.
pub open spec fn state_index(s: STATE) -> usize {
    match s {
        STATE::BOOT => 0,
        STATE::CALIBRATE => 1,
        STATE::IDLE => 2,
        STATE::SPOOLUP => 3,
        STATE::EXCITE => 4,
        STATE::PLL_LOCK => 5,
        STATE::READY => 6,
        STATE::GENERATE => 7,
        STATE::LOAD_REJECTION => 8,
        STATE::FAULT => 9,
        STATE::ESTOP => 10,
        STATE::CONFIGURED => 11,
        STATE::MANUAL => 12,
        STATE::RAMP_DOWN => 13,
    }
}

impl STATE {
    /// Human-readable name of the state.
    pub fn as_str(self) -> (r: &'static str)
        ensures
            r@ == state_label(self),
    {
        match self {
            STATE::BOOT => "Boot",
            STATE::CALIBRATE => "Calibrate",
            STATE::IDLE => "Idle",
            STATE::SPOOLUP => "Spool Up",
            STATE::EXCITE => "Excite",
            STATE::PLL_LOCK => "PLL Lock",
            STATE::READY => "Ready",
            STATE::GENERATE => "Generate",
            STATE::LOAD_REJECTION => "Load Rejection",
            STATE::FAULT => "FAULT",
            STATE::ESTOP => "ESTOP",
            STATE::CONFIGURED => "Configured",
            STATE::MANUAL => "Manual",
            STATE::RAMP_DOWN => "Ramp Down",
        }
    }

    /// Position of the state in the timing table (0 to 13).
    pub fn index(self) -> (r: usize)
        ensures
            r == state_index(self),
            r < 14,
    {
        match self {
            STATE::BOOT => 0,
            STATE::CALIBRATE => 1,
            STATE::IDLE => 2,
            STATE::SPOOLUP => 3,
            STATE::EXCITE => 4,
            STATE::PLL_LOCK => 5,
            STATE::READY => 6,
            STATE::GENERATE => 7,
            STATE::LOAD_REJECTION => 8,
            STATE::FAULT => 9,
            STATE::ESTOP => 10,
            STATE::CONFIGURED => 11,
            STATE::MANUAL => 12,
            STATE::RAMP_DOWN => 13,
        }
    }
}

/// Distinct states have distinct indices, so each state owns its own timing slot.
pub proof fn lemma_state_index_injective(a: STATE, b: STATE)
    ensures
        state_index(a) == state_index(b) ==> a == b,
        state_index(a) < 14,
{
}

} // verus!
