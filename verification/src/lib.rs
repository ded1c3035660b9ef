use vstd::prelude::*;

pub mod states;
pub mod telemetry;
pub mod adc;
pub mod calibrate;
pub mod commands;
pub mod control;
pub mod framing;
pub mod load_bank;
pub mod profile;
pub mod queue;
pub mod ramp;
pub mod wcet;
pub mod worker;

verus! {

} // verus!
