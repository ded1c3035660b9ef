//! The control loop's state machine and the safety supervisor's trip decision.
//!
//! Each control tick (every `CONTROL_PERIOD_MS`) takes the state, the command
//! popped from the queue and two sensed facts, and yields the next state and the
//! ordered list of actions to perform on the actuators, LEDs, PID and link. The
//! caller performs the actions; the numeric parts (PID output, feedforward, the
//! value of a ramp at a position, the calibration sums and fit) are its business.

use vstd::prelude::*;
use crate::states::{STATE, Fault};
use crate::commands::{Command, LiveParam, RunMode, RunPlan, spec_default_plan, default_plan};
use crate::ramp::{Ramp, RampView, RampSample, ramp_wf, sample_of, ticked, tick_fits};
use crate::calibrate::{Calibrator, CalView, CalTick, CalPhase, cal_wf, cal_next, cal_step_fits, cal_done};

verus! {

/// Control loop period (ms).
pub const CONTROL_PERIOD_MS: u32 = 10;

/// Hello announcements in BOOT before proceeding without an acknowledgement (about 1 s).
pub const BOOT_HELLO_RETRIES: u32 = 100;

/// The three indicator LEDs.
#[derive(Clone, Copy, Debug, PartialEq, Eq, Structural)]
pub enum Led {
    /// ld1.
    Green,
    /// ld2.
    Yellow,
    /// ld3.
    Red,
}

/// What to do with an LED.
#[derive(Clone, Copy, Debug, PartialEq, Eq, Structural)]
pub enum LedOp {
    On,
    Off,
    Toggle,
}

/// One effect of a control tick, performed by the caller in order.
#[derive(Clone, Copy, Debug, PartialEq, Eq, Structural)]
pub enum Action {
    /// Force the prime mover to its safe state now (demand 0, output off).
    MotorEmergencyOff,
    /// Disarm the prime mover (demand 0, output off, demand ignored).
    MotorDisable,
    /// Arm the prime mover.
    MotorEnable,
    /// Set the prime mover's maximum-demand clamp from the configuration carried by this tick's command.
    MotorClampFromCommand,
    /// Demand the current ramp's value at this position.
    DemandFromRamp(RampSample),
    /// Closed loop along the ramp: target speed is the configured target scaled by the
    /// ramp's value at this position; demand is feedforward plus PID trim, clamped to [0, 1].
    DemandTrackRamp(RampSample),
    /// Closed loop on the configured target speed: demand is the PID output.
    DemandHoldSpeed,
    /// Run one calibration tick as the schedule asks.
    Calibration(CalTick),
    /// Apply the live parameter carried by this tick's command.
    ApplyLive(LiveParam),
    /// Motor power relay: true energizes.
    Relay(bool),
    Light(Led, LedOp),
    PidReset,
    /// Load the PID gains of the stored configuration.
    PidGainsFromConfig,
    /// Arm the serial receive interrupt.
    ListenRx,
    /// Announce ourselves to the bridge.
    SendHello,
    /// Acknowledge the bridge's announcement.
    SendHelloAck,
    /// Store the configuration carried by this tick's command.
    StoreConfigFromCommand,
    /// Forget the stored configuration.
    ClearConfig,
    /// A new ramp starts: from 0 to full demand.
    RampUpStart,
    /// A new ramp starts: from the current demand down to 0.
    RampDownFromDemand,
}

/// What a [`Controller`] holds.
pub struct CtlView {
    pub state: STATE,
    pub plan: Option<RunPlan>,
    pub last_fault: Option<Fault>,
    pub ramp: Option<RampView>,
    pub calibrator: Option<CalView>,
    pub run_elapsed_ms: u32,
    pub boot_hello_attempts: u32,
    pub safety_init_done: bool,
    pub idle_tick: u32,
    pub manual_tick: u32,
    pub estop_tick: u32,
}

/// The control loop's state.
pub struct Controller {
    state: STATE,
    plan: Option<RunPlan>,
    last_fault: Option<Fault>,
    ramp: Option<Ramp>,
    calibrator: Option<Calibrator>,
    run_elapsed_ms: u32,
    boot_hello_attempts: u32,
    safety_init_done: bool,
    idle_tick: u32,
    manual_tick: u32,
    estop_tick: u32,
}

pub open spec fn ramp_view(r: Option<Ramp>) -> Option<RampView> {
    match r {
        Some(x) => Some(x@),
        None => None,
    }
}

pub open spec fn cal_view(c: Option<Calibrator>) -> Option<CalView> {
    match c {
        Some(x) => Some(x@),
        None => None,
    }
}

impl View for Controller {
    type V = CtlView;

    closed spec fn view(&self) -> CtlView {
        CtlView {
            state: self.state,
            plan: self.plan,
            last_fault: self.last_fault,
            ramp: ramp_view(self.ramp),
            calibrator: cal_view(self.calibrator),
            run_elapsed_ms: self.run_elapsed_ms,
            boot_hello_attempts: self.boot_hello_attempts,
            safety_init_done: self.safety_init_done,
            idle_tick: self.idle_tick,
            manual_tick: self.manual_tick,
            estop_tick: self.estop_tick,
        }
    }
}

// ── the transition table ──

/// The stored plan, or the default plan when none is stored.
pub open spec fn plan_of(v: CtlView) -> RunPlan {
    match v.plan {
        Some(p) => p,
        None => spec_default_plan(),
    }
}

/// A new ramp clock over `d` ms.
pub open spec fn fresh_ramp(d: u32) -> RampView {
    RampView { duration_ms: if d == 0 { 1 } else { d }, elapsed_ms: 0, done: false }
}

/// A new calibration schedule.
pub open spec fn fresh_cal() -> CalView {
    CalView { phase: CalPhase::Settling, point_idx: 0, elapsed_in_point: 0, sample_count: 0, collected: 0 }
}

/// Enter RAMP_DOWN with a new ramp over the plan's ramp-down time.
pub open spec fn into_ramp_down(v: CtlView) -> CtlView {
    CtlView { state: STATE::RAMP_DOWN, ramp: Some(fresh_ramp(plan_of(v).ramp_down_ms)), ..v }
}

pub open spec fn blink(c: bool, led: Led) -> Seq<Action> {
    if c {
        seq![Action::Light(led, LedOp::Toggle)]
    } else {
        seq![]
    }
}

pub open spec fn live(cmd: Option<Command>) -> Seq<Action> {
    match cmd {
        Some(Command::LiveAdjust(p)) => seq![Action::ApplyLive(p)],
        _ => seq![],
    }
}

pub open spec fn is_stop(cmd: Option<Command>) -> bool {
    cmd == Some(Command::Stop)
}

pub open spec fn next_boot(v: CtlView, acked: bool) -> (CtlView, Seq<Action>) {
    let (v1, a1) = if !v.safety_init_done {
        (CtlView { safety_init_done: true, ..v }, seq![Action::MotorEmergencyOff, Action::Relay(false), Action::ListenRx])
    } else {
        (v, seq![])
    };
    let a2 = a1.push(Action::SendHello);
    if acked || v1.boot_hello_attempts >= BOOT_HELLO_RETRIES {
        (CtlView { boot_hello_attempts: 0, state: STATE::IDLE, ..v1 },
         a2 + seq![Action::Light(Led::Red, LedOp::Off), Action::Light(Led::Yellow, LedOp::On)])
    } else {
        (CtlView { boot_hello_attempts: (v1.boot_hello_attempts + 1) as u32, ..v1 }, a2.push(Action::Light(Led::Red, LedOp::Toggle)))
    }
}

pub open spec fn next_idle(v: CtlView, cmd: Option<Command>) -> (CtlView, Seq<Action>) {
    match cmd {
        Some(Command::Configure(p)) => (
            CtlView { plan: Some(p), last_fault: None, state: STATE::CONFIGURED, ..v },
            seq![
                Action::MotorDisable,
                Action::MotorClampFromCommand,
                Action::StoreConfigFromCommand,
                Action::Light(Led::Yellow, LedOp::Off),
                Action::Light(Led::Green, LedOp::On),
            ],
        ),
        Some(Command::ClearFaults) => (CtlView { last_fault: None, ..v }, seq![Action::MotorDisable]),
        _ => {
            let t = v.idle_tick.wrapping_add(1);
            (CtlView { idle_tick: t, ..v }, seq![Action::MotorDisable] + blink(t % 50 == 0, Led::Yellow))
        },
    }
}

pub open spec fn next_configured(v: CtlView, cmd: Option<Command>) -> (CtlView, Seq<Action>) {
    match cmd {
        Some(Command::Start) => {
            let p = plan_of(v);
            let cal = if p.mode == RunMode::Calibrate { Some(fresh_cal()) } else { v.calibrator };
            let ramp = if p.mode != RunMode::Manual { Some(fresh_ramp(p.ramp_up_ms)) } else { None };
            let ra = if p.mode != RunMode::Manual { seq![Action::RampUpStart] } else { seq![] };
            let ga = if p.mode == RunMode::ClosedLoop || p.mode == RunMode::Generate { seq![Action::PidGainsFromConfig] } else { seq![] };
            let next = match p.mode {
                RunMode::Calibrate => STATE::CALIBRATE,
                RunMode::Manual => STATE::MANUAL,
                _ => STATE::SPOOLUP,
            };
            (CtlView { run_elapsed_ms: 0, calibrator: cal, ramp: ramp, state: next, ..v },
             seq![Action::Relay(true), Action::MotorEnable, Action::PidReset] + ra + ga)
        },
        Some(Command::Configure(p)) => (CtlView { plan: Some(p), ..v }, seq![Action::MotorClampFromCommand, Action::StoreConfigFromCommand]),
        Some(Command::Stop) => (
            CtlView { plan: None, state: STATE::IDLE, ..v },
            seq![Action::ClearConfig, Action::Light(Led::Green, LedOp::Off), Action::Light(Led::Yellow, LedOp::On)],
        ),
        _ => (v, seq![Action::Light(Led::Green, LedOp::On)]),
    }
}

pub open spec fn next_calibrate(v: CtlView, cmd: Option<Command>) -> (CtlView, Seq<Action>) {
    if is_stop(cmd) {
        (CtlView { calibrator: None, ..into_ramp_down(v) }, seq![Action::RampDownFromDemand])
    } else {
        match v.calibrator {
            None => (CtlView { state: STATE::IDLE, ..v }, seq![]),
            Some(c) => {
                let (c2, t) = cal_next(c, CONTROL_PERIOD_MS);
                if cal_done(t) {
                    (CtlView { calibrator: None, run_elapsed_ms: 0, state: STATE::IDLE, ..v },
                     seq![
                        Action::Calibration(t),
                        Action::MotorDisable,
                        Action::Relay(false),
                        Action::Light(Led::Green, LedOp::Off),
                        Action::Light(Led::Yellow, LedOp::On),
                    ])
                } else {
                    let e = (v.run_elapsed_ms + CONTROL_PERIOD_MS) as u32;
                    (CtlView { calibrator: Some(c2), run_elapsed_ms: e, ..v },
                     seq![Action::Calibration(t)] + blink((e / 150) % 2 == 0, Led::Green))
                }
            },
        }
    }
}

pub open spec fn next_spoolup(v: CtlView, cmd: Option<Command>) -> (CtlView, Seq<Action>) {
    let p = plan_of(v);
    let e = (v.run_elapsed_ms + CONTROL_PERIOD_MS) as u32;
    let v1 = CtlView { run_elapsed_ms: e, ..v };
    if is_stop(cmd) {
        (into_ramp_down(v1), seq![Action::RampDownFromDemand])
    } else {
        let a1 = live(cmd);
        let lights = blink((e / 100) % 2 == 0, Led::Green);
        match v1.ramp {
            Some(r) => {
                let r2 = ticked(r, CONTROL_PERIOD_MS);
                let s = sample_of(r2);
                let d = if p.mode == RunMode::ClosedLoop || p.mode == RunMode::Generate {
                    Action::DemandTrackRamp(s)
                } else {
                    Action::DemandFromRamp(s)
                };
                let v2 = if r2.done {
                    CtlView { ramp: None, state: if p.mode == RunMode::Generate { STATE::EXCITE } else { v1.state }, ..v1 }
                } else {
                    CtlView { ramp: Some(r2), ..v1 }
                };
                (v2, a1.push(d) + lights)
            },
            None => {
                let a2 = a1 + (if p.mode == RunMode::ClosedLoop { seq![Action::DemandHoldSpeed] } else { seq![] });
                if p.hold_ms > 0 && e >= p.ramp_up_ms + p.hold_ms {
                    (into_ramp_down(v1), a2.push(Action::RampDownFromDemand) + lights)
                } else {
                    (v1, a2 + lights)
                }
            },
        }
    }
}

pub open spec fn next_excite(v: CtlView, cmd: Option<Command>) -> (CtlView, Seq<Action>) {
    if is_stop(cmd) {
        (into_ramp_down(v), seq![Action::RampDownFromDemand])
    } else {
        let e = (v.run_elapsed_ms + CONTROL_PERIOD_MS) as u32;
        (CtlView { run_elapsed_ms: e, state: if e > plan_of(v).ramp_up_ms + 3000 { STATE::PLL_LOCK } else { v.state }, ..v },
         seq![Action::Light(Led::Yellow, LedOp::Toggle)])
    }
}

/// Yellow blink while locking: the blink period shortens as the lock approaches.
pub open spec fn pll_yellow_on(in_pll: u32) -> bool {
    let slow: u32 = if in_pll / 100 >= 50 { 0 } else { (50 - in_pll / 100) as u32 };
    let rate: u32 = if slow < 5 { 5 } else { slow };
    (in_pll / 10) % rate < rate / 2
}

pub open spec fn next_pll(v: CtlView, cmd: Option<Command>) -> (CtlView, Seq<Action>) {
    if is_stop(cmd) {
        (into_ramp_down(v), seq![Action::RampDownFromDemand])
    } else {
        let p = plan_of(v);
        let e = (v.run_elapsed_ms + CONTROL_PERIOD_MS) as u32;
        let ready = e > p.ramp_up_ms + 5000;
        let in_pll = (e - p.ramp_up_ms - 3000) as u32;
        let yellow = if pll_yellow_on(in_pll) { LedOp::On } else { LedOp::Off };
        (CtlView { run_elapsed_ms: e, state: if ready { STATE::READY } else { v.state }, ..v },
         (if ready { seq![Action::Light(Led::Green, LedOp::On)] } else { seq![] }) + seq![Action::Light(Led::Yellow, yellow)])
    }
}

pub open spec fn next_ready(v: CtlView, cmd: Option<Command>) -> (CtlView, Seq<Action>) {
    if is_stop(cmd) {
        (into_ramp_down(v), seq![Action::RampDownFromDemand])
    } else {
        (CtlView { state: if cmd == Some(Command::Start) { STATE::GENERATE } else { v.state }, ..v },
         seq![Action::DemandHoldSpeed] + live(cmd) + seq![Action::Light(Led::Green, LedOp::On), Action::Light(Led::Yellow, LedOp::Off)])
    }
}

pub open spec fn next_generate(v: CtlView, cmd: Option<Command>) -> (CtlView, Seq<Action>) {
    if is_stop(cmd) {
        (into_ramp_down(v), seq![Action::RampDownFromDemand])
    } else {
        (v, seq![Action::DemandHoldSpeed] + live(cmd) + seq![Action::Light(Led::Green, LedOp::On)])
    }
}

pub open spec fn next_load_rejection(v: CtlView, cmd: Option<Command>, recovered: bool) -> (CtlView, Seq<Action>) {
    if is_stop(cmd) {
        (into_ramp_down(v), seq![Action::RampDownFromDemand])
    } else {
        (CtlView { state: if recovered { STATE::GENERATE } else { v.state }, ..v },
         seq![Action::DemandHoldSpeed, Action::Light(Led::Green, LedOp::Toggle), Action::Light(Led::Yellow, LedOp::Toggle)])
    }
}

pub open spec fn next_manual(v: CtlView, cmd: Option<Command>) -> (CtlView, Seq<Action>) {
    let (v1, a1) = match cmd {
        Some(Command::LiveAdjust(LiveParam::Duty)) => (v, seq![Action::ApplyLive(LiveParam::Duty)]),
        Some(Command::LiveAdjust(LiveParam::MaxDutyClamp)) => (v, seq![Action::ApplyLive(LiveParam::MaxDutyClamp)]),
        Some(Command::LiveAdjust(LiveParam::TargetRpm)) => (v, seq![Action::ApplyLive(LiveParam::TargetRpm)]),
        Some(Command::Stop) => (into_ramp_down(v), seq![Action::RampDownFromDemand]),
        _ => (v, seq![]),
    };
    let t = v1.manual_tick.wrapping_add(1);
    (CtlView { manual_tick: t, ..v1 }, a1 + blink(t % 25 == 0, Led::Green))
}

pub open spec fn next_ramp_down(v: CtlView) -> (CtlView, Seq<Action>) {
    let (v1, a1) = match v.ramp {
        Some(r) => {
            let r2 = ticked(r, CONTROL_PERIOD_MS);
            let a = seq![Action::DemandFromRamp(sample_of(r2))];
            if r2.done {
                (CtlView { ramp: None, run_elapsed_ms: 0, state: STATE::IDLE, ..v },
                 a + seq![
                    Action::MotorDisable,
                    Action::Relay(false),
                    Action::Light(Led::Green, LedOp::Off),
                    Action::Light(Led::Yellow, LedOp::On),
                ])
            } else {
                (CtlView { ramp: Some(r2), ..v }, a)
            }
        },
        None => (CtlView { state: STATE::IDLE, ..v }, seq![Action::MotorDisable, Action::Relay(false)]),
    };
    (v1, a1 + blink((v1.run_elapsed_ms / 100) % 2 == 0, Led::Green))
}

pub open spec fn clears(cmd: Option<Command>) -> bool {
    cmd == Some(Command::ClearFaults) || cmd == Some(Command::Stop)
}

pub open spec fn next_fault(v: CtlView, cmd: Option<Command>) -> (CtlView, Seq<Action>) {
    let a = seq![
        Action::MotorEmergencyOff,
        Action::Relay(false),
        Action::Light(Led::Red, LedOp::On),
        Action::Light(Led::Green, LedOp::Off),
    ];
    if clears(cmd) {
        (CtlView { last_fault: None, state: STATE::IDLE, ..v }, a.push(Action::Light(Led::Red, LedOp::Off)))
    } else {
        (v, a)
    }
}

pub open spec fn next_estop(v: CtlView, cmd: Option<Command>) -> (CtlView, Seq<Action>) {
    let t = v.estop_tick.wrapping_add(1);
    let a = seq![Action::MotorEmergencyOff, Action::Relay(false)] + (if t % 25 == 0 {
        seq![Action::Light(Led::Red, LedOp::Toggle), Action::Light(Led::Yellow, LedOp::Toggle)]
    } else {
        seq![]
    });
    if clears(cmd) {
        (CtlView { estop_tick: t, state: STATE::IDLE, ..v }, a + seq![Action::Light(Led::Red, LedOp::Off), Action::Light(Led::Yellow, LedOp::Off)])
    } else {
        (CtlView { estop_tick: t, ..v }, a)
    }
}

/// One control tick: the next state and the ordered actions, given the popped command,
/// whether a handshake acknowledgement was drained from the rest of the queue (in BOOT
/// an acknowledgement popped as the command counts as well), and
/// whether the speed error is back within 2 % of target (used in LOAD_REJECTION).
pub open spec fn ctl_next(v: CtlView, cmd: Option<Command>, acked: bool, recovered: bool) -> (CtlView, Seq<Action>) {
    if cmd == Some(Command::EmergencyStop) {
        (CtlView { state: STATE::ESTOP, ramp: None, run_elapsed_ms: 0, ..v },
         seq![
            Action::MotorEmergencyOff,
            Action::Relay(false),
            Action::PidReset,
            Action::Light(Led::Green, LedOp::Off),
            Action::Light(Led::Yellow, LedOp::Off),
            Action::Light(Led::Red, LedOp::On),
        ])
    } else if cmd == Some(Command::Hello) {
        (v, seq![Action::SendHelloAck])
    } else {
        match v.state {
            STATE::BOOT => next_boot(v, acked || cmd == Some(Command::HelloAck)),
            STATE::IDLE => next_idle(v, cmd),
            STATE::CONFIGURED => next_configured(v, cmd),
            STATE::CALIBRATE => next_calibrate(v, cmd),
            STATE::SPOOLUP => next_spoolup(v, cmd),
            STATE::EXCITE => next_excite(v, cmd),
            STATE::PLL_LOCK => next_pll(v, cmd),
            STATE::READY => next_ready(v, cmd),
            STATE::GENERATE => next_generate(v, cmd),
            STATE::LOAD_REJECTION => next_load_rejection(v, cmd, recovered),
            STATE::MANUAL => next_manual(v, cmd),
            STATE::RAMP_DOWN => next_ramp_down(v),
            STATE::FAULT => next_fault(v, cmd),
            STATE::ESTOP => next_estop(v, cmd),
        }
    }
}

/// The tick's counters and sums stay within 32 bits on the branch it takes.
pub open spec fn ctl_fits(v: CtlView, cmd: Option<Command>) -> bool {
    let p = plan_of(v);
    if cmd == Some(Command::EmergencyStop) || cmd == Some(Command::Hello) {
        true
    } else {
        match v.state {
                        STATE::CALIBRATE => is_stop(cmd) || match v.calibrator {
                None => true,
                Some(c) => cal_step_fits(c, CONTROL_PERIOD_MS) && (cal_done(cal_next(c, CONTROL_PERIOD_MS).1) || v.run_elapsed_ms + CONTROL_PERIOD_MS <= u32::MAX),
            },
            STATE::SPOOLUP => v.run_elapsed_ms + CONTROL_PERIOD_MS <= u32::MAX && (is_stop(cmd) || match v.ramp {
                Some(r) => tick_fits(r, CONTROL_PERIOD_MS),
                None => p.hold_ms > 0 ==> p.ramp_up_ms + p.hold_ms <= u32::MAX,
            }),
            STATE::EXCITE => is_stop(cmd) || (v.run_elapsed_ms + CONTROL_PERIOD_MS <= u32::MAX && p.ramp_up_ms + 3000 <= u32::MAX),
            STATE::PLL_LOCK => is_stop(cmd) || (v.run_elapsed_ms + CONTROL_PERIOD_MS <= u32::MAX && p.ramp_up_ms + 5000 <= u32::MAX),
            STATE::RAMP_DOWN => match v.ramp {
                Some(r) => tick_fits(r, CONTROL_PERIOD_MS),
                None => true,
            },
            _ => true,
        }
    }
}

/// Controller invariant.
pub open spec fn ctl_wf(v: CtlView) -> bool {
    &&& v.boot_hello_attempts <= BOOT_HELLO_RETRIES
    &&& (v.ramp matches Some(r) ==> ramp_wf(r))
    &&& (v.calibrator matches Some(c) ==> cal_wf(c))
    &&& v.state == STATE::PLL_LOCK ==> v.run_elapsed_ms > plan_of(v).ramp_up_ms + 3000
}

/// The speed sensor's verdict turned into a trip: an implausible reading (not finite,
/// or beyond the plausible window) is a sensor fault, else a reading above the
/// overspeed limit is an overspeed.
pub open spec fn trip_of(implausible: bool, over_limit: bool) -> Option<Fault> {
    if implausible {
        Some(Fault::SensorOutOfRange)
    } else if over_limit {
        Some(Fault::Overspeed)
    } else {
        None
    }
}

/// Supervisor tick: on a trip, actuators off every time; the fault is recorded and
/// the state moved to FAULT only on the edge (not when already FAULT or ESTOP).
pub open spec fn supervise_next(v: CtlView, trip: Option<Fault>) -> (CtlView, Seq<Action>) {
    match trip {
        None => (v, seq![]),
        Some(f) => if v.state == STATE::FAULT || v.state == STATE::ESTOP {
            (v, seq![Action::MotorEmergencyOff, Action::Relay(false)])
        } else {
            (CtlView { last_fault: Some(f), state: STATE::FAULT, ..v },
             seq![Action::MotorEmergencyOff, Action::Relay(false), Action::Light(Led::Red, LedOp::On)])
        },
    }
}

pub fn classify_trip(implausible: bool, over_limit: bool) -> (r: Option<Fault>)
    ensures
        r == trip_of(implausible, over_limit),
{
    if implausible {
        Some(Fault::SensorOutOfRange)
    } else if over_limit {
        Some(Fault::Overspeed)
    } else {
        None
    }
}

impl Controller {
    /// Power-on state: BOOT, nothing configured, nothing pending.
    pub fn new() -> (r: Controller)
        ensures
            ctl_wf(r@),
            r@ == (CtlView {
                state: STATE::BOOT,
                plan: None,
                last_fault: None,
                ramp: None,
                calibrator: None,
                run_elapsed_ms: 0,
                boot_hello_attempts: 0,
                safety_init_done: false,
                idle_tick: 0,
                manual_tick: 0,
                estop_tick: 0,
            }),
    {
        Controller {
            state: STATE::BOOT,
            plan: None,
            last_fault: None,
            ramp: None,
            calibrator: None,
            run_elapsed_ms: 0,
            boot_hello_attempts: 0,
            safety_init_done: false,
            idle_tick: 0,
            manual_tick: 0,
            estop_tick: 0,
        }
    }

    pub fn state(&self) -> (r: STATE)
        ensures
            r == self@.state,
    {
        self.state
    }

    pub fn last_fault(&self) -> (r: Option<Fault>)
        ensures
            r == self@.last_fault,
    {
        self.last_fault
    }

    pub fn plan(&self) -> (r: Option<RunPlan>)
        ensures
            r == self@.plan,
    {
        self.plan
    }

    /// Time since the run (or calibration) started, in ms.
    pub fn run_elapsed_ms(&self) -> (r: u32)
        ensures
            r == self@.run_elapsed_ms,
    {
        self.run_elapsed_ms
    }

    /// Does a tick with `cmd` keep every counter within 32 bits?
    pub fn tick_fits(&self, cmd: Option<Command>) -> (r: bool)
        requires
            ctl_wf(self@),
        ensures
            r == ctl_fits(self@, cmd),
    {
        let p = self.plan_or_default();
        let stop = matches!(cmd, Some(Command::Stop));
        if matches!(cmd, Some(Command::EmergencyStop)) || matches!(cmd, Some(Command::Hello)) {
            return true;
        }
        match self.state {
            STATE::CALIBRATE => stop || match self.calibrator {
                None => true,
                Some(c) => {
                    let mut c2 = c;
                    if !c2.step_fits(CONTROL_PERIOD_MS) {
                        false
                    } else {
                        let t = c2.step(CONTROL_PERIOD_MS);
                        let done = matches!(t, CalTick::Finished) || matches!(t, CalTick::Sample { complete: true, .. });
                        done || self.run_elapsed_ms <= u32::MAX - CONTROL_PERIOD_MS
                    }
                },
            },
            STATE::SPOOLUP => self.run_elapsed_ms <= u32::MAX - CONTROL_PERIOD_MS && (stop || match self.ramp {
                Some(r) => r.is_done() || r.elapsed_within(CONTROL_PERIOD_MS),
                None => p.hold_ms == 0 || p.ramp_up_ms <= u32::MAX - p.hold_ms,
            }),
            STATE::EXCITE => stop || (self.run_elapsed_ms <= u32::MAX - CONTROL_PERIOD_MS && p.ramp_up_ms <= u32::MAX - 3000),
            STATE::PLL_LOCK => stop || (self.run_elapsed_ms <= u32::MAX - CONTROL_PERIOD_MS && p.ramp_up_ms <= u32::MAX - 5000),
            STATE::RAMP_DOWN => match self.ramp {
                Some(r) => r.is_done() || r.elapsed_within(CONTROL_PERIOD_MS),
                None => true,
            },
            _ => true,
        }
    }

    fn plan_or_default(&self) -> (r: RunPlan)
        ensures
            r == plan_of(self@),
    {
        match self.plan {
            Some(p) => p,
            None => default_plan(),
        }
    }

    fn enter_ramp_down(&mut self)
        ensures
            final(self)@ == into_ramp_down(old(self)@),
    {
        let p = self.plan_or_default();
        self.ramp = Some(Ramp::new(p.ramp_down_ms));
        self.state = STATE::RAMP_DOWN;
    }

    fn step_boot(&mut self, acked: bool) -> (acts: Vec<Action>)
        requires
            ctl_wf(old(self)@),
        ensures
            (final(self)@, acts@) == next_boot(old(self)@, acked),
    {
        let mut acts: Vec<Action> = Vec::new();
        if !self.safety_init_done {
            acts.push(Action::MotorEmergencyOff);
            acts.push(Action::Relay(false));
            acts.push(Action::ListenRx);
            self.safety_init_done = true;
        }
        acts.push(Action::SendHello);
        if acked || self.boot_hello_attempts >= BOOT_HELLO_RETRIES {
            self.boot_hello_attempts = 0;
            acts.push(Action::Light(Led::Red, LedOp::Off));
            acts.push(Action::Light(Led::Yellow, LedOp::On));
            self.state = STATE::IDLE;
        } else {
            self.boot_hello_attempts = self.boot_hello_attempts + 1;
            acts.push(Action::Light(Led::Red, LedOp::Toggle));
        }
        assert(acts@ =~= next_boot(old(self)@, acked).1);
        acts
    }

    fn step_idle(&mut self, cmd: Option<Command>) -> (acts: Vec<Action>)
        requires
            ctl_fits(old(self)@, cmd),
            old(self)@.state == STATE::IDLE,
            cmd != Some(Command::EmergencyStop),
            cmd != Some(Command::Hello),
        ensures
            (final(self)@, acts@) == next_idle(old(self)@, cmd),
    {
        let mut acts: Vec<Action> = Vec::new();
        acts.push(Action::MotorDisable);
        match cmd {
            Some(Command::Configure(p)) => {
                acts.push(Action::MotorClampFromCommand);
                acts.push(Action::StoreConfigFromCommand);
                self.plan = Some(p);
                self.last_fault = None;
                self.state = STATE::CONFIGURED;
                acts.push(Action::Light(Led::Yellow, LedOp::Off));
                acts.push(Action::Light(Led::Green, LedOp::On));
            },
            Some(Command::ClearFaults) => {
                self.last_fault = None;
            },
            _ => {
                self.idle_tick = self.idle_tick.wrapping_add(1);
                if self.idle_tick % 50 == 0 {
                    acts.push(Action::Light(Led::Yellow, LedOp::Toggle));
                }
            },
        }
        assert(acts@ =~= next_idle(old(self)@, cmd).1);
        acts
    }

    fn step_configured(&mut self, cmd: Option<Command>) -> (acts: Vec<Action>)
        requires
            old(self)@.state == STATE::CONFIGURED,
        ensures
            (final(self)@, acts@) == next_configured(old(self)@, cmd),
    {
        let mut acts: Vec<Action> = Vec::new();
        match cmd {
            Some(Command::Start) => {
                let p = self.plan_or_default();
                acts.push(Action::Relay(true));
                acts.push(Action::MotorEnable);
                acts.push(Action::PidReset);
                self.run_elapsed_ms = 0;
                if matches!(p.mode, RunMode::Calibrate) {
                    self.calibrator = Some(Calibrator::new());
                }
                if !matches!(p.mode, RunMode::Manual) {
                    self.ramp = Some(Ramp::new(p.ramp_up_ms));
                    acts.push(Action::RampUpStart);
                } else {
                    self.ramp = None;
                }
                if matches!(p.mode, RunMode::ClosedLoop) || matches!(p.mode, RunMode::Generate) {
                    acts.push(Action::PidGainsFromConfig);
                }
                self.state = match p.mode {
                    RunMode::Calibrate => STATE::CALIBRATE,
                    RunMode::Manual => STATE::MANUAL,
                    _ => STATE::SPOOLUP,
                };
            },
            Some(Command::Configure(p)) => {
                acts.push(Action::MotorClampFromCommand);
                acts.push(Action::StoreConfigFromCommand);
                self.plan = Some(p);
            },
            Some(Command::Stop) => {
                acts.push(Action::ClearConfig);
                self.plan = None;
                self.state = STATE::IDLE;
                acts.push(Action::Light(Led::Green, LedOp::Off));
                acts.push(Action::Light(Led::Yellow, LedOp::On));
            },
            _ => {
                acts.push(Action::Light(Led::Green, LedOp::On));
            },
        }
        assert(acts@ =~= next_configured(old(self)@, cmd).1);
        acts
    }

    fn step_calibrate(&mut self, cmd: Option<Command>) -> (acts: Vec<Action>)
        requires
            ctl_wf(old(self)@),
            ctl_fits(old(self)@, cmd),
            old(self)@.state == STATE::CALIBRATE,
            cmd != Some(Command::EmergencyStop),
            cmd != Some(Command::Hello),
        ensures
            (final(self)@, acts@) == next_calibrate(old(self)@, cmd),
    {
        let mut acts: Vec<Action> = Vec::new();
        if matches!(cmd, Some(Command::Stop)) {
            acts.push(Action::RampDownFromDemand);
            self.enter_ramp_down();
            self.calibrator = None;
            assert(acts@ =~= next_calibrate(old(self)@, cmd).1);
            return acts;
        }
        match self.calibrator {
            None => {
                self.state = STATE::IDLE;
            },
            Some(c) => {
                let mut cal = c;
                let t = cal.step(CONTROL_PERIOD_MS);
                acts.push(Action::Calibration(t));
                let done = matches!(t, CalTick::Finished) || matches!(t, CalTick::Sample { complete: true, .. });
                if done {
                    acts.push(Action::MotorDisable);
                    acts.push(Action::Relay(false));
                    self.calibrator = None;
                    self.run_elapsed_ms = 0;
                    self.state = STATE::IDLE;
                    acts.push(Action::Light(Led::Green, LedOp::Off));
                    acts.push(Action::Light(Led::Yellow, LedOp::On));
                } else {
                    self.calibrator = Some(cal);
                    self.run_elapsed_ms = self.run_elapsed_ms + CONTROL_PERIOD_MS;
                    if (self.run_elapsed_ms / 150) % 2 == 0 {
                        acts.push(Action::Light(Led::Green, LedOp::Toggle));
                    }
                }
            },
        }
        assert(acts@ =~= next_calibrate(old(self)@, cmd).1);
        acts
    }

    fn step_spoolup(&mut self, cmd: Option<Command>) -> (acts: Vec<Action>)
        requires
            ctl_wf(old(self)@),
            ctl_fits(old(self)@, cmd),
            old(self)@.state == STATE::SPOOLUP,
            cmd != Some(Command::EmergencyStop),
            cmd != Some(Command::Hello),
        ensures
            (final(self)@, acts@) == next_spoolup(old(self)@, cmd),
    {
        let mut acts: Vec<Action> = Vec::new();
        let p = self.plan_or_default();
        self.run_elapsed_ms = self.run_elapsed_ms + CONTROL_PERIOD_MS;
        if matches!(cmd, Some(Command::Stop)) {
            acts.push(Action::RampDownFromDemand);
            self.enter_ramp_down();
            assert(acts@ =~= next_spoolup(old(self)@, cmd).1);
            return acts;
        }
        if let Some(Command::LiveAdjust(lp)) = cmd {
            acts.push(Action::ApplyLive(lp));
        }
        match self.ramp {
            Some(r0) => {
                let mut r = r0;
                let s = r.tick(CONTROL_PERIOD_MS);
                if matches!(p.mode, RunMode::ClosedLoop) || matches!(p.mode, RunMode::Generate) {
                    acts.push(Action::DemandTrackRamp(s));
                } else {
                    acts.push(Action::DemandFromRamp(s));
                }
                if r.is_done() {
                    self.ramp = None;
                    if matches!(p.mode, RunMode::Generate) {
                        self.state = STATE::EXCITE;
                    }
                } else {
                    self.ramp = Some(r);
                }
            },
            None => {
                if matches!(p.mode, RunMode::ClosedLoop) {
                    acts.push(Action::DemandHoldSpeed);
                }
                if p.hold_ms > 0 && self.run_elapsed_ms >= p.ramp_up_ms + p.hold_ms {
                    acts.push(Action::RampDownFromDemand);
                    self.enter_ramp_down();
                }
            },
        }
        if (self.run_elapsed_ms / 100) % 2 == 0 {
            acts.push(Action::Light(Led::Green, LedOp::Toggle));
        }
        assert(acts@ =~= next_spoolup(old(self)@, cmd).1);
        acts
    }

    fn step_excite(&mut self, cmd: Option<Command>) -> (acts: Vec<Action>)
        requires
            ctl_fits(old(self)@, cmd),
            old(self)@.state == STATE::EXCITE,
            cmd != Some(Command::EmergencyStop),
            cmd != Some(Command::Hello),
        ensures
            (final(self)@, acts@) == next_excite(old(self)@, cmd),
    {
        let mut acts: Vec<Action> = Vec::new();
        if matches!(cmd, Some(Command::Stop)) {
            acts.push(Action::RampDownFromDemand);
            self.enter_ramp_down();
            assert(acts@ =~= next_excite(old(self)@, cmd).1);
            return acts;
        }
        let p = self.plan_or_default();
        self.run_elapsed_ms = self.run_elapsed_ms + CONTROL_PERIOD_MS;
        if self.run_elapsed_ms > p.ramp_up_ms + 3000 {
            self.state = STATE::PLL_LOCK;
        }
        acts.push(Action::Light(Led::Yellow, LedOp::Toggle));
        assert(acts@ =~= next_excite(old(self)@, cmd).1);
        acts
    }

    fn step_pll(&mut self, cmd: Option<Command>) -> (acts: Vec<Action>)
        requires
            ctl_wf(old(self)@),
            ctl_fits(old(self)@, cmd),
            old(self)@.state == STATE::PLL_LOCK,
            cmd != Some(Command::EmergencyStop),
            cmd != Some(Command::Hello),
        ensures
            (final(self)@, acts@) == next_pll(old(self)@, cmd),
    {
        let mut acts: Vec<Action> = Vec::new();
        if matches!(cmd, Some(Command::Stop)) {
            acts.push(Action::RampDownFromDemand);
            self.enter_ramp_down();
            assert(acts@ =~= next_pll(old(self)@, cmd).1);
            return acts;
        }
        let p = self.plan_or_default();
        self.run_elapsed_ms = self.run_elapsed_ms + CONTROL_PERIOD_MS;
        if self.run_elapsed_ms > p.ramp_up_ms + 5000 {
            self.state = STATE::READY;
            acts.push(Action::Light(Led::Green, LedOp::On));
        }
        let in_pll = self.run_elapsed_ms - p.ramp_up_ms - 3000;
        let slow: u32 = if in_pll / 100 >= 50 { 0 } else { 50 - in_pll / 100 };
        let rate: u32 = if slow < 5 { 5 } else { slow };
        if (in_pll / 10) % rate < rate / 2 {
            acts.push(Action::Light(Led::Yellow, LedOp::On));
        } else {
            acts.push(Action::Light(Led::Yellow, LedOp::Off));
        }
        assert(acts@ =~= next_pll(old(self)@, cmd).1);
        acts
    }

    fn step_ready(&mut self, cmd: Option<Command>) -> (acts: Vec<Action>)
        requires
            old(self)@.state == STATE::READY,
        ensures
            (final(self)@, acts@) == next_ready(old(self)@, cmd),
    {
        let mut acts: Vec<Action> = Vec::new();
        if matches!(cmd, Some(Command::Stop)) {
            acts.push(Action::RampDownFromDemand);
            self.enter_ramp_down();
            assert(acts@ =~= next_ready(old(self)@, cmd).1);
            return acts;
        }
        acts.push(Action::DemandHoldSpeed);
        if let Some(Command::LiveAdjust(lp)) = cmd {
            acts.push(Action::ApplyLive(lp));
        }
        if matches!(cmd, Some(Command::Start)) {
            self.state = STATE::GENERATE;
        }
        acts.push(Action::Light(Led::Green, LedOp::On));
        acts.push(Action::Light(Led::Yellow, LedOp::Off));
        assert(acts@ =~= next_ready(old(self)@, cmd).1);
        acts
    }

    fn step_generate(&mut self, cmd: Option<Command>) -> (acts: Vec<Action>)
        requires
            old(self)@.state == STATE::GENERATE,
        ensures
            (final(self)@, acts@) == next_generate(old(self)@, cmd),
    {
        let mut acts: Vec<Action> = Vec::new();
        if matches!(cmd, Some(Command::Stop)) {
            acts.push(Action::RampDownFromDemand);
            self.enter_ramp_down();
            assert(acts@ =~= next_generate(old(self)@, cmd).1);
            return acts;
        }
        acts.push(Action::DemandHoldSpeed);
        if let Some(Command::LiveAdjust(lp)) = cmd {
            acts.push(Action::ApplyLive(lp));
        }
        acts.push(Action::Light(Led::Green, LedOp::On));
        assert(acts@ =~= next_generate(old(self)@, cmd).1);
        acts
    }

    fn step_load_rejection(&mut self, cmd: Option<Command>, recovered: bool) -> (acts: Vec<Action>)
        requires
            old(self)@.state == STATE::LOAD_REJECTION,
        ensures
            (final(self)@, acts@) == next_load_rejection(old(self)@, cmd, recovered),
    {
        let mut acts: Vec<Action> = Vec::new();
        if matches!(cmd, Some(Command::Stop)) {
            acts.push(Action::RampDownFromDemand);
            self.enter_ramp_down();
            assert(acts@ =~= next_load_rejection(old(self)@, cmd, recovered).1);
            return acts;
        }
        acts.push(Action::DemandHoldSpeed);
        if recovered {
            self.state = STATE::GENERATE;
        }
        acts.push(Action::Light(Led::Green, LedOp::Toggle));
        acts.push(Action::Light(Led::Yellow, LedOp::Toggle));
        assert(acts@ =~= next_load_rejection(old(self)@, cmd, recovered).1);
        acts
    }

    fn step_manual(&mut self, cmd: Option<Command>) -> (acts: Vec<Action>)
        requires
            ctl_fits(old(self)@, cmd),
            old(self)@.state == STATE::MANUAL,
            cmd != Some(Command::EmergencyStop),
            cmd != Some(Command::Hello),
        ensures
            (final(self)@, acts@) == next_manual(old(self)@, cmd),
    {
        let mut acts: Vec<Action> = Vec::new();
        match cmd {
            Some(Command::LiveAdjust(LiveParam::Duty)) => {
                acts.push(Action::ApplyLive(LiveParam::Duty));
            },
            Some(Command::LiveAdjust(LiveParam::MaxDutyClamp)) => {
                acts.push(Action::ApplyLive(LiveParam::MaxDutyClamp));
            },
            Some(Command::LiveAdjust(LiveParam::TargetRpm)) => {
                acts.push(Action::ApplyLive(LiveParam::TargetRpm));
            },
            Some(Command::Stop) => {
                acts.push(Action::RampDownFromDemand);
                self.enter_ramp_down();
            },
            _ => {},
        }
        self.manual_tick = self.manual_tick.wrapping_add(1);
        if self.manual_tick % 25 == 0 {
            acts.push(Action::Light(Led::Green, LedOp::Toggle));
        }
        assert(acts@ =~= next_manual(old(self)@, cmd).1);
        acts
    }

    fn step_ramp_down(&mut self) -> (acts: Vec<Action>)
        requires
            ctl_wf(old(self)@),
            ctl_fits(old(self)@, None),
            old(self)@.state == STATE::RAMP_DOWN,
        ensures
            (final(self)@, acts@) == next_ramp_down(old(self)@),
    {
        let mut acts: Vec<Action> = Vec::new();
        match self.ramp {
            Some(r0) => {
                let mut r = r0;
                let s = r.tick(CONTROL_PERIOD_MS);
                acts.push(Action::DemandFromRamp(s));
                if r.is_done() {
                    acts.push(Action::MotorDisable);
                    acts.push(Action::Relay(false));
                    self.ramp = None;
                    self.run_elapsed_ms = 0;
                    self.state = STATE::IDLE;
                    acts.push(Action::Light(Led::Green, LedOp::Off));
                    acts.push(Action::Light(Led::Yellow, LedOp::On));
                } else {
                    self.ramp = Some(r);
                }
            },
            None => {
                acts.push(Action::MotorDisable);
                acts.push(Action::Relay(false));
                self.state = STATE::IDLE;
            },
        }
        if (self.run_elapsed_ms / 100) % 2 == 0 {
            acts.push(Action::Light(Led::Green, LedOp::Toggle));
        }
        assert(acts@ =~= next_ramp_down(old(self)@).1);
        acts
    }

    fn step_fault(&mut self, cmd: Option<Command>) -> (acts: Vec<Action>)
        requires
            old(self)@.state == STATE::FAULT,
        ensures
            (final(self)@, acts@) == next_fault(old(self)@, cmd),
    {
        let mut acts: Vec<Action> = Vec::new();
        acts.push(Action::MotorEmergencyOff);
        acts.push(Action::Relay(false));
        acts.push(Action::Light(Led::Red, LedOp::On));
        acts.push(Action::Light(Led::Green, LedOp::Off));
        if matches!(cmd, Some(Command::ClearFaults)) || matches!(cmd, Some(Command::Stop)) {
            self.last_fault = None;
            self.state = STATE::IDLE;
            acts.push(Action::Light(Led::Red, LedOp::Off));
        }
        assert(acts@ =~= next_fault(old(self)@, cmd).1);
        acts
    }

    fn step_estop(&mut self, cmd: Option<Command>) -> (acts: Vec<Action>)
        requires
            ctl_fits(old(self)@, cmd),
            old(self)@.state == STATE::ESTOP,
            cmd != Some(Command::EmergencyStop),
            cmd != Some(Command::Hello),
        ensures
            (final(self)@, acts@) == next_estop(old(self)@, cmd),
    {
        let mut acts: Vec<Action> = Vec::new();
        acts.push(Action::MotorEmergencyOff);
        acts.push(Action::Relay(false));
        self.estop_tick = self.estop_tick.wrapping_add(1);
        if self.estop_tick % 25 == 0 {
            acts.push(Action::Light(Led::Red, LedOp::Toggle));
            acts.push(Action::Light(Led::Yellow, LedOp::Toggle));
        }
        if matches!(cmd, Some(Command::ClearFaults)) || matches!(cmd, Some(Command::Stop)) {
            self.state = STATE::IDLE;
            acts.push(Action::Light(Led::Red, LedOp::Off));
            acts.push(Action::Light(Led::Yellow, LedOp::Off));
        }
        assert(acts@ =~= next_estop(old(self)@, cmd).1);
        acts
    }

    /// One control tick with the command popped from the queue. `hello_acked`: a
    /// handshake acknowledgement was drained from the rest of the queue (looked at in
    /// BOOT, where a popped acknowledgement counts as well).
    /// `load_recovered`: the speed error is within 2 % of target (looked at in
    /// LOAD_REJECTION). Returns the actions to perform, in order.
    pub fn step(&mut self, cmd: Option<Command>, hello_acked: bool, load_recovered: bool) -> (acts: Vec<Action>)
        requires
            ctl_wf(old(self)@),
            ctl_fits(old(self)@, cmd),
        ensures
            ctl_wf(final(self)@),
            (final(self)@, acts@) == ctl_next(old(self)@, cmd, hello_acked, load_recovered),
    {
        if matches!(cmd, Some(Command::EmergencyStop)) {
            let mut acts: Vec<Action> = Vec::new();
            acts.push(Action::MotorEmergencyOff);
            acts.push(Action::Relay(false));
            self.state = STATE::ESTOP;
            acts.push(Action::PidReset);
            self.ramp = None;
            self.run_elapsed_ms = 0;
            acts.push(Action::Light(Led::Green, LedOp::Off));
            acts.push(Action::Light(Led::Yellow, LedOp::Off));
            acts.push(Action::Light(Led::Red, LedOp::On));
            assert(acts@ =~= ctl_next(old(self)@, cmd, hello_acked, load_recovered).1);
            return acts;
        }
        if matches!(cmd, Some(Command::Hello)) {
            let mut acts: Vec<Action> = Vec::new();
            acts.push(Action::SendHelloAck);
            assert(acts@ =~= ctl_next(old(self)@, cmd, hello_acked, load_recovered).1);
            return acts;
        }
        let acts = match self.state {
            STATE::BOOT => self.step_boot(hello_acked || matches!(cmd, Some(Command::HelloAck))),
            STATE::IDLE => self.step_idle(cmd),
            STATE::CONFIGURED => self.step_configured(cmd),
            STATE::CALIBRATE => self.step_calibrate(cmd),
            STATE::SPOOLUP => self.step_spoolup(cmd),
            STATE::EXCITE => self.step_excite(cmd),
            STATE::PLL_LOCK => self.step_pll(cmd),
            STATE::READY => self.step_ready(cmd),
            STATE::GENERATE => self.step_generate(cmd),
            STATE::LOAD_REJECTION => self.step_load_rejection(cmd, load_recovered),
            STATE::MANUAL => self.step_manual(cmd),
            STATE::RAMP_DOWN => self.step_ramp_down(),
            STATE::FAULT => self.step_fault(cmd),
            STATE::ESTOP => self.step_estop(cmd),
        };
        proof {
            lemma_step_keeps_wf(old(self)@, cmd, hello_acked, load_recovered);
        }
        acts
    }

    /// Safety supervisor tick with the trip (if any) derived from the speed reading.
    pub fn supervise(&mut self, trip: Option<Fault>) -> (acts: Vec<Action>)
        requires
            ctl_wf(old(self)@),
        ensures
            ctl_wf(final(self)@),
            (final(self)@, acts@) == supervise_next(old(self)@, trip),
    {
        let mut acts: Vec<Action> = Vec::new();
        if let Some(f) = trip {
            acts.push(Action::MotorEmergencyOff);
            acts.push(Action::Relay(false));
            let already_faulted = matches!(self.state, STATE::FAULT) || matches!(self.state, STATE::ESTOP);
            if !already_faulted {
                self.last_fault = Some(f);
                self.state = STATE::FAULT;
                acts.push(Action::Light(Led::Red, LedOp::On));
            }
        }
        assert(acts@ =~= supervise_next(old(self)@, trip).1);
        acts
    }
}

// ── laws ──

/// Every tick keeps the controller invariant.
pub proof fn lemma_step_keeps_wf(v: CtlView, cmd: Option<Command>, acked: bool, recovered: bool)
    requires
        ctl_wf(v),
        ctl_fits(v, cmd),
    ensures
        ctl_wf(ctl_next(v, cmd, acked, recovered).0),
{
    if cmd == Some(Command::EmergencyStop) || cmd == Some(Command::Hello) {
        return;
    }
    match v.state {
        STATE::CALIBRATE => {
            if !is_stop(cmd) && v.calibrator is Some {
                crate::calibrate::lemma_points_close_in_order(v.calibrator.unwrap(), CONTROL_PERIOD_MS);
            }
            assert(ctl_wf(next_calibrate(v, cmd).0));
        },
        STATE::CONFIGURED => {
            assert(cal_wf(fresh_cal()));
            assert(ctl_wf(next_configured(v, cmd).0));
        },
        STATE::SPOOLUP => {
            assert(ctl_wf(next_spoolup(v, cmd).0));
        },
        STATE::EXCITE => {
            assert(ctl_wf(next_excite(v, cmd).0));
        },
        STATE::PLL_LOCK => {
            assert(ctl_wf(next_pll(v, cmd).0));
        },
        STATE::RAMP_DOWN => {
            assert(ctl_wf(next_ramp_down(v).0));
        },
        STATE::MANUAL => {
            assert(ctl_wf(next_manual(v, cmd).0));
        },
        _ => {},
    }
}

/// An emergency stop is honoured in every state: actuators off first, then ESTOP.
pub proof fn lemma_estop_always_honored(v: CtlView, acked: bool, recovered: bool)
    ensures
        ctl_next(v, Some(Command::EmergencyStop), acked, recovered).0.state == STATE::ESTOP,
        ctl_next(v, Some(Command::EmergencyStop), acked, recovered).0.ramp is None,
        ctl_next(v, Some(Command::EmergencyStop), acked, recovered).1[0] == Action::MotorEmergencyOff,
        ctl_next(v, Some(Command::EmergencyStop), acked, recovered).1[1] == Action::Relay(false),
{
}

/// The bridge's (re)start announcement is acknowledged from any state without
/// disturbing the machine.
pub proof fn lemma_hello_does_not_disturb(v: CtlView, acked: bool, recovered: bool)
    ensures
        ctl_next(v, Some(Command::Hello), acked, recovered) == (v, seq![Action::SendHelloAck]),
{
}

/// An action that arms or powers the prime mover or commands a demand.
pub open spec fn drives(a: Action) -> bool {
    ||| a == Action::MotorEnable
    ||| a == Action::Relay(true)
    ||| a is DemandFromRamp
    ||| a is DemandTrackRamp
    ||| a is DemandHoldSpeed
    ||| a is ApplyLive
    ||| a is Calibration
}

/// While faulted or emergency-stopped the actuators are forced off on every tick
/// (apart from answering the bridge's Hello), nothing arms the prime mover or
/// commands a demand, an emergency stop leads to ESTOP, ClearFaults or Stop lead to
/// IDLE (clearing the recorded fault when leaving FAULT), and anything else keeps
/// the state.
pub proof fn lemma_faulted_holds_actuators_off(v: CtlView, cmd: Option<Command>, acked: bool, recovered: bool)
    requires
        v.state == STATE::FAULT || v.state == STATE::ESTOP,
        cmd != Some(Command::Hello),
    ensures
        ctl_next(v, cmd, acked, recovered).1[0] == Action::MotorEmergencyOff,
        ctl_next(v, cmd, acked, recovered).1[1] == Action::Relay(false),
        forall|i: int| 0 <= i < ctl_next(v, cmd, acked, recovered).1.len()
            ==> !drives(#[trigger] ctl_next(v, cmd, acked, recovered).1[i]),
        cmd == Some(Command::EmergencyStop) ==> ctl_next(v, cmd, acked, recovered).0.state == STATE::ESTOP,
        clears(cmd) ==> ctl_next(v, cmd, acked, recovered).0.state == STATE::IDLE,
        clears(cmd) && v.state == STATE::FAULT ==> ctl_next(v, cmd, acked, recovered).0.last_fault is None,
        cmd != Some(Command::EmergencyStop) && !clears(cmd) ==> ctl_next(v, cmd, acked, recovered).0.state == v.state,
{
    let a = ctl_next(v, cmd, acked, recovered).1;
    assert forall|i: int| 0 <= i < a.len() implies !drives(#[trigger] a[i]) by {
        if cmd == Some(Command::EmergencyStop) {
        } else if v.state == STATE::FAULT {
        } else {
            let t = v.estop_tick.wrapping_add(1);
            let x = seq![Action::MotorEmergencyOff, Action::Relay(false)] + (if t % 25 == 0 {
                seq![Action::Light(Led::Red, LedOp::Toggle), Action::Light(Led::Yellow, LedOp::Toggle)]
            } else {
                seq![]
            });
            if i < x.len() {
                assert(a[i] == x[i]);
            } else {
                assert(a[i] == seq![Action::Light(Led::Red, LedOp::Off), Action::Light(Led::Yellow, LedOp::Off)][i - x.len()]);
            }
        }
    }
}

/// Power is applied (relay energized, prime mover armed) only by Start in CONFIGURED.
#[verifier::rlimit(40)]
pub proof fn lemma_power_only_on_start(v: CtlView, cmd: Option<Command>, acked: bool, recovered: bool, i: int)
    requires
        0 <= i < ctl_next(v, cmd, acked, recovered).1.len(),
        ctl_next(v, cmd, acked, recovered).1[i] == Action::Relay(true) || ctl_next(v, cmd, acked, recovered).1[i]
            == Action::MotorEnable,
    ensures
        v.state == STATE::CONFIGURED,
        cmd == Some(Command::Start),
{
    let a = ctl_next(v, cmd, acked, recovered).1;
    if cmd == Some(Command::EmergencyStop) || cmd == Some(Command::Hello) {
        assert(false);
    }
    match v.state {
        STATE::CONFIGURED => {},
        STATE::SPOOLUP => {
            let p = plan_of(v);
            if !is_stop(cmd) {
                assert(a[i] != Action::Relay(true) && a[i] != Action::MotorEnable) by {
                    let a1 = live(cmd);
                    let e = (v.run_elapsed_ms + CONTROL_PERIOD_MS) as u32;
                    let lights = blink((e / 100) % 2 == 0, Led::Green);
                    match v.ramp {
                        Some(r) => {
                            let s = sample_of(ticked(r, CONTROL_PERIOD_MS));
                            let d = if p.mode == RunMode::ClosedLoop || p.mode == RunMode::Generate {
                                Action::DemandTrackRamp(s)
                            } else {
                                Action::DemandFromRamp(s)
                            };
                            assert(a == a1.push(d) + lights);
                            if i < a1.len() {
                            } else if i == a1.len() {
                            } else {
                                assert(a[i] == lights[i - a1.len() - 1]);
                            }
                        },
                        None => {
                            let a2 = a1 + (if p.mode == RunMode::ClosedLoop { seq![Action::DemandHoldSpeed] } else { seq![] });
                            if p.hold_ms > 0 && e >= p.ramp_up_ms + p.hold_ms {
                                assert(a == a2.push(Action::RampDownFromDemand) + lights);
                                if i < a2.len() {
                                    if i >= a1.len() {
                                        assert(a[i] == Action::DemandHoldSpeed);
                                    }
                                } else if i > a2.len() {
                                    assert(a[i] == lights[i - a2.len() - 1]);
                                }
                            } else {
                                assert(a == a2 + lights);
                                if i < a2.len() {
                                    if i >= a1.len() {
                                        assert(a[i] == Action::DemandHoldSpeed);
                                    }
                                } else {
                                    assert(a[i] == lights[i - a2.len()]);
                                }
                            }
                        },
                    }
                }
            }
        },
        STATE::READY => {
            if !is_stop(cmd) {
                let l = live(cmd);
                assert(a == seq![Action::DemandHoldSpeed] + l + seq![Action::Light(Led::Green, LedOp::On), Action::Light(Led::Yellow, LedOp::Off)]);
                if 1 <= i < 1 + l.len() {
                    assert(a[i] == l[i - 1]);
                }
            }
        },
        STATE::GENERATE => {
            if !is_stop(cmd) {
                let l = live(cmd);
                assert(a == seq![Action::DemandHoldSpeed] + l + seq![Action::Light(Led::Green, LedOp::On)]);
                if 1 <= i < 1 + l.len() {
                    assert(a[i] == l[i - 1]);
                }
            }
        },
        STATE::IDLE => {
            match cmd {
                Some(Command::Configure(_)) => {},
                Some(Command::ClearFaults) => {},
                _ => {
                    let t = v.idle_tick.wrapping_add(1);
                    assert(a == seq![Action::MotorDisable] + blink(t % 50 == 0, Led::Yellow));
                    if i > 0 {
                        assert(a[i] == blink(t % 50 == 0, Led::Yellow)[i - 1]);
                    }
                },
            }
        },
        STATE::CALIBRATE => {
            if !is_stop(cmd) {
                if let Some(c) = v.calibrator {
                    let (c2, t) = cal_next(c, CONTROL_PERIOD_MS);
                    if !cal_done(t) {
                        let e = (v.run_elapsed_ms + CONTROL_PERIOD_MS) as u32;
                        assert(a == seq![Action::Calibration(t)] + blink((e / 150) % 2 == 0, Led::Green));
                        if i > 0 {
                            assert(a[i] == blink((e / 150) % 2 == 0, Led::Green)[i - 1]);
                        }
                    }
                }
            }
        },
        STATE::MANUAL => {
            let (v1, a1) = match cmd {
                Some(Command::LiveAdjust(LiveParam::Duty)) => (v, seq![Action::ApplyLive(LiveParam::Duty)]),
                Some(Command::LiveAdjust(LiveParam::MaxDutyClamp)) => (v, seq![Action::ApplyLive(LiveParam::MaxDutyClamp)]),
                Some(Command::LiveAdjust(LiveParam::TargetRpm)) => (v, seq![Action::ApplyLive(LiveParam::TargetRpm)]),
                Some(Command::Stop) => (into_ramp_down(v), seq![Action::RampDownFromDemand]),
                _ => (v, seq![]),
            };
            let t = v1.manual_tick.wrapping_add(1);
            assert(a == a1 + blink(t % 25 == 0, Led::Green));
            if i >= a1.len() {
                assert(a[i] == blink(t % 25 == 0, Led::Green)[i - a1.len()]);
            }
        },
        STATE::RAMP_DOWN => {
            let (v1, a1) = match v.ramp {
                Some(r) => {
                    let r2 = ticked(r, CONTROL_PERIOD_MS);
                    let x = seq![Action::DemandFromRamp(sample_of(r2))];
                    if r2.done {
                        (CtlView { ramp: None, run_elapsed_ms: 0, state: STATE::IDLE, ..v },
                         x + seq![
                            Action::MotorDisable,
                            Action::Relay(false),
                            Action::Light(Led::Green, LedOp::Off),
                            Action::Light(Led::Yellow, LedOp::On),
                        ])
                    } else {
                        (CtlView { ramp: Some(r2), ..v }, x)
                    }
                },
                None => (CtlView { state: STATE::IDLE, ..v }, seq![Action::MotorDisable, Action::Relay(false)]),
            };
            let b = blink((v1.run_elapsed_ms / 100) % 2 == 0, Led::Green);
            assert(a == a1 + b);
            if i >= a1.len() {
                assert(a[i] == b[i - a1.len()]);
            } else {
                assert(a[i] == a1[i]);
            }
        },
        STATE::ESTOP => {
            let t = v.estop_tick.wrapping_add(1);
            let x = seq![Action::MotorEmergencyOff, Action::Relay(false)] + (if t % 25 == 0 {
                seq![Action::Light(Led::Red, LedOp::Toggle), Action::Light(Led::Yellow, LedOp::Toggle)]
            } else {
                seq![]
            });
            if i < x.len() {
                assert(a[i] == x[i]);
            }
        },
        STATE::BOOT => {
            let (v1, a1) = if !v.safety_init_done {
                (CtlView { safety_init_done: true, ..v }, seq![Action::MotorEmergencyOff, Action::Relay(false), Action::ListenRx])
            } else {
                (v, seq![])
            };
            if i < a1.len() {
                assert(a[i] == a1[i]);
            }
        },
        _ => {},
    }
}

/// BOOT never bricks the machine without the bridge: each tick either reaches IDLE
/// or uses up one of at most 100 retries. An acknowledgement that landed in the
/// queue (popped as the tick's command or drained from the rest) takes BOOT to IDLE,
/// red off and yellow on.
pub proof fn lemma_boot_makes_progress(v: CtlView, cmd: Option<Command>, acked: bool, recovered: bool)
    requires
        ctl_wf(v),
        v.state == STATE::BOOT,
        cmd != Some(Command::EmergencyStop),
        cmd != Some(Command::Hello),
    ensures
        ctl_next(v, cmd, acked, recovered).0.state == STATE::IDLE || (
        ctl_next(v, cmd, acked, recovered).0.state == STATE::BOOT
            && ctl_next(v, cmd, acked, recovered).0.boot_hello_attempts == v.boot_hello_attempts + 1
            && ctl_next(v, cmd, acked, recovered).0.boot_hello_attempts <= BOOT_HELLO_RETRIES),
        acked || cmd == Some(Command::HelloAck) ==> ctl_next(v, cmd, acked, recovered).0.state == STATE::IDLE
            && ctl_next(v, cmd, acked, recovered).0.boot_hello_attempts == 0
            && ctl_next(v, cmd, acked, recovered).1.contains(Action::Light(Led::Red, LedOp::Off))
            && ctl_next(v, cmd, acked, recovered).1.contains(Action::Light(Led::Yellow, LedOp::On)),
        v.boot_hello_attempts == BOOT_HELLO_RETRIES ==> ctl_next(v, cmd, acked, recovered).0.state == STATE::IDLE,
{
    if acked || cmd == Some(Command::HelloAck) {
        let a = ctl_next(v, cmd, acked, recovered).1;
        let n = a.len() as int;
        assert(a[n - 2] == Action::Light(Led::Red, LedOp::Off));
        assert(a[n - 1] == Action::Light(Led::Yellow, LedOp::On));
    }
}

/// A configuration sent while CONFIGURED replaces the stored one: the plan becomes
/// the new plan, the state stays CONFIGURED, the clamp and the full configuration
/// are taken from the command, and a following Start runs the new plan's mode over
/// the new plan's ramp-up time.
pub proof fn lemma_reconfigure_before_start(v: CtlView, p: RunPlan, a1: bool, r1: bool, a2: bool, r2: bool)
    requires
        v.state == STATE::CONFIGURED,
    ensures
        ctl_next(v, Some(Command::Configure(p)), a1, r1).0.plan == Some(p),
        ctl_next(v, Some(Command::Configure(p)), a1, r1).0.state == STATE::CONFIGURED,
        ctl_next(v, Some(Command::Configure(p)), a1, r1).1 == seq![Action::MotorClampFromCommand, Action::StoreConfigFromCommand],
        ({
            let w = ctl_next(v, Some(Command::Configure(p)), a1, r1).0;
            let (n, acts) = ctl_next(w, Some(Command::Start), a2, r2);
            &&& n.plan == Some(p)
            &&& n.state == (if p.mode == RunMode::Calibrate {
                STATE::CALIBRATE
            } else if p.mode == RunMode::Manual {
                STATE::MANUAL
            } else {
                STATE::SPOOLUP
            })
            &&& p.mode != RunMode::Manual ==> n.ramp == Some(fresh_ramp(p.ramp_up_ms)) && acts.contains(Action::RampUpStart)
            &&& p.mode == RunMode::Manual ==> n.ramp is None
                && acts == seq![Action::Relay(true), Action::MotorEnable, Action::PidReset]
        }),
{
    let w = ctl_next(v, Some(Command::Configure(p)), a1, r1).0;
    let acts = ctl_next(w, Some(Command::Start), a2, r2).1;
    if p.mode != RunMode::Manual {
        assert(acts[3] == Action::RampUpStart);
    }
}

/// Spooling up along a ramp, a closed-loop or generate run tracks the target speed
/// scaled by the ramp and never ramps the raw demand; an open-loop run ramps the
/// demand itself and never tracks a speed.
pub proof fn lemma_spoolup_demand_follows_mode(v: CtlView, cmd: Option<Command>, acked: bool, recovered: bool)
    requires
        v.state == STATE::SPOOLUP,
        v.ramp is Some,
        cmd != Some(Command::Stop),
        cmd != Some(Command::EmergencyStop),
        cmd != Some(Command::Hello),
    ensures
        ({
            let acts = ctl_next(v, cmd, acked, recovered).1;
            let at = sample_of(ticked(v.ramp->0, CONTROL_PERIOD_MS));
            let mode = plan_of(v).mode;
            &&& (mode == RunMode::ClosedLoop || mode == RunMode::Generate) ==> acts.contains(Action::DemandTrackRamp(at))
                && forall|i: int| 0 <= i < acts.len() ==> !(#[trigger] acts[i] is DemandFromRamp)
            &&& mode == RunMode::OpenLoop ==> acts.contains(Action::DemandFromRamp(at))
                && forall|i: int| 0 <= i < acts.len() ==> !(#[trigger] acts[i] is DemandTrackRamp)
        }),
{
    let acts = ctl_next(v, cmd, acked, recovered).1;
    let p = plan_of(v);
    let e = (v.run_elapsed_ms + CONTROL_PERIOD_MS) as u32;
    let a1 = live(cmd);
    let lights = blink((e / 100) % 2 == 0, Led::Green);
    let at = sample_of(ticked(v.ramp->0, CONTROL_PERIOD_MS));
    let d = if p.mode == RunMode::ClosedLoop || p.mode == RunMode::Generate {
        Action::DemandTrackRamp(at)
    } else {
        Action::DemandFromRamp(at)
    };
    assert(acts == a1.push(d) + lights);
    assert(acts[a1.len() as int] == d);
    assert forall|i: int| 0 <= i < acts.len() && i != a1.len() implies !(#[trigger] acts[i] is DemandFromRamp) && !(acts[i] is DemandTrackRamp) by {
        if i < a1.len() {
            assert(acts[i] == a1[i]);
        } else {
            assert(acts[i] == lights[i - a1.len() - 1]);
        }
    }
}

/// Stop from any running state leads to a graceful ramp down over the configured
/// ramp-down time, starting from the current demand.
pub proof fn lemma_stop_ramps_down(v: CtlView, acked: bool, recovered: bool)
    requires
        v.state == STATE::SPOOLUP || v.state == STATE::EXCITE || v.state == STATE::PLL_LOCK || v.state == STATE::READY
            || v.state == STATE::GENERATE || v.state == STATE::LOAD_REJECTION || v.state == STATE::MANUAL
            || v.state == STATE::CALIBRATE,
    ensures
        ctl_next(v, Some(Command::Stop), acked, recovered).0.state == STATE::RAMP_DOWN,
        ctl_next(v, Some(Command::Stop), acked, recovered).0.ramp == Some(fresh_ramp(plan_of(v).ramp_down_ms)),
        ctl_next(v, Some(Command::Stop), acked, recovered).1[0] == Action::RampDownFromDemand,
{
}

/// A ramp down that completes returns to IDLE with the prime mover disarmed and power off.
pub proof fn lemma_ramp_down_ends_powered_off(v: CtlView, cmd: Option<Command>, acked: bool, recovered: bool)
    requires
        v.state == STATE::RAMP_DOWN,
        cmd != Some(Command::EmergencyStop),
        cmd != Some(Command::Hello),
        ctl_next(v, cmd, acked, recovered).0.state == STATE::IDLE,
    ensures
        ctl_next(v, cmd, acked, recovered).1.contains(Action::MotorDisable),
        ctl_next(v, cmd, acked, recovered).1.contains(Action::Relay(false)),
        ctl_next(v, cmd, acked, recovered).0.ramp is None,
{
    let a = ctl_next(v, cmd, acked, recovered).1;
    match v.ramp {
        Some(r) => {
            assert(a[1] == Action::MotorDisable);
            assert(a[2] == Action::Relay(false));
        },
        None => {
            assert(a[0] == Action::MotorDisable);
            assert(a[1] == Action::Relay(false));
        },
    }
}

/// On any trip the supervisor forces the actuators off first; the machine ends in
/// FAULT or ESTOP; a trip while already faulted changes nothing else; no trip, no action.
pub proof fn lemma_supervisor_trips(v: CtlView, trip: Option<Fault>)
    ensures
        trip is None ==> supervise_next(v, trip) == (v, Seq::<Action>::empty()),
        trip is Some ==> {
            &&& supervise_next(v, trip).1[0] == Action::MotorEmergencyOff
            &&& supervise_next(v, trip).1[1] == Action::Relay(false)
            &&& (supervise_next(v, trip).0.state == STATE::FAULT || supervise_next(v, trip).0.state == STATE::ESTOP)
        },
        trip is Some && (v.state == STATE::FAULT || v.state == STATE::ESTOP) ==> supervise_next(v, trip).0 == v,
        trip is Some && !(v.state == STATE::FAULT || v.state == STATE::ESTOP) ==> supervise_next(v, trip).0.last_fault == trip,
{
    if trip is None {
        assert(supervise_next(v, trip).1 =~= Seq::<Action>::empty());
    }
}

/// A sensor fault takes precedence over an overspeed.
pub proof fn lemma_sensor_fault_first(over_limit: bool)
    ensures
        trip_of(true, over_limit) == Some(Fault::SensorOutOfRange),
        trip_of(false, true) == Some(Fault::Overspeed),
        trip_of(false, false) is None,
{
}

} // verus!
