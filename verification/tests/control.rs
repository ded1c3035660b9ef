use guvnuh::calibrate::CalTick;
use guvnuh::commands::{Command, LiveParam, RunMode, RunPlan};
use guvnuh::control::{classify_trip, Action, Controller, Led, LedOp};
use guvnuh::ramp::RampSample;
use guvnuh::states::{Fault, STATE};

fn tick(c: &mut Controller, cmd: Option<Command>) -> Vec<Action> {
    assert!(c.tick_fits(cmd));
    c.step(cmd, false, false)
}

fn booted() -> Controller {
    let mut c = Controller::new();
    c.step(None, true, false);
    assert_eq!(c.state(), STATE::IDLE);
    c
}

fn plan(mode: RunMode, ramp_up_ms: u32, hold_ms: u32, ramp_down_ms: u32) -> RunPlan {
    RunPlan { mode, ramp_up_ms, hold_ms, ramp_down_ms }
}

fn started(p: RunPlan) -> Controller {
    let mut c = booted();
    tick(&mut c, Some(Command::Configure(p)));
    tick(&mut c, Some(Command::Start));
    c
}

#[test]
fn boot_gives_up_waiting_after_a_second() {
    let mut c = Controller::new();
    assert_eq!(c.state(), STATE::BOOT);
    let first = tick(&mut c, None);
    assert_eq!(
        first,
        vec![
            Action::MotorEmergencyOff,
            Action::Relay(false),
            Action::ListenRx,
            Action::SendHello,
            Action::Light(Led::Red, LedOp::Toggle)
        ]
    );
    for _ in 1..100 {
        assert_eq!(tick(&mut c, None), vec![Action::SendHello, Action::Light(Led::Red, LedOp::Toggle)]);
        assert_eq!(c.state(), STATE::BOOT);
    }
    assert_eq!(
        tick(&mut c, None),
        vec![Action::SendHello, Action::Light(Led::Red, LedOp::Off), Action::Light(Led::Yellow, LedOp::On)]
    );
    assert_eq!(c.state(), STATE::IDLE);
}

#[test]
fn boot_proceeds_on_ack() {
    let mut c = Controller::new();
    let acts = c.step(None, true, false);
    assert_eq!(c.state(), STATE::IDLE);
    assert_eq!(acts[3], Action::SendHello);
}

#[test]
fn boot_proceeds_on_a_popped_ack() {
    let mut c = Controller::new();
    tick(&mut c, None);
    let acts = tick(&mut c, Some(Command::HelloAck));
    assert_eq!(c.state(), STATE::IDLE);
    assert_eq!(acts, vec![Action::SendHello, Action::Light(Led::Red, LedOp::Off), Action::Light(Led::Yellow, LedOp::On)]);
}

#[test]
fn run_time_is_reported() {
    let mut c = started(plan(RunMode::OpenLoop, 100, 0, 50));
    assert_eq!(c.run_elapsed_ms(), 0);
    tick(&mut c, None);
    assert_eq!(c.run_elapsed_ms(), 10);
}

#[test]
fn hello_is_acknowledged_without_state_change() {
    let mut c = Controller::new();
    assert_eq!(tick(&mut c, Some(Command::Hello)), vec![Action::SendHelloAck]);
    assert_eq!(c.state(), STATE::BOOT);
    let mut c = started(plan(RunMode::OpenLoop, 100, 0, 50));
    assert_eq!(c.state(), STATE::SPOOLUP);
    assert_eq!(tick(&mut c, Some(Command::Hello)), vec![Action::SendHelloAck]);
    assert_eq!(c.state(), STATE::SPOOLUP);
}

#[test]
fn configure_then_start_closed_loop() {
    let mut c = booted();
    let p = plan(RunMode::ClosedLoop, 100, 0, 50);
    assert_eq!(
        tick(&mut c, Some(Command::Configure(p))),
        vec![
            Action::MotorDisable,
            Action::MotorClampFromCommand,
            Action::StoreConfigFromCommand,
            Action::Light(Led::Yellow, LedOp::Off),
            Action::Light(Led::Green, LedOp::On)
        ]
    );
    assert_eq!(c.state(), STATE::CONFIGURED);
    assert_eq!(c.plan(), Some(p));
    assert_eq!(
        tick(&mut c, Some(Command::Start)),
        vec![Action::Relay(true), Action::MotorEnable, Action::PidReset, Action::RampUpStart, Action::PidGainsFromConfig]
    );
    assert_eq!(c.state(), STATE::SPOOLUP);
    assert_eq!(
        tick(&mut c, None),
        vec![
            Action::DemandTrackRamp(RampSample::Along { elapsed_ms: 10, duration_ms: 100 }),
            Action::Light(Led::Green, LedOp::Toggle)
        ]
    );
    for _ in 0..8 {
        tick(&mut c, None);
    }
    let last = tick(&mut c, None);
    assert_eq!(last[0], Action::DemandTrackRamp(RampSample::End));
    assert_eq!(c.state(), STATE::SPOOLUP);
    // after the ramp: hold speed on the PID
    assert_eq!(tick(&mut c, None)[0], Action::DemandHoldSpeed);
}

#[test]
fn generate_sequence_reaches_generate() {
    let mut c = started(plan(RunMode::Generate, 100, 0, 50));
    while c.state() == STATE::SPOOLUP {
        tick(&mut c, None);
    }
    assert_eq!(c.state(), STATE::EXCITE);
    let mut n = 0;
    while c.state() == STATE::EXCITE {
        assert_eq!(tick(&mut c, None), vec![Action::Light(Led::Yellow, LedOp::Toggle)]);
        n += 1;
    }
    // 100 ms of ramp, then past ramp_up + 3000 ms
    assert_eq!(n, 301);
    assert_eq!(c.state(), STATE::PLL_LOCK);
    while c.state() == STATE::PLL_LOCK {
        tick(&mut c, None);
    }
    assert_eq!(c.state(), STATE::READY);
    assert_eq!(
        tick(&mut c, Some(Command::LiveAdjust(LiveParam::TargetRpm))),
        vec![
            Action::DemandHoldSpeed,
            Action::ApplyLive(LiveParam::TargetRpm),
            Action::Light(Led::Green, LedOp::On),
            Action::Light(Led::Yellow, LedOp::Off)
        ]
    );
    tick(&mut c, Some(Command::Start));
    assert_eq!(c.state(), STATE::GENERATE);
    assert_eq!(tick(&mut c, None), vec![Action::DemandHoldSpeed, Action::Light(Led::Green, LedOp::On)]);
}

#[test]
fn emergency_stop_from_any_state() {
    let mut c = started(plan(RunMode::ClosedLoop, 100, 0, 50));
    let acts = tick(&mut c, Some(Command::EmergencyStop));
    assert_eq!(
        acts,
        vec![
            Action::MotorEmergencyOff,
            Action::Relay(false),
            Action::PidReset,
            Action::Light(Led::Green, LedOp::Off),
            Action::Light(Led::Yellow, LedOp::Off),
            Action::Light(Led::Red, LedOp::On)
        ]
    );
    assert_eq!(c.state(), STATE::ESTOP);
    for _ in 0..30 {
        let a = tick(&mut c, Some(Command::Start));
        assert_eq!(a[0], Action::MotorEmergencyOff);
        assert_eq!(a[1], Action::Relay(false));
        assert_eq!(c.state(), STATE::ESTOP);
    }
    let a = tick(&mut c, Some(Command::ClearFaults));
    assert_eq!(c.state(), STATE::IDLE);
    assert_eq!(a[a.len() - 2..], [Action::Light(Led::Red, LedOp::Off), Action::Light(Led::Yellow, LedOp::Off)]);
    let mut c = Controller::new();
    tick(&mut c, Some(Command::EmergencyStop));
    assert_eq!(c.state(), STATE::ESTOP);
}

#[test]
fn supervisor_trips_on_edge_only() {
    let mut c = started(plan(RunMode::OpenLoop, 100, 0, 50));
    assert_eq!(c.supervise(None), vec![]);
    assert_eq!(c.state(), STATE::SPOOLUP);
    let acts = c.supervise(classify_trip(false, true));
    assert_eq!(acts, vec![Action::MotorEmergencyOff, Action::Relay(false), Action::Light(Led::Red, LedOp::On)]);
    assert_eq!(c.state(), STATE::FAULT);
    assert_eq!(c.last_fault(), Some(Fault::Overspeed));
    // already faulted: keep forcing off, keep the first fault
    assert_eq!(c.supervise(classify_trip(true, false)), vec![Action::MotorEmergencyOff, Action::Relay(false)]);
    assert_eq!(c.last_fault(), Some(Fault::Overspeed));
    // the control loop holds the machine off until cleared
    assert_eq!(
        tick(&mut c, Some(Command::Start)),
        vec![
            Action::MotorEmergencyOff,
            Action::Relay(false),
            Action::Light(Led::Red, LedOp::On),
            Action::Light(Led::Green, LedOp::Off)
        ]
    );
    tick(&mut c, Some(Command::ClearFaults));
    assert_eq!(c.state(), STATE::IDLE);
    assert_eq!(c.last_fault(), None);
}

#[test]
fn trip_classification() {
    assert_eq!(classify_trip(true, true), Some(Fault::SensorOutOfRange));
    assert_eq!(classify_trip(true, false), Some(Fault::SensorOutOfRange));
    assert_eq!(classify_trip(false, true), Some(Fault::Overspeed));
    assert_eq!(classify_trip(false, false), None);
}

#[test]
fn estop_is_not_overridden_by_supervisor() {
    let mut c = started(plan(RunMode::OpenLoop, 100, 0, 50));
    tick(&mut c, Some(Command::EmergencyStop));
    c.supervise(Some(Fault::Overspeed));
    assert_eq!(c.state(), STATE::ESTOP);
    assert_eq!(c.last_fault(), None);
}

#[test]
fn stop_ramps_down_to_idle() {
    let mut c = started(plan(RunMode::OpenLoop, 100, 0, 30));
    tick(&mut c, None);
    assert_eq!(tick(&mut c, Some(Command::Stop)), vec![Action::RampDownFromDemand]);
    assert_eq!(c.state(), STATE::RAMP_DOWN);
    let a = tick(&mut c, None);
    assert_eq!(a[0], Action::DemandFromRamp(RampSample::Along { elapsed_ms: 10, duration_ms: 30 }));
    tick(&mut c, None);
    let a = tick(&mut c, None);
    assert_eq!(
        a,
        vec![
            Action::DemandFromRamp(RampSample::End),
            Action::MotorDisable,
            Action::Relay(false),
            Action::Light(Led::Green, LedOp::Off),
            Action::Light(Led::Yellow, LedOp::On),
            Action::Light(Led::Green, LedOp::Toggle)
        ]
    );
    assert_eq!(c.state(), STATE::IDLE);
}

#[test]
fn hold_time_ends_in_ramp_down() {
    let mut c = started(plan(RunMode::OpenLoop, 100, 50, 30));
    let mut ticks = 0;
    while c.state() == STATE::SPOOLUP {
        tick(&mut c, None);
        ticks += 1;
    }
    assert_eq!(ticks, 15);
    assert_eq!(c.state(), STATE::RAMP_DOWN);
}

#[test]
fn open_loop_holds_indefinitely_without_hold_time() {
    let mut c = started(plan(RunMode::OpenLoop, 100, 0, 30));
    for _ in 0..1000 {
        tick(&mut c, None);
    }
    assert_eq!(c.state(), STATE::SPOOLUP);
}

#[test]
fn calibration_run_returns_to_idle() {
    let mut c = started(plan(RunMode::Calibrate, 100, 0, 30));
    assert_eq!(c.state(), STATE::CALIBRATE);
    let first = tick(&mut c, None);
    assert_eq!(first[0], Action::Calibration(CalTick::Hold { point: 0, begin_sampling: false }));
    let mut last = Vec::new();
    let mut n = 1;
    while c.state() == STATE::CALIBRATE {
        last = tick(&mut c, None);
        n += 1;
    }
    assert_eq!(n, 1000);
    assert_eq!(
        last,
        vec![
            Action::Calibration(CalTick::Sample { point: 3, samples: 50, close: true, complete: true }),
            Action::MotorDisable,
            Action::Relay(false),
            Action::Light(Led::Green, LedOp::Off),
            Action::Light(Led::Yellow, LedOp::On)
        ]
    );
    assert_eq!(c.state(), STATE::IDLE);
}

#[test]
fn stop_during_calibration() {
    let mut c = started(plan(RunMode::Calibrate, 100, 0, 30));
    tick(&mut c, None);
    assert_eq!(tick(&mut c, Some(Command::Stop)), vec![Action::RampDownFromDemand]);
    assert_eq!(c.state(), STATE::RAMP_DOWN);
}

#[test]
fn manual_mode_live_control() {
    let mut c = started(plan(RunMode::Manual, 100, 0, 30));
    assert_eq!(c.state(), STATE::MANUAL);
    assert_eq!(tick(&mut c, Some(Command::LiveAdjust(LiveParam::Duty))), vec![Action::ApplyLive(LiveParam::Duty)]);
    assert_eq!(tick(&mut c, Some(Command::LiveAdjust(LiveParam::PidGains))), vec![]);
    let mut blinked = 0;
    for _ in 0..50 {
        if tick(&mut c, None) == vec![Action::Light(Led::Green, LedOp::Toggle)] {
            blinked += 1;
        }
    }
    assert_eq!(blinked, 2);
    tick(&mut c, Some(Command::Stop));
    assert_eq!(c.state(), STATE::RAMP_DOWN);
}

#[test]
fn stop_before_start_forgets_the_configuration() {
    let mut c = booted();
    tick(&mut c, Some(Command::Configure(plan(RunMode::OpenLoop, 1, 2, 3))));
    let a = tick(&mut c, Some(Command::Stop));
    assert_eq!(a, vec![Action::ClearConfig, Action::Light(Led::Green, LedOp::Off), Action::Light(Led::Yellow, LedOp::On)]);
    assert_eq!(c.state(), STATE::IDLE);
    assert_eq!(c.plan(), None);
}

#[test]
fn start_without_configuration_uses_defaults() {
    let mut c = booted();
    // Start only counts in CONFIGURED
    tick(&mut c, Some(Command::Start));
    assert_eq!(c.state(), STATE::IDLE);
}

#[test]
fn idle_blinks_yellow_every_fifty_ticks() {
    let mut c = booted();
    let mut blinks = 0;
    for _ in 0..100 {
        let a = tick(&mut c, None);
        assert_eq!(a[0], Action::MotorDisable);
        if a.len() == 2 {
            blinks += 1;
        }
    }
    assert_eq!(blinks, 2);
}
