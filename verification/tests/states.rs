use guvnuh::states::STATE;
use guvnuh::worker::{run, FaultCode, WorkerStatus, WorkerTick};

#[test]
fn state_names() {
    assert_eq!(STATE::BOOT.as_str(), "Boot");
    assert_eq!(STATE::CALIBRATE.as_str(), "Calibrate");
    assert_eq!(STATE::IDLE.as_str(), "Idle");
    assert_eq!(STATE::SPOOLUP.as_str(), "Spool Up");
    assert_eq!(STATE::EXCITE.as_str(), "Excite");
    assert_eq!(STATE::PLL_LOCK.as_str(), "PLL Lock");
    assert_eq!(STATE::READY.as_str(), "Ready");
    assert_eq!(STATE::GENERATE.as_str(), "Generate");
    assert_eq!(STATE::LOAD_REJECTION.as_str(), "Load Rejection");
    assert_eq!(STATE::FAULT.as_str(), "FAULT");
    assert_eq!(STATE::ESTOP.as_str(), "ESTOP");
    assert_eq!(STATE::CONFIGURED.as_str(), "Configured");
    assert_eq!(STATE::MANUAL.as_str(), "Manual");
    assert_eq!(STATE::RAMP_DOWN.as_str(), "Ramp Down");
}

#[test]
fn state_indices_are_distinct_and_in_range() {
    let all = [
        STATE::BOOT, STATE::CALIBRATE, STATE::IDLE, STATE::SPOOLUP, STATE::EXCITE, STATE::PLL_LOCK, STATE::READY,
        STATE::GENERATE, STATE::LOAD_REJECTION, STATE::FAULT, STATE::ESTOP, STATE::CONFIGURED, STATE::MANUAL,
        STATE::RAMP_DOWN,
    ];
    for (i, s) in all.iter().enumerate() {
        assert_eq!(s.index(), i);
    }
}

#[test]
fn calibrate_worker_ticks() {
    assert_eq!(run(0), WorkerTick { status: WorkerStatus::Running, toggle_led: true });
    assert_eq!(run(999), WorkerTick { status: WorkerStatus::Running, toggle_led: true });
    assert_eq!(run(1000), WorkerTick { status: WorkerStatus::Complete, toggle_led: false });
    assert_eq!(run(5000), WorkerTick { status: WorkerStatus::Complete, toggle_led: false });
    assert_eq!(run(5001), WorkerTick { status: WorkerStatus::Failed(FaultCode::Timeout), toggle_led: false });
}
