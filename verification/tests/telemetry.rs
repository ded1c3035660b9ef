use guvnuh::states::STATE;
use guvnuh::telemetry::{encoder_delta, frame_due, TelemetryClock, TelemetryStep};

#[test]
fn delta_across_wrap() {
    assert_eq!(encoder_delta(100, 150), 50);
    assert_eq!(encoder_delta(150, 100), -50);
    assert_eq!(encoder_delta(u32::MAX - 9, 10), 20);
    assert_eq!(encoder_delta(5, u32::MAX - 4), -10);
}

#[test]
fn frames_wait_for_boot_to_end() {
    assert!(!frame_due(STATE::BOOT));
    assert!(frame_due(STATE::IDLE));
    assert!(frame_due(STATE::FAULT));
}

#[test]
fn clock_ticks() {
    let mut c = TelemetryClock::new();
    assert_eq!(c.tick(40, STATE::BOOT), TelemetryStep { ts_ms: 10, delta_counts: 40, send: false, log: true });
    assert_eq!(c.tick(30, STATE::IDLE), TelemetryStep { ts_ms: 20, delta_counts: -10, send: true, log: false });
    let mut logs = 1;
    for _ in 2..200 {
        if c.tick(30, STATE::IDLE).log {
            logs += 1;
        }
    }
    assert_eq!(logs, 2);
}
