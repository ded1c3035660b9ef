use guvnuh::calibrate::{CalPhase, CalTick, Calibrator, CAL_POINT_COUNT};

#[test]
fn schedule_settles_then_samples_each_point() {
    let mut c = Calibrator::new();
    // 199 settling ticks, then the 200th opens the sampling window
    for _ in 0..199 {
        assert_eq!(c.step(10), CalTick::Hold { point: 0, begin_sampling: false });
    }
    assert_eq!(c.step(10), CalTick::Hold { point: 0, begin_sampling: true });
    assert_eq!(c.phase(), CalPhase::Sampling);
    for k in 1..50 {
        assert_eq!(c.step(10), CalTick::Sample { point: 0, samples: k, close: false, complete: false });
    }
    assert_eq!(c.step(10), CalTick::Sample { point: 0, samples: 50, close: true, complete: false });
    assert_eq!(c.phase(), CalPhase::Settling);
    assert_eq!(c.step(10), CalTick::Hold { point: 1, begin_sampling: false });
}

#[test]
fn schedule_completes_after_all_points() {
    let mut c = Calibrator::new();
    let mut closed = Vec::new();
    let mut ticks = 0;
    loop {
        ticks += 1;
        match c.step(10) {
            CalTick::Sample { point, close: true, complete, .. } => {
                closed.push(point);
                if complete {
                    break;
                }
            }
            _ => {}
        }
    }
    assert_eq!(closed, vec![0, 1, 2, 3]);
    assert_eq!(closed.len(), CAL_POINT_COUNT);
    assert_eq!(ticks, 1000);
    assert_eq!(c.phase(), CalPhase::Done);
    assert_eq!(c.step(10), CalTick::Finished);
    assert_eq!(c.step(10), CalTick::Finished);
}

#[test]
fn large_step_jumps_straight_to_sampling_then_closes() {
    let mut c = Calibrator::new();
    assert_eq!(c.step(3000), CalTick::Hold { point: 0, begin_sampling: true });
    assert_eq!(c.step(0), CalTick::Sample { point: 0, samples: 1, close: true, complete: false });
}

#[test]
fn step_fits_guards_overflow() {
    let mut c = Calibrator::new();
    assert!(c.step_fits(u32::MAX));
    c.step(10);
    assert!(!c.step_fits(u32::MAX));
}

#[test]
fn completion_happens_once() {
    let mut c = Calibrator::new();
    let mut completes = 0;
    let mut after_complete = 0;
    for _ in 0..3000 {
        let t = c.step(10);
        if completes > 0 {
            assert_eq!(t, CalTick::Finished);
            after_complete += 1;
        }
        if let CalTick::Sample { complete: true, .. } = t {
            completes += 1;
        }
    }
    assert_eq!(completes, 1);
    assert!(after_complete > 0);
    assert_eq!(c.phase(), CalPhase::Done);
}

#[test]
fn completion_happens_once_with_varying_ticks() {
    let mut c = Calibrator::new();
    let mut done_seen = false;
    let mut completes = 0;
    for k in 0..5000u32 {
        let t = c.step(1 + k % 23);
        let done = matches!(t, CalTick::Finished | CalTick::Sample { complete: true, .. });
        if done_seen {
            assert_eq!(t, CalTick::Finished);
        } else if done {
            assert!(matches!(t, CalTick::Sample { complete: true, .. }));
            completes += 1;
            done_seen = true;
        }
    }
    assert_eq!(completes, 1);
    assert_eq!(c.phase(), CalPhase::Done);
}
