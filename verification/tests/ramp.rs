use guvnuh::ramp::{Ramp, RampSample};

#[test]
fn ramp_advances_then_ends() {
    let mut r = Ramp::new(30);
    assert_eq!(r.current_value(), RampSample::Along { elapsed_ms: 0, duration_ms: 30 });
    assert_eq!(r.tick(10), RampSample::Along { elapsed_ms: 10, duration_ms: 30 });
    assert_eq!(r.tick(10), RampSample::Along { elapsed_ms: 20, duration_ms: 30 });
    assert!(!r.is_done());
    assert_eq!(r.tick(10), RampSample::End);
    assert!(r.is_done());
    assert_eq!(r.tick(10), RampSample::End);
    assert_eq!(r.current_value(), RampSample::End);
}

#[test]
fn zero_duration_is_one_ms() {
    let mut r = Ramp::new(0);
    assert_eq!(r.current_value(), RampSample::Along { elapsed_ms: 0, duration_ms: 1 });
    assert_eq!(r.tick(0), RampSample::Along { elapsed_ms: 0, duration_ms: 1 });
    assert_eq!(r.tick(1), RampSample::End);
}

#[test]
fn overshooting_tick_finishes() {
    let mut r = Ramp::new(25);
    assert_eq!(r.tick(10), RampSample::Along { elapsed_ms: 10, duration_ms: 25 });
    assert_eq!(r.tick(10), RampSample::Along { elapsed_ms: 20, duration_ms: 25 });
    assert_eq!(r.tick(10), RampSample::End);
}

#[test]
fn ramp_finishes_after_ceiling_ticks() {
    let mut r = Ramp::new(5000);
    let mut n = 0;
    while !r.is_done() {
        r.tick(10);
        n += 1;
    }
    assert_eq!(n, 500);
}
