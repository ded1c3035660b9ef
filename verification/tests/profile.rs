use guvnuh::profile::{
    default_profile, eval_profile, profile_finished, EndBehavior, ProfilePoint, ProfileTarget, SegmentInterp,
    SetpointProfile,
};

fn profile(times: &[(u32, SegmentInterp)], end: EndBehavior, total: u32) -> SetpointProfile {
    let mut p = SetpointProfile::default();
    for (i, (t, interp)) in times.iter().enumerate() {
        p.points[i] = ProfilePoint { t_ms: *t, interp: *interp };
    }
    p.count = times.len() as u8;
    p.end_behavior = end;
    p.total_ms = total;
    p
}

#[test]
fn default_profile_segments() {
    let p = default_profile();
    assert_eq!(eval_profile(&p, 0), ProfileTarget::Point(0));
    assert_eq!(eval_profile(&p, 2500), ProfileTarget::Between { from: 0, to: 1, offset_ms: 2500, span_ms: 5000 });
    assert_eq!(eval_profile(&p, 5000), ProfileTarget::Between { from: 0, to: 1, offset_ms: 5000, span_ms: 5000 });
    assert_eq!(eval_profile(&p, 10000), ProfileTarget::Between { from: 1, to: 2, offset_ms: 5000, span_ms: 20000 });
    assert_eq!(eval_profile(&p, 27500), ProfileTarget::Between { from: 2, to: 3, offset_ms: 2500, span_ms: 5000 });
}

#[test]
fn hold_last_holds_forever() {
    let p = default_profile();
    assert_eq!(eval_profile(&p, 30000), ProfileTarget::Point(3));
    assert_eq!(eval_profile(&p, u32::MAX), ProfileTarget::Point(3));
    assert!(!profile_finished(&p, u32::MAX));
}

#[test]
fn empty_and_single_point() {
    let p = SetpointProfile::default();
    assert_eq!(eval_profile(&p, 123), ProfileTarget::Zero);
    assert!(!profile_finished(&p, 123));
    let one = profile(&[(500, SegmentInterp::Linear)], EndBehavior::Stop, 500);
    assert_eq!(eval_profile(&one, 0), ProfileTarget::Point(0));
    assert_eq!(eval_profile(&one, 9999), ProfileTarget::Point(0));
}

#[test]
fn before_first_point_holds_first_value() {
    let p = profile(&[(1000, SegmentInterp::Linear), (2000, SegmentInterp::Linear)], EndBehavior::HoldLast, 2000);
    assert_eq!(eval_profile(&p, 0), ProfileTarget::Point(0));
    assert_eq!(eval_profile(&p, 1000), ProfileTarget::Point(0));
    assert_eq!(eval_profile(&p, 1500), ProfileTarget::Between { from: 0, to: 1, offset_ms: 500, span_ms: 1000 });
}

#[test]
fn step_segments_hold_until_next_point_then_jump() {
    let p = profile(
        &[(0, SegmentInterp::Step), (1000, SegmentInterp::Linear), (2000, SegmentInterp::Linear)],
        EndBehavior::HoldLast,
        2000,
    );
    assert_eq!(eval_profile(&p, 500), ProfileTarget::Point(0));
    assert_eq!(eval_profile(&p, 999), ProfileTarget::Point(0));
    // at the next point's time the step jumps to that point
    assert_eq!(eval_profile(&p, 1000), ProfileTarget::Point(1));
    assert_eq!(eval_profile(&p, 1001), ProfileTarget::Between { from: 1, to: 2, offset_ms: 1, span_ms: 1000 });
}

#[test]
fn loop_wraps_modulo_total() {
    let p = profile(&[(0, SegmentInterp::Linear), (1000, SegmentInterp::Linear), (3000, SegmentInterp::Linear)], EndBehavior::Loop, 3000);
    assert_eq!(eval_profile(&p, 3500), eval_profile(&p, 500));
    assert_eq!(eval_profile(&p, 3500), ProfileTarget::Between { from: 0, to: 1, offset_ms: 500, span_ms: 1000 });
    assert_eq!(eval_profile(&p, 6000), ProfileTarget::Point(0));
    assert!(!profile_finished(&p, 100000));
}

#[test]
fn loop_with_zero_total_holds_last() {
    let p = profile(&[(0, SegmentInterp::Linear), (1000, SegmentInterp::Linear)], EndBehavior::Loop, 0);
    assert_eq!(eval_profile(&p, 5000), ProfileTarget::Point(1));
}

#[test]
fn stop_profile_finishes() {
    let p = profile(&[(0, SegmentInterp::Linear), (1000, SegmentInterp::Linear)], EndBehavior::Stop, 1000);
    assert!(!profile_finished(&p, 999));
    assert!(profile_finished(&p, 1000));
    assert_eq!(eval_profile(&p, 1000), ProfileTarget::Point(1));
}
