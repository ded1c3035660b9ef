use guvnuh::wcet::{CycleTimer, StateTiming, WcetTable, N_STATES};

#[test]
fn new_table_is_empty() {
    let t = WcetTable::new();
    for i in 0..N_STATES {
        let s = t.get(i).unwrap();
        assert_eq!(s, StateTiming { max_cycles: 0, last_cycles: 0, sum_cycles: 0, count: 0 });
        assert_eq!(t.overrun_streak(i), 0);
    }
    assert_eq!(t.global_max_cycles(), 0);
}

#[test]
fn record_tracks_max_last_sum_count() {
    let mut t = WcetTable::new();
    t.record(3, 100);
    t.record(3, 40);
    t.record(3, 250);
    t.record(3, 10);
    let s = t.get(3).unwrap();
    assert_eq!(s.max_cycles, 250);
    assert_eq!(s.last_cycles, 10);
    assert_eq!(s.sum_cycles, 400);
    assert_eq!(s.count, 4);
    assert_eq!(s.mean_cycles(), 100);
}

#[test]
fn record_ignores_unknown_state() {
    let mut t = WcetTable::new();
    t.record(N_STATES, 999);
    t.record(1000, 999);
    assert_eq!(t.global_max_cycles(), 0);
    assert!(t.get(N_STATES).is_none());
    assert_eq!(t.overrun_streak(N_STATES), 0);
}

#[test]
fn mean_of_unmeasured_state_is_zero() {
    assert_eq!(StateTiming::new().mean_cycles(), 0);
}

#[test]
fn mean_truncates() {
    let s = StateTiming { max_cycles: 5, last_cycles: 5, sum_cycles: 10, count: 3 };
    assert_eq!(s.mean_cycles(), 3);
}

#[test]
fn sums_saturate() {
    let mut t = WcetTable::new();
    for _ in 0..3 {
        t.record(0, u32::MAX);
    }
    let s = t.get(0).unwrap();
    assert_eq!(s.sum_cycles, 3 * u32::MAX as u64);
    assert_eq!(s.max_cycles, u32::MAX);
}

#[test]
fn global_max_is_the_worst_state() {
    let mut t = WcetTable::new();
    t.record(0, 10);
    t.record(5, 700);
    t.record(13, 300);
    t.record(5, 20);
    assert_eq!(t.global_max_cycles(), 700);
}

#[test]
fn streak_trips_when_reaching_limit() {
    let mut t = WcetTable::new();
    assert!(!t.record_and_check(7, 2000, true, 1000, 3));
    assert!(!t.record_and_check(7, 2000, true, 1000, 3));
    assert!(t.record_and_check(7, 2000, true, 1000, 3));
    assert_eq!(t.overrun_streak(7), 3);
    // the trip fires once: a further overrun extends the streak but does not trip again
    assert!(!t.record_and_check(7, 2000, true, 1000, 3));
    assert_eq!(t.overrun_streak(7), 4);
}

#[test]
fn in_budget_tick_clears_streak() {
    let mut t = WcetTable::new();
    t.record_and_check(2, 2000, true, 1000, 3);
    t.record_and_check(2, 2000, true, 1000, 3);
    assert_eq!(t.overrun_streak(2), 2);
    assert!(!t.record_and_check(2, 1000, true, 1000, 3));
    assert_eq!(t.overrun_streak(2), 0);
    // a budget equal to the measurement is in budget
    assert_eq!(t.get(2).unwrap().count, 3);
}

#[test]
fn no_deadline_records_but_never_trips() {
    let mut t = WcetTable::new();
    for _ in 0..5 {
        assert!(!t.record_and_check(4, 5000, false, 1000, 1));
    }
    assert_eq!(t.overrun_streak(4), 0);
    assert_eq!(t.get(4).unwrap().count, 5);
    assert!(!t.record_and_check(N_STATES, 5000, true, 1000, 0));
}

#[test]
fn cycle_timer_handles_wrap() {
    let t = CycleTimer::start(u32::MAX - 5);
    assert_eq!(t.stop(10), 16);
    let t = CycleTimer::start(100);
    assert_eq!(t.stop(350), 250);
}

#[test]
fn record_order_does_not_change_max_sum_count() {
    let mut a = WcetTable::new();
    let mut b = WcetTable::new();
    a.record(5, 70);
    a.record(5, 30);
    b.record(5, 30);
    b.record(5, 70);
    let (x, y) = (a.get(5).unwrap(), b.get(5).unwrap());
    assert_eq!((x.max_cycles, x.sum_cycles, x.count), (y.max_cycles, y.sum_cycles, y.count));
    assert_eq!((x.last_cycles, y.last_cycles), (30, 70));
    assert!(x.max_cycles >= x.last_cycles && x.sum_cycles >= x.max_cycles as u64);
}

#[test]
fn zero_streak_limit_trips_on_every_overrun() {
    let mut t = WcetTable::new();
    assert!(t.record_and_check(1, 2000, true, 1000, 0));
    assert!(t.record_and_check(1, 2000, true, 1000, 0));
    assert!(!t.record_and_check(1, 500, true, 1000, 0));
}

#[test]
fn streak_counts_overruns_since_last_in_budget_check() {
    let mut t = WcetTable::new();
    t.record_and_check(6, 2000, true, 1000, 10);
    t.record_and_check(6, 500, true, 1000, 10);
    t.record_and_check(6, 2000, true, 1000, 10);
    t.record(6, 9000);
    t.record_and_check(6, 2000, false, 1000, 10);
    t.record_and_check(5, 100, true, 1000, 10);
    t.record_and_check(6, 3000, true, 1000, 10);
    assert_eq!(t.overrun_streak(6), 2);
}

#[test]
fn mean_never_exceeds_worst_case() {
    let mut t = WcetTable::new();
    for c in [10u32, 400, 7, 399, 1] {
        t.record(0, c);
    }
    let s = t.get(0).unwrap();
    assert!(s.mean_cycles() <= s.max_cycles);
    assert_eq!(s.mean_cycles(), 163);
}
