//! Observed worst-case execution time bookkeeping for the control loop.
//!
//! Per control state the table keeps the largest, the latest, the summed and the
//! counted cycle measurements, plus a streak of consecutive deadline overruns.
//! These are measurements (maximum observed over many runs), not a static bound.

use vstd::prelude::*;

verus! {

/// Number of control-loop states whose timing is tracked.
pub const N_STATES: usize = 14;

/// Sysclk in Hz, used by callers to convert cycles to microseconds.
pub const SYSCLK_HZ: u32 = 64_000_000;

/// Per-state timing statistics, all in CPU cycles.
#[derive(Clone, Copy, Debug, PartialEq, Eq)]
pub struct StateTiming {
    /// Largest measurement seen (observed worst case).
    pub max_cycles: u32,
    /// Most recent measurement.
    pub last_cycles: u32,
    /// Sum of all measurements (saturating), for the mean.
    pub sum_cycles: u64,
    /// Number of measurements (saturating).
    pub count: u32,
}

/// Largest of two cycle counts.
pub open spec fn max_u32(a: u32, b: u32) -> u32 {
    if a < b { b } else { a }
}

impl StateTiming {
    /// The statistics after one more measurement of `cycles`.
    pub open spec fn recorded(self, cycles: u32) -> StateTiming {
        StateTiming {
            max_cycles: max_u32(self.max_cycles, cycles),
            last_cycles: cycles,
            sum_cycles: self.sum_cycles.saturating_add(cycles as u64),
            count: self.count.saturating_add(1),
        }
    }

    /// Integer mean of the measurements (0 before any measurement), truncated to 32 bits.
    pub open spec fn spec_mean(self) -> u32 {
        if self.count == 0 {
            0
        } else {
            (self.sum_cycles / (self.count as u64)) as u32
        }
    }

    /// The statistics of a state that was never measured.
    pub fn new() -> (r: StateTiming)
        ensures
            r == (StateTiming { max_cycles: 0, last_cycles: 0, sum_cycles: 0, count: 0 }),
    {
        StateTiming { max_cycles: 0, last_cycles: 0, sum_cycles: 0, count: 0 }
    }

    /// Mean cycles per measurement; 0 when nothing was measured.
    pub fn mean_cycles(&self) -> (r: u32)
        ensures
            r == self.spec_mean(),
    {
        if self.count == 0 {
            0
        } else {
            (self.sum_cycles / (self.count as u64)) as u32
        }
    }
}

/// What every recorded timing satisfies: the worst case is at least the latest
/// measurement, the sum at least the worst case and (while the count has not
/// saturated) at most count times the worst case, and nothing is set before the
/// first measurement.
pub open spec fn timing_consistent(t: StateTiming) -> bool {
    &&& t.max_cycles >= t.last_cycles
    &&& t.sum_cycles >= t.max_cycles
    &&& t.count < u32::MAX ==> t.sum_cycles <= t.count * t.max_cycles
    &&& t.count == 0 ==> t == (StateTiming { max_cycles: 0, last_cycles: 0, sum_cycles: 0, count: 0 })
}

/// Largest `max_cycles` over a sequence of timings (0 for an empty sequence).
pub open spec fn seq_max_cycles(s: Seq<StateTiming>) -> u32
    decreases s.len(),
{
    if s.len() == 0 {
        0
    } else {
        max_u32(seq_max_cycles(s.drop_last()), s.last().max_cycles)
    }
}

/// What a [`WcetTable`] holds: one timing and one overrun streak per state.
pub struct WcetView {
    pub timings: Seq<StateTiming>,
    pub streaks: Seq<u32>,
}

/// The timing table: one `StateTiming` and one overrun streak per state index.
pub struct WcetTable {
    states: Vec<StateTiming>,
    /// Consecutive-overrun counter per state. Reset to 0 on any in-budget tick;
    /// incremented on an overrun.
    overrun_streak: Vec<u32>,
}

impl View for WcetTable {
    type V = WcetView;

    closed spec fn view(&self) -> WcetView {
        WcetView { timings: self.states@, streaks: self.overrun_streak@ }
    }
}

/// The table after recording `cycles` for `idx` (no change for an unknown index).
pub open spec fn recorded_view(v: WcetView, idx: usize, cycles: u32) -> WcetView {
    if idx < N_STATES {
        WcetView { timings: v.timings.update(idx as int, v.timings[idx as int].recorded(cycles)), streaks: v.streaks }
    } else {
        v
    }
}

/// The overrun streak of `idx` after a deadline check of `cycles` against `budget`.
pub open spec fn next_streak(streak: u32, cycles: u32, budget: u32) -> u32 {
    if cycles > budget {
        streak.saturating_add(1)
    } else {
        0
    }
}

/// The table after `record_and_check(idx, cycles, has_deadline, budget, _)`.
pub open spec fn checked_view(v: WcetView, idx: usize, cycles: u32, has_deadline: bool, budget: u32) -> WcetView {
    WcetView {
        timings: recorded_view(v, idx, cycles).timings,
        streaks: if idx < N_STATES && has_deadline {
            v.streaks.update(idx as int, next_streak(v.streaks[idx as int], cycles, budget))
        } else {
            v.streaks
        },
    }
}

/// One call on a timing table, for stating what a history of calls leaves behind.
pub enum WcetCall {
    /// `record(idx, cycles)`.
    Record { idx: usize, cycles: u32 },
    /// `record_and_check(idx, cycles, has_deadline, budget, limit)`.
    Check { idx: usize, cycles: u32, has_deadline: bool, budget: u32, limit: u32 },
}

/// The table after one call.
pub open spec fn call_view(v: WcetView, c: WcetCall) -> WcetView {
    match c {
        WcetCall::Record { idx, cycles } => recorded_view(v, idx, cycles),
        WcetCall::Check { idx, cycles, has_deadline, budget, .. } => checked_view(v, idx, cycles, has_deadline, budget),
    }
}

/// The table after a history of calls, in order.
pub open spec fn run_calls(v: WcetView, calls: Seq<WcetCall>) -> WcetView
    decreases calls.len(),
{
    if calls.len() == 0 {
        v
    } else {
        call_view(run_calls(v, calls.drop_last()), calls.last())
    }
}

/// Overrun checks of state `i` since its last in-budget check (over the whole
/// history when there was none); other calls do not count.
pub open spec fn overruns_since_reset(calls: Seq<WcetCall>, i: int) -> nat
    decreases calls.len(),
{
    if calls.len() == 0 {
        0
    } else {
        let rest = overruns_since_reset(calls.drop_last(), i);
        match calls.last() {
            WcetCall::Check { idx, cycles, has_deadline, budget, .. } => if idx == i && has_deadline {
                if cycles > budget { rest + 1 } else { 0 }
            } else {
                rest
            },
            WcetCall::Record { .. } => rest,
        }
    }
}

impl WcetTable {
    /// The table is well formed: exactly one entry per state.
    pub closed spec fn wf(&self) -> bool {
        &&& self.states@.len() == N_STATES
        &&& self.overrun_streak@.len() == N_STATES
        &&& forall|i: int| 0 <= i < N_STATES ==> timing_consistent(#[trigger] self.states@[i])
    }

    /// Every state of a well-formed table is consistent: worst case at least the
    /// latest measurement, sum at least the worst case, all zero before any record.
    pub proof fn lemma_timings_consistent(&self)
        requires
            self.wf(),
        ensures
            forall|i: int| 0 <= i < N_STATES ==> timing_consistent(#[trigger] self@.timings[i]),
    {
    }

    /// A well-formed table holds one timing and one overrun streak per state.
    pub proof fn lemma_wf_lengths(&self)
        requires
            self.wf(),
        ensures
            self@.timings.len() == N_STATES,
            self@.streaks.len() == N_STATES,
    {
    }

    /// An empty table: every state unmeasured, every streak 0.
    pub fn new() -> (r: WcetTable)
        ensures
            r.wf(),
            r@.timings == Seq::new(N_STATES as nat, |i: int| StateTiming { max_cycles: 0, last_cycles: 0, sum_cycles: 0, count: 0 }),
            r@.streaks == Seq::new(N_STATES as nat, |i: int| 0u32),
    {
        let mut states: Vec<StateTiming> = Vec::new();
        let mut streaks: Vec<u32> = Vec::new();
        let mut i: usize = 0;
        while i < N_STATES
            invariant
                i <= N_STATES,
                states@.len() == i,
                streaks@.len() == i,
                forall|j: int| 0 <= j < i ==> states@[j] == (StateTiming { max_cycles: 0, last_cycles: 0, sum_cycles: 0, count: 0 }),
                forall|j: int| 0 <= j < i ==> streaks@[j] == 0u32,
            decreases N_STATES - i,
        {
            states.push(StateTiming::new());
            streaks.push(0);
            i = i + 1;
        }
        let r = WcetTable { states, overrun_streak: streaks };
        assert(r@.timings =~= Seq::new(N_STATES as nat, |i: int| StateTiming { max_cycles: 0, last_cycles: 0, sum_cycles: 0, count: 0 }));
        assert(r@.streaks =~= Seq::new(N_STATES as nat, |i: int| 0u32));
        r
    }

    /// Record an elapsed measurement for a state index; unknown indices are ignored.
    pub fn record(&mut self, state_idx: usize, cycles: u32)
        requires
            old(self).wf(),
        ensures
            final(self).wf(),
            final(self)@ == recorded_view(old(self)@, state_idx, cycles),
    {
        if state_idx >= N_STATES {
            return;
        }
        let s = self.states[state_idx];
        let max_cycles = if cycles > s.max_cycles { cycles } else { s.max_cycles };
        let updated = StateTiming {
            max_cycles,
            last_cycles: cycles,
            sum_cycles: s.sum_cycles.saturating_add(cycles as u64),
            count: s.count.saturating_add(1),
        };
        proof {
            lemma_recorded_consistent(s, cycles);
        }
        self.states.set(state_idx, updated);
        assert(self@.timings =~= old(self)@.timings.update(state_idx as int, s.recorded(cycles)));
    }

    /// The timing of a state, or `None` for an index outside the table.
    pub fn get(&self, state_idx: usize) -> (r: Option<StateTiming>)
        requires
            self.wf(),
        ensures
            state_idx < N_STATES ==> r == Some(self@.timings[state_idx as int]),
            state_idx >= N_STATES ==> r is None,
    {
        if state_idx < self.states.len() {
            Some(self.states[state_idx])
        } else {
            None
        }
    }

    /// Worst case across all states: the headline number.
    pub fn global_max_cycles(&self) -> (r: u32)
        requires
            self.wf(),
        ensures
            r == seq_max_cycles(self@.timings),
    {
        let mut best: u32 = 0;
        let mut i: usize = 0;
        while i < self.states.len()
            invariant
                i <= self.states@.len(),
                best == seq_max_cycles(self.states@.subrange(0, i as int)),
            decreases self.states@.len() - i,
        {
            assert(self.states@.subrange(0, (i + 1) as int).drop_last() =~= self.states@.subrange(0, i as int));
            let m = self.states[i].max_cycles;
            if m > best {
                best = m;
            }
            i = i + 1;
        }
        assert(self.states@.subrange(0, self.states@.len() as int) =~= self.states@);
        best
    }

    /// Record the measurement, then run the deadline check: returns true exactly when
    /// this overrun makes a deadline state's consecutive-overrun streak reach
    /// `streak_limit`, so the trip fires once, not on every later overrun. A limit of 0
    /// is already reached before any overrun: then every overrun trips.
    pub fn record_and_check(
        &mut self,
        state_idx: usize,
        cycles: u32,
        has_deadline: bool,
        budget_cycles: u32,
        streak_limit: u32,
    ) -> (tripped: bool)
        requires
            old(self).wf(),
        ensures
            final(self).wf(),
            final(self)@.timings == recorded_view(old(self)@, state_idx, cycles).timings,
            state_idx >= N_STATES || !has_deadline ==> {
                &&& final(self)@.streaks == old(self)@.streaks
                &&& !tripped
            },
            final(self)@ == checked_view(old(self)@, state_idx, cycles, has_deadline, budget_cycles),
            state_idx < N_STATES && has_deadline ==> {
                let s = next_streak(old(self)@.streaks[state_idx as int], cycles, budget_cycles);
                &&& final(self)@.streaks == old(self)@.streaks.update(state_idx as int, s)
                &&& tripped == (cycles > budget_cycles && (s == streak_limit || streak_limit == 0))
            },
    {
        self.record(state_idx, cycles);
        if state_idx >= N_STATES || !has_deadline {
            return false;
        }
        if cycles > budget_cycles {
            let s = self.overrun_streak[state_idx].saturating_add(1);
            self.overrun_streak.set(state_idx, s);
            s == streak_limit || streak_limit == 0
        } else {
            self.overrun_streak.set(state_idx, 0);
            false
        }
    }

    /// Current overrun streak for a state (diagnostic); 0 for an unknown index.
    pub fn overrun_streak(&self, state_idx: usize) -> (r: u32)
        requires
            self.wf(),
        ensures
            state_idx < N_STATES ==> r == self@.streaks[state_idx as int],
            state_idx >= N_STATES ==> r == 0,
    {
        if state_idx < self.overrun_streak.len() {
            self.overrun_streak[state_idx]
        } else {
            0
        }
    }
}

/// A scoped cycle measurement: holds the cycle counter read at the start; the
/// elapsed count at the end is the wrapping difference, so one counter wrap is harmless.
pub struct CycleTimer {
    start: u32,
}

impl CycleTimer {
    /// Begin a measurement at the cycle-counter reading `now`.
    pub fn start(now: u32) -> (r: CycleTimer)
        ensures
            r.started_at() == now,
    {
        CycleTimer { start: now }
    }

    pub closed spec fn started_at(self) -> u32 {
        self.start
    }

    /// End the measurement at the reading `now`: elapsed cycles, wrapping-safe.
    pub fn stop(self, now: u32) -> (elapsed: u32)
        ensures
            elapsed == now.wrapping_sub(self.started_at()),
    {
        now.wrapping_sub(self.start)
    }
}

// ── laws ──

/// Recording never lowers the observed worst case, and the worst case covers the new measurement.
pub proof fn lemma_record_max_monotone(t: StateTiming, cycles: u32)
    ensures
        t.recorded(cycles).max_cycles >= t.max_cycles,
        t.recorded(cycles).max_cycles >= cycles,
        t.recorded(cycles).max_cycles == t.max_cycles || t.recorded(cycles).max_cycles == cycles,
{
}

/// Recording keeps a timing consistent.
pub proof fn lemma_recorded_consistent(t: StateTiming, cycles: u32)
    requires
        timing_consistent(t),
    ensures
        timing_consistent(t.recorded(cycles)),
{
    let r = t.recorded(cycles);
    if r.count < u32::MAX {
        let c = t.count as int;
        let m = t.max_cycles as int;
        let m2 = r.max_cycles as int;
        assert(c < u32::MAX);
        assert(t.sum_cycles <= c * m);
        assert(c * m <= c * m2) by (nonlinear_arith)
            requires 0 <= c, 0 <= m <= m2;
        assert(c * m2 <= 0xFFFF_FFFE * 0xFFFF_FFFF) by (nonlinear_arith)
            requires 0 <= c <= 0xFFFF_FFFE, 0 <= m2 <= 0xFFFF_FFFF;
        assert(t.sum_cycles + cycles <= u64::MAX);
        assert(r.sum_cycles == t.sum_cycles + cycles);
        assert(r.count == c + 1);
        assert((c + 1) * m2 == c * m2 + m2) by (nonlinear_arith);
    }
}

/// While the count has not saturated, the mean never exceeds the worst case.
pub proof fn lemma_mean_at_most_max(t: StateTiming)
    requires
        timing_consistent(t),
        t.count < u32::MAX,
    ensures
        t.spec_mean() <= t.max_cycles,
{
    if t.count > 0 {
        let c = t.count as int;
        let m = t.max_cycles as int;
        let s = t.sum_cycles as int;
        assert(s / c <= m) by (nonlinear_arith)
            requires 0 < c, 0 <= s <= c * m;
        assert(t.sum_cycles / (t.count as u64) == s / c);
    }
}

/// The overrun streak of a state is the number of its overrun checks since its last
/// in-budget check (saturating at `u32::MAX`), over any history of calls on a table
/// whose streak for that state started at 0, such as a new table; plain records,
/// checks without a deadline and calls for other states leave it unchanged.
pub proof fn lemma_streak_is_overruns_since_reset(v: WcetView, calls: Seq<WcetCall>, i: int)
    requires
        v.streaks.len() == N_STATES,
        0 <= i < N_STATES,
        v.streaks[i] == 0,
    ensures
        run_calls(v, calls).streaks.len() == N_STATES,
        run_calls(v, calls).streaks[i] == (if overruns_since_reset(calls, i) < u32::MAX {
            overruns_since_reset(calls, i)
        } else {
            u32::MAX as nat
        }),
    decreases calls.len(),
{
    if calls.len() > 0 {
        lemma_streak_is_overruns_since_reset(v, calls.drop_last(), i);
    }
}

/// Two measurements recorded in either order give the same worst case, sum and count
/// (the worst case being the largest of the old one and both measurements); only the
/// latest measurement differs.
pub proof fn lemma_record_order_independent(t: StateTiming, a: u32, b: u32)
    ensures
        t.recorded(a).recorded(b).max_cycles == t.recorded(b).recorded(a).max_cycles,
        t.recorded(a).recorded(b).max_cycles == max_u32(max_u32(t.max_cycles, a), b),
        t.recorded(a).recorded(b).sum_cycles == t.recorded(b).recorded(a).sum_cycles,
        t.recorded(a).recorded(b).count == t.recorded(b).recorded(a).count,
        t.recorded(a).recorded(b).last_cycles == b,
        t.recorded(b).recorded(a).last_cycles == a,
{
}

/// The global worst case bounds every state's worst case and is attained by one of them
/// (or is 0 for no states).
pub proof fn lemma_global_max_is_max(s: Seq<StateTiming>)
    ensures
        forall|i: int| 0 <= i < s.len() ==> seq_max_cycles(s) >= #[trigger] s[i].max_cycles,
        s.len() == 0 ==> seq_max_cycles(s) == 0,
        s.len() > 0 ==> exists|i: int| 0 <= i < s.len() && seq_max_cycles(s) == #[trigger] s[i].max_cycles,
    decreases s.len(),
{
    if s.len() > 0 {
        lemma_global_max_is_max(s.drop_last());
        assert forall|i: int| 0 <= i < s.len() implies seq_max_cycles(s) >= #[trigger] s[i].max_cycles by {
            if i < s.len() - 1 {
                assert(s.drop_last()[i] == s[i]);
            }
        }
        if seq_max_cycles(s) == s.last().max_cycles {
            assert(s[s.len() - 1].max_cycles == seq_max_cycles(s));
        } else {
            let j = choose|j: int| 0 <= j < s.drop_last().len() && seq_max_cycles(s.drop_last()) == #[trigger] s.drop_last()[j].max_cycles;
            assert(s[j] == s.drop_last()[j]);
        }
    }
}

/// Starting from a clear streak, `k` consecutive overruns give a streak of `k`
/// (below the saturation point), and the check trips at exactly the `limit`-th of them.
pub proof fn lemma_streak_counts_overruns(k: nat, budget: u32, overrun: u32, limit: u32)
    requires
        overrun > budget,
        k <= u32::MAX,
    ensures
        streak_after(k, overrun, budget) == k,
        (streak_after(k, overrun, budget) == limit) <==> (k == limit),
    decreases k,
{
    if k > 0 {
        lemma_streak_counts_overruns((k - 1) as nat, budget, overrun, limit);
    }
}

/// The streak after `k` consecutive checks of the same measurement, starting from 0.
pub open spec fn streak_after(k: nat, cycles: u32, budget: u32) -> u32
    decreases k,
{
    if k == 0 {
        0
    } else {
        next_streak(streak_after((k - 1) as nat, cycles, budget), cycles, budget)
    }
}

/// One in-budget measurement clears any overrun streak.
pub proof fn lemma_in_budget_clears(streak: u32, cycles: u32, budget: u32)
    requires
        cycles <= budget,
    ensures
        next_streak(streak, cycles, budget) == 0,
{
}

} // verus!
