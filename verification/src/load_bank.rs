//! The two-step resistive load bank and its ordered switching.
//!
//! Step 2 draws its ground return through step 1, so step 2 may only be closed
//! while step 1 is closed. The bank's level makes the impossible "step 2 only"
//! state unrepresentable; each operation returns the relay writes to perform, in
//! order, and the laws below show that the graceful paths never pass through an
//! invalid wiring state and that step 2 is never closed without step 1.

use vstd::prelude::*;

verus! {

/// How many load steps are engaged.
#[derive(Clone, Copy, PartialEq, Eq, Debug, Structural)]
pub enum LoadLevel {
    /// Both relays open.
    NoLoad,
    /// Step 1 closed only.
    One,
    /// Step 1 and step 2 closed.
    Both,
}

/// One of the two load-step relays.
#[derive(Clone, Copy, PartialEq, Eq, Debug, Structural)]
pub enum LoadStep {
    Step1,
    Step2,
}

/// A single relay write: close (energize) or open (de-energize) one step.
#[derive(Clone, Copy, PartialEq, Eq, Debug, Structural)]
pub enum RelayOp {
    Close(LoadStep),
    Open(LoadStep),
}

/// The two relay coils: true means closed.
pub struct Relays {
    pub step_1: bool,
    pub step_2: bool,
}

/// The coil states that a level stands for.
pub open spec fn relays_of(level: LoadLevel) -> Relays {
    match level {
        LoadLevel::NoLoad => Relays { step_1: false, step_2: false },
        LoadLevel::One => Relays { step_1: true, step_2: false },
        LoadLevel::Both => Relays { step_1: true, step_2: true },
    }
}

/// Wiring-valid coil states: step 2 never closed without step 1.
pub open spec fn wiring_ok(r: Relays) -> bool {
    r.step_2 ==> r.step_1
}

/// Coil states after one relay write.
pub open spec fn apply_op(r: Relays, op: RelayOp) -> Relays {
    match op {
        RelayOp::Close(LoadStep::Step1) => Relays { step_1: true, step_2: r.step_2 },
        RelayOp::Close(LoadStep::Step2) => Relays { step_1: r.step_1, step_2: true },
        RelayOp::Open(LoadStep::Step1) => Relays { step_1: false, step_2: r.step_2 },
        RelayOp::Open(LoadStep::Step2) => Relays { step_1: r.step_1, step_2: false },
    }
}

/// Coil states after a sequence of relay writes, in order.
pub open spec fn apply_ops(r: Relays, ops: Seq<RelayOp>) -> Relays
    decreases ops.len(),
{
    if ops.len() == 0 {
        r
    } else {
        apply_ops(apply_op(r, ops[0]), ops.drop_first())
    }
}

/// Every coil state passed through while applying `ops` (the start included) is wiring-valid.
pub open spec fn graceful(r: Relays, ops: Seq<RelayOp>) -> bool
    decreases ops.len(),
{
    &&& wiring_ok(r)
    &&& (ops.len() > 0 ==> graceful(apply_op(r, ops[0]), ops.drop_first()))
}

/// Step 2 is closed only at moments when step 1 is already closed.
pub open spec fn closes_in_order(r: Relays, ops: Seq<RelayOp>) -> bool
    decreases ops.len(),
{
    ops.len() > 0 ==> {
        &&& (ops[0] == RelayOp::Close(LoadStep::Step2) ==> r.step_1)
        &&& closes_in_order(apply_op(r, ops[0]), ops.drop_first())
    }
}

/// Rank of a level: how many steps are engaged.
pub open spec fn rank(level: LoadLevel) -> int {
    match level {
        LoadLevel::NoLoad => 0,
        LoadLevel::One => 1,
        LoadLevel::Both => 2,
    }
}

/// The level one step up (saturating at `Both`).
pub open spec fn level_up(level: LoadLevel) -> LoadLevel {
    match level {
        LoadLevel::NoLoad => LoadLevel::One,
        _ => LoadLevel::Both,
    }
}

/// The level one step down (saturating at `NoLoad`).
pub open spec fn level_down(level: LoadLevel) -> LoadLevel {
    match level {
        LoadLevel::Both => LoadLevel::One,
        _ => LoadLevel::NoLoad,
    }
}

/// Relay writes of one step up: close 1 first, then 2 on the next step.
pub open spec fn up_ops(level: LoadLevel) -> Seq<RelayOp> {
    match level {
        LoadLevel::NoLoad => seq![RelayOp::Close(LoadStep::Step1)],
        LoadLevel::One => seq![RelayOp::Close(LoadStep::Step2)],
        LoadLevel::Both => seq![],
    }
}

/// Relay writes of one step down: open 2 first, then 1 on the next step.
pub open spec fn down_ops(level: LoadLevel) -> Seq<RelayOp> {
    match level {
        LoadLevel::Both => seq![RelayOp::Open(LoadStep::Step2)],
        LoadLevel::One => seq![RelayOp::Open(LoadStep::Step1)],
        LoadLevel::NoLoad => seq![],
    }
}

/// The ordered path of relay writes from one level to another, one step at a time.
pub open spec fn path(from: LoadLevel, to: LoadLevel) -> Seq<RelayOp>
    decreases (if rank(from) < rank(to) { rank(to) - rank(from) } else { rank(from) - rank(to) }),
{
    if rank(from) < rank(to) {
        up_ops(from) + path(level_up(from), to)
    } else if rank(from) > rank(to) {
        down_ops(from) + path(level_down(from), to)
    } else {
        seq![]
    }
}

/// Relay writes of an emergency shed: open 1 first (which drops 2 with it), then 2.
pub open spec fn shed_ops() -> Seq<RelayOp> {
    seq![RelayOp::Open(LoadStep::Step1), RelayOp::Open(LoadStep::Step2)]
}

/// Owns the load level and enforces the ordered-switching wiring constraint.
/// All load changes go through here; the returned relay writes are performed in order.
pub struct LoadBank {
    level: LoadLevel,
}

impl View for LoadBank {
    type V = LoadLevel;

    closed spec fn view(&self) -> LoadLevel {
        self.level
    }
}

impl LoadBank {
    /// A bank with both relays open.
    pub fn new() -> (r: LoadBank)
        ensures
            r@ == LoadLevel::NoLoad,
    {
        LoadBank { level: LoadLevel::NoLoad }
    }

    /// The current level.
    pub fn level(&self) -> (r: LoadLevel)
        ensures
            r == self@,
    {
        self.level
    }

    /// Engage the next step up (NoLoad to One to Both); no writes when already at Both.
    pub fn step_up(&mut self) -> (ops: Vec<RelayOp>)
        ensures
            final(self)@ == level_up(old(self)@),
            ops@ == up_ops(old(self)@),
    {
        let mut ops: Vec<RelayOp> = Vec::new();
        match self.level {
            LoadLevel::NoLoad => {
                ops.push(RelayOp::Close(LoadStep::Step1));
                self.level = LoadLevel::One;
            },
            LoadLevel::One => {
                ops.push(RelayOp::Close(LoadStep::Step2));
                self.level = LoadLevel::Both;
            },
            LoadLevel::Both => {},
        }
        assert(ops@ =~= up_ops(old(self)@));
        ops
    }

    /// Shed one step down gracefully (Both to One to NoLoad): opens 2 before 1.
    /// No writes when already at NoLoad.
    pub fn step_down(&mut self) -> (ops: Vec<RelayOp>)
        ensures
            final(self)@ == level_down(old(self)@),
            ops@ == down_ops(old(self)@),
    {
        let mut ops: Vec<RelayOp> = Vec::new();
        match self.level {
            LoadLevel::Both => {
                ops.push(RelayOp::Open(LoadStep::Step2));
                self.level = LoadLevel::One;
            },
            LoadLevel::One => {
                ops.push(RelayOp::Open(LoadStep::Step1));
                self.level = LoadLevel::NoLoad;
            },
            LoadLevel::NoLoad => {},
        }
        assert(ops@ =~= down_ops(old(self)@));
        ops
    }

    /// Go to `target` one valid step at a time.
    pub fn set_level(&mut self, target: LoadLevel) -> (ops: Vec<RelayOp>)
        ensures
            final(self)@ == target,
            ops@ == path(old(self)@, target),
    {
        let mut ops: Vec<RelayOp> = Vec::new();
        let ghost start = self.level;
        while self.level != target
            invariant
                ops@ + path(self.level, target) == path(start, target),
            decreases (if rank(self.level) < rank(target) { rank(target) - rank(self.level) } else { rank(self.level) - rank(target) }),
        {
            let ghost before = self.level;
            let going_up = match (self.level, target) {
                (LoadLevel::NoLoad, _) => true,
                (LoadLevel::One, LoadLevel::Both) => true,
                _ => false,
            };
            let mut step = if going_up { self.step_up() } else { self.step_down() };
            assert(path(before, target) == step@ + path(self.level, target));
            ops.append(&mut step);
            assert(ops@ + path(self.level, target) =~= path(start, target));
        }
        assert(path(self.level, target) =~= Seq::<RelayOp>::empty());
        assert(ops@ =~= path(start, target));
        ops
    }

    /// Immediate shed for fault, E-stop or load rejection: opens step 1 first, which
    /// cuts step 2 by removing its ground return, then de-energizes step 2.
    pub fn emergency_shed(&mut self) -> (ops: Vec<RelayOp>)
        ensures
            final(self)@ == LoadLevel::NoLoad,
            ops@ == shed_ops(),
    {
        let mut ops: Vec<RelayOp> = Vec::new();
        ops.push(RelayOp::Open(LoadStep::Step1));
        ops.push(RelayOp::Open(LoadStep::Step2));
        self.level = LoadLevel::NoLoad;
        assert(ops@ =~= shed_ops());
        ops
    }

    /// Force both open (init or known-safe resets): step 1 then step 2.
    pub fn force_open(&mut self) -> (ops: Vec<RelayOp>)
        ensures
            final(self)@ == LoadLevel::NoLoad,
            ops@ == shed_ops(),
    {
        let mut ops: Vec<RelayOp> = Vec::new();
        ops.push(RelayOp::Open(LoadStep::Step1));
        ops.push(RelayOp::Open(LoadStep::Step2));
        self.level = LoadLevel::NoLoad;
        assert(ops@ =~= shed_ops());
        ops
    }
}

// ── laws ──

proof fn lemma_apply_ops_append(r: Relays, a: Seq<RelayOp>, b: Seq<RelayOp>)
    ensures
        apply_ops(r, a + b) == apply_ops(apply_ops(r, a), b),
    decreases a.len(),
{
    if a.len() > 0 {
        assert((a + b).drop_first() =~= a.drop_first() + b);
        lemma_apply_ops_append(apply_op(r, a[0]), a.drop_first(), b);
    } else {
        assert(a + b =~= b);
    }
}

proof fn lemma_graceful_append(r: Relays, a: Seq<RelayOp>, b: Seq<RelayOp>)
    requires
        graceful(r, a),
        graceful(apply_ops(r, a), b),
    ensures
        graceful(r, a + b),
    decreases a.len(),
{
    if a.len() > 0 {
        assert((a + b).drop_first() =~= a.drop_first() + b);
        lemma_graceful_append(apply_op(r, a[0]), a.drop_first(), b);
    } else {
        assert(a + b =~= b);
    }
}

proof fn lemma_closes_append(r: Relays, a: Seq<RelayOp>, b: Seq<RelayOp>)
    requires
        closes_in_order(r, a),
        closes_in_order(apply_ops(r, a), b),
    ensures
        closes_in_order(r, a + b),
    decreases a.len(),
{
    if a.len() > 0 {
        assert((a + b).drop_first() =~= a.drop_first() + b);
        lemma_closes_append(apply_op(r, a[0]), a.drop_first(), b);
    } else {
        assert(a + b =~= b);
    }
}

/// Moving the bank from any level to any other level by `set_level`: every coil state
/// on the way is wiring-valid, step 2 is only closed behind step 1, and the coils end
/// in the state the target level stands for.
pub proof fn lemma_path_is_safe(from: LoadLevel, to: LoadLevel)
    ensures
        graceful(relays_of(from), path(from, to)),
        closes_in_order(relays_of(from), path(from, to)),
        apply_ops(relays_of(from), path(from, to)) == relays_of(to),
    decreases (if rank(from) < rank(to) { rank(to) - rank(from) } else { rank(from) - rank(to) }),
{
    let p = path(from, to);
    if rank(from) < rank(to) {
        let s = up_ops(from);
        lemma_path_is_safe(level_up(from), to);
        assert(apply_ops(relays_of(from), s) == relays_of(level_up(from))) by {
            reveal_with_fuel(apply_ops, 2);
        }
        assert(graceful(relays_of(from), s)) by {
            reveal_with_fuel(graceful, 3);
        }
        assert(closes_in_order(relays_of(from), s)) by {
            reveal_with_fuel(closes_in_order, 3);
        }
        lemma_apply_ops_append(relays_of(from), s, path(level_up(from), to));
        lemma_graceful_append(relays_of(from), s, path(level_up(from), to));
        lemma_closes_append(relays_of(from), s, path(level_up(from), to));
    } else if rank(from) > rank(to) {
        let s = down_ops(from);
        lemma_path_is_safe(level_down(from), to);
        assert(apply_ops(relays_of(from), s) == relays_of(level_down(from))) by {
            reveal_with_fuel(apply_ops, 2);
        }
        assert(graceful(relays_of(from), s)) by {
            reveal_with_fuel(graceful, 3);
        }
        assert(closes_in_order(relays_of(from), s)) by {
            reveal_with_fuel(closes_in_order, 3);
        }
        lemma_apply_ops_append(relays_of(from), s, path(level_down(from), to));
        lemma_graceful_append(relays_of(from), s, path(level_down(from), to));
        lemma_closes_append(relays_of(from), s, path(level_down(from), to));
    } else {
        assert(from == to);
    }
}

/// One step up or down is itself wiring-safe and lands on the coils of the new level.
pub proof fn lemma_single_steps_are_safe(level: LoadLevel)
    ensures
        graceful(relays_of(level), up_ops(level)),
        closes_in_order(relays_of(level), up_ops(level)),
        apply_ops(relays_of(level), up_ops(level)) == relays_of(level_up(level)),
        graceful(relays_of(level), down_ops(level)),
        closes_in_order(relays_of(level), down_ops(level)),
        apply_ops(relays_of(level), down_ops(level)) == relays_of(level_down(level)),
{
    reveal_with_fuel(apply_ops, 2);
    reveal_with_fuel(graceful, 3);
    reveal_with_fuel(closes_in_order, 3);
}

/// An emergency shed from any level opens step 1 before anything else, never closes
/// anything, and leaves both coils open.
pub proof fn lemma_shed_drops_everything(level: LoadLevel)
    ensures
        shed_ops()[0] == RelayOp::Open(LoadStep::Step1),
        closes_in_order(relays_of(level), shed_ops()),
        apply_ops(relays_of(level), shed_ops()) == relays_of(LoadLevel::NoLoad),
{
    reveal_with_fuel(apply_ops, 3);
    reveal_with_fuel(closes_in_order, 3);
}

/// Every level stands for a wiring-valid coil state ("step 2 only" is unrepresentable).
pub proof fn lemma_levels_are_valid(level: LoadLevel)
    ensures
        wiring_ok(relays_of(level)),
{
}

} // verus!
