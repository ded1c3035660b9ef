use guvnuh::load_bank::{LoadBank, LoadLevel, LoadStep, RelayOp};

/// Apply relay writes to coil states, checking the wiring at every step.
fn apply(mut coils: (bool, bool), ops: &[RelayOp], graceful: bool) -> (bool, bool) {
    for op in ops {
        match op {
            RelayOp::Close(LoadStep::Step1) => coils.0 = true,
            RelayOp::Close(LoadStep::Step2) => {
                assert!(coils.0, "step 2 closed without step 1");
                coils.1 = true
            }
            RelayOp::Open(LoadStep::Step1) => coils.0 = false,
            RelayOp::Open(LoadStep::Step2) => coils.1 = false,
        }
        if graceful {
            assert!(!coils.1 || coils.0, "invalid wiring state passed through");
        }
    }
    coils
}

fn coils_of(l: LoadLevel) -> (bool, bool) {
    match l {
        LoadLevel::NoLoad => (false, false),
        LoadLevel::One => (true, false),
        LoadLevel::Both => (true, true),
    }
}

#[test]
fn starts_open() {
    assert_eq!(LoadBank::new().level(), LoadLevel::NoLoad);
}

#[test]
fn step_up_closes_one_then_two() {
    let mut b = LoadBank::new();
    assert_eq!(b.step_up(), vec![RelayOp::Close(LoadStep::Step1)]);
    assert_eq!(b.level(), LoadLevel::One);
    assert_eq!(b.step_up(), vec![RelayOp::Close(LoadStep::Step2)]);
    assert_eq!(b.level(), LoadLevel::Both);
    assert_eq!(b.step_up(), vec![]);
    assert_eq!(b.level(), LoadLevel::Both);
}

#[test]
fn step_down_opens_two_then_one() {
    let mut b = LoadBank::new();
    b.set_level(LoadLevel::Both);
    assert_eq!(b.step_down(), vec![RelayOp::Open(LoadStep::Step2)]);
    assert_eq!(b.level(), LoadLevel::One);
    assert_eq!(b.step_down(), vec![RelayOp::Open(LoadStep::Step1)]);
    assert_eq!(b.level(), LoadLevel::NoLoad);
    assert_eq!(b.step_down(), vec![]);
}

#[test]
fn set_level_takes_ordered_path_between_all_levels() {
    let levels = [LoadLevel::NoLoad, LoadLevel::One, LoadLevel::Both];
    for from in levels {
        for to in levels {
            let mut b = LoadBank::new();
            b.set_level(from);
            let ops = b.set_level(to);
            assert_eq!(b.level(), to);
            assert_eq!(apply(coils_of(from), &ops, true), coils_of(to));
        }
    }
}

#[test]
fn set_level_none_to_both() {
    let mut b = LoadBank::new();
    assert_eq!(b.set_level(LoadLevel::Both), vec![RelayOp::Close(LoadStep::Step1), RelayOp::Close(LoadStep::Step2)]);
    assert_eq!(b.set_level(LoadLevel::NoLoad), vec![RelayOp::Open(LoadStep::Step2), RelayOp::Open(LoadStep::Step1)]);
}

#[test]
fn emergency_shed_opens_step_one_first() {
    let mut b = LoadBank::new();
    b.set_level(LoadLevel::Both);
    let ops = b.emergency_shed();
    assert_eq!(ops, vec![RelayOp::Open(LoadStep::Step1), RelayOp::Open(LoadStep::Step2)]);
    assert_eq!(b.level(), LoadLevel::NoLoad);
    assert_eq!(apply((true, true), &ops, false), (false, false));
}

#[test]
fn force_open_from_one() {
    let mut b = LoadBank::new();
    b.step_up();
    assert_eq!(b.force_open(), vec![RelayOp::Open(LoadStep::Step1), RelayOp::Open(LoadStep::Step2)]);
    assert_eq!(b.level(), LoadLevel::NoLoad);
}
