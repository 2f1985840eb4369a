use logic_circuits::gates::{And, GateKind, GateOutput, Nand, Nor, Not, Or, Xnor, Xor};

fn eval(kind: GateKind, parity: bool, inputs: &[bool]) -> GateOutput {
    kind.evaluate(parity, inputs)
}

#[test]
fn or_settles_on_third_input() {
    let r = eval(GateKind::Or, false, &[false, false, true]);
    assert_eq!(r, GateOutput { out: true, fin: true });
}

#[test]
fn or_settles_when_true_folded_first() {
    let mut state = Or::init_state();
    let first = Or::fold(&mut state, true);
    assert_eq!(first, GateOutput { out: true, fin: true });
    let r = eval(GateKind::Or, false, &[true, false, false]);
    assert_eq!(r, GateOutput { out: true, fin: true });
}

#[test]
fn or_all_false_does_not_settle() {
    let r = eval(GateKind::Or, false, &[false, false, false]);
    assert_eq!(r, GateOutput { out: false, fin: false });
}

#[test]
fn xor_exactly_one_true() {
    assert!(eval(GateKind::Xor, false, &[false, true, false]).out);
    assert!(!eval(GateKind::Xor, false, &[true, true]).out);
    assert!(!eval(GateKind::Xor, false, &[true, true, true]).out);
    assert!(eval(GateKind::Xor, true, &[true, true, true]).out);
    assert!(!eval(GateKind::Xor, false, &[true, true]).fin);
}

#[test]
fn xnor_parity_mode_counts() {
    let cases: [(&[bool], bool); 5] = [
        (&[false, false, false, false], true),
        (&[true, false, true, false], true),
        (&[true, true, true, true], true),
        (&[true, false, false, false], false),
        (&[true, true, false, true], false),
    ];
    for (inputs, expected) in cases.iter() {
        assert_eq!(eval(GateKind::Xnor, true, inputs).out, *expected);
        assert_eq!(Xnor::process(inputs, true), *expected);
    }
}

#[test]
fn xnor_exactly_one_mode() {
    assert!(!Xnor::process(&[false, true, false], false));
    assert!(Xnor::process(&[true, true, true], false));
    assert!(Xnor::process(&[], false));
}

#[test]
fn fold_order_does_not_matter() {
    let a = [true, false, false, true, false];
    let b = [false, false, true, false, true];
    let c = [false, true, true, false, false];
    let kinds = [GateKind::And, GateKind::Or, GateKind::Nand, GateKind::Nor, GateKind::Xor, GateKind::Xnor];
    for kind in kinds.iter() {
        for parity in [false, true] {
            let ra = eval(*kind, parity, &a);
            assert_eq!(ra, eval(*kind, parity, &b));
            assert_eq!(ra, eval(*kind, parity, &c));
        }
    }
}

#[test]
fn monotone_gates_values() {
    assert_eq!(eval(GateKind::And, false, &[true, true]), GateOutput { out: true, fin: false });
    assert_eq!(eval(GateKind::And, false, &[true, false, true]), GateOutput { out: false, fin: true });
    assert_eq!(eval(GateKind::Nand, false, &[true, true]), GateOutput { out: false, fin: false });
    assert_eq!(eval(GateKind::Nand, false, &[true, false]), GateOutput { out: true, fin: true });
    assert_eq!(eval(GateKind::Nor, false, &[false, false]), GateOutput { out: true, fin: false });
    assert_eq!(eval(GateKind::Nor, false, &[false, true]), GateOutput { out: false, fin: true });
    assert_eq!(eval(GateKind::Not, false, &[true]), GateOutput { out: false, fin: true });
    assert_eq!(eval(GateKind::Not, false, &[false]), GateOutput { out: true, fin: true });
}

#[test]
fn no_inputs_gives_default_unsettled() {
    let kinds = [GateKind::And, GateKind::Or, GateKind::Nand, GateKind::Nor, GateKind::Xor, GateKind::Xnor, GateKind::Not];
    for kind in kinds.iter() {
        let r = eval(*kind, false, &[]);
        assert_eq!(r.out, kind.init_state());
        assert!(!r.fin);
    }
    assert!(GateKind::Xnor.init_state());
    assert!(!GateKind::Or.init_state());
}

#[test]
fn single_fold_steps() {
    let mut s = false;
    assert_eq!(And::fold(&mut s, false), GateOutput { out: false, fin: true });
    assert_eq!(Nand::fold(&mut s, false), GateOutput { out: true, fin: true });
    assert_eq!(Nand::fold(&mut s, true), GateOutput { out: false, fin: false });
    assert_eq!(Nor::fold(&mut s, true), GateOutput { out: false, fin: true });
    assert_eq!(Not::fold(&mut s, true), GateOutput { out: false, fin: true });
    assert!(!s);
    assert_eq!(Xor::fold(&mut s, true), GateOutput { out: true, fin: false });
    assert!(s);
    assert_eq!(Xor::fold(&mut s, false), GateOutput { out: true, fin: false });
    assert_eq!(Xor::fold(&mut s, true), GateOutput { out: false, fin: false });
    let mut t = false;
    assert_eq!(Xnor::fold(&mut t, true), GateOutput { out: false, fin: false });
}

#[test]
fn gate_names() {
    assert_eq!(GateKind::Or.id(), "gate_or");
    assert_eq!(GateKind::Nand.display_name(), "NAND gate");
    assert_eq!(Xnor::id(), "xnor");
    assert_eq!(Xnor::name(), "XNOR gate");
    assert_eq!(Xor::extra_toggle_name(), Some("Parity mode"));
}
