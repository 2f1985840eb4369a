use logic_circuits::blueprint::{CircuitImplBox, GateCircuit, TestCircuit};
use logic_circuits::board::{CircuitBoard, EditError, Logic, Stability};
use logic_circuits::gates::GateKind;
use logic_circuits::geometry::{Direction4, Vec2usize};

fn gate(kind: GateKind, inputs: usize) -> CircuitImplBox {
    CircuitImplBox::Gate(GateCircuit { kind, inputs })
}

fn logic(kind: GateKind) -> Logic {
    Logic::Gate { kind, parity: false }
}

fn place(b: &mut CircuitBoard, imp: CircuitImplBox, x: usize, y: usize, l: Logic) -> usize {
    b.place_circuit(imp, Vec2usize::new(x, y), Direction4::Right, false, l).unwrap()
}

/// Sources S and R feeding an SR latch of two NOR gates.
/// Returns the board and the ids (s, r, nor_q, nor_qn) and wires (q, qn).
fn latch(s_on: bool) -> (CircuitBoard, [usize; 4], [usize; 2]) {
    let mut b = CircuitBoard::new(Vec2usize::new(64, 64), 16);
    let s = place(&mut b, gate(GateKind::Or, 0), 0, 0, Logic::Source { on: s_on });
    let r = place(&mut b, gate(GateKind::Or, 0), 0, 4, Logic::Source { on: false });
    let n1 = place(&mut b, gate(GateKind::Nor, 2), 10, 0, logic(GateKind::Nor));
    let n2 = place(&mut b, gate(GateKind::Nor, 2), 10, 4, logic(GateKind::Nor));
    let ws = b.add_wire();
    let wr = b.add_wire();
    let wq = b.add_wire();
    let wqn = b.add_wire();
    b.connect_output(s, ws).unwrap();
    b.connect_output(r, wr).unwrap();
    b.connect_output(n1, wq).unwrap();
    b.connect_output(n2, wqn).unwrap();
    b.connect_input(n1, 0, wr).unwrap();
    b.connect_input(n1, 1, wqn).unwrap();
    b.connect_input(n2, 0, ws).unwrap();
    b.connect_input(n2, 1, wq).unwrap();
    (b, [s, r, n1, n2], [wq, wqn])
}

fn snapshot(b: &CircuitBoard) -> (Vec<Option<bool>>, Vec<Option<bool>>) {
    let outs = (0..b.circuit_count()).map(|c| b.output(c)).collect();
    let wires = (0..b.wire_count()).map(|w| b.wire_state(w)).collect();
    (outs, wires)
}

#[test]
fn inverter_loop_is_reported_unstable() {
    let mut b = CircuitBoard::new(Vec2usize::new(16, 16), 8);
    let n = place(&mut b, gate(GateKind::Not, 1), 0, 0, logic(GateKind::Not));
    let w = b.add_wire();
    b.connect_input(n, 0, w).unwrap();
    b.connect_output(n, w).unwrap();
    assert_eq!(b.update(), Stability::Unstable);
    assert!(b.is_unstable());
}

#[test]
fn inverter_chain_stabilizes() {
    let mut b = CircuitBoard::new(Vec2usize::new(32, 32), 8);
    let src = place(&mut b, gate(GateKind::Or, 0), 0, 0, Logic::Source { on: true });
    let n1 = place(&mut b, gate(GateKind::Not, 1), 5, 0, logic(GateKind::Not));
    let n2 = place(&mut b, gate(GateKind::Not, 1), 10, 0, logic(GateKind::Not));
    let w0 = b.add_wire();
    let w1 = b.add_wire();
    let w2 = b.add_wire();
    b.connect_output(src, w0).unwrap();
    b.connect_input(n1, 0, w0).unwrap();
    b.connect_output(n1, w1).unwrap();
    b.connect_input(n2, 0, w1).unwrap();
    b.connect_output(n2, w2).unwrap();
    assert_eq!(b.update(), Stability::Stable);
    assert!(!b.is_unstable());
    assert_eq!(b.wire_state(w0), Some(true));
    assert_eq!(b.wire_state(w1), Some(false));
    assert_eq!(b.wire_state(w2), Some(true));
    b.set_source(src, false).unwrap();
    assert_eq!(b.update(), Stability::Stable);
    assert_eq!(b.wire_state(w2), Some(false));
    assert_eq!(b.output(n1), Some(true));
}

#[test]
fn iteration_cap_zero_reports_pending_change() {
    let mut b = CircuitBoard::new(Vec2usize::new(16, 16), 0);
    let src = place(&mut b, gate(GateKind::Or, 0), 0, 0, Logic::Source { on: true });
    let n = place(&mut b, gate(GateKind::Or, 1), 5, 0, logic(GateKind::Or));
    let w = b.add_wire();
    b.connect_output(src, w).unwrap();
    b.connect_input(n, 0, w).unwrap();
    assert_eq!(b.update(), Stability::Unstable);
    assert_eq!(b.output(n), Some(false));
    assert_eq!(b.wire_state(w), Some(true));
}

#[test]
fn wire_driven_by_two_outputs_is_their_or() {
    let mut b = CircuitBoard::new(Vec2usize::new(32, 32), 8);
    let a = place(&mut b, gate(GateKind::Or, 0), 0, 0, Logic::Source { on: false });
    let c = place(&mut b, gate(GateKind::Or, 0), 0, 4, Logic::Source { on: true });
    let w = b.add_wire();
    b.connect_output(a, w).unwrap();
    b.connect_output(c, w).unwrap();
    assert_eq!(b.update(), Stability::Stable);
    assert_eq!(b.wire_state(w), Some(true));
    b.set_source(c, false).unwrap();
    b.update();
    assert_eq!(b.wire_state(w), Some(false));
}

#[test]
fn latch_holds_after_set_released() {
    let (mut b, [s, _r, n1, n2], [wq, wqn]) = latch(true);
    assert_eq!(b.update(), Stability::Stable);
    assert_eq!(b.wire_state(wq), Some(true));
    assert_eq!(b.wire_state(wqn), Some(false));
    b.set_source(s, false).unwrap();
    assert_eq!(b.update(), Stability::Stable);
    assert_eq!(b.output(n1), Some(true));
    assert_eq!(b.output(n2), Some(false));
}

#[test]
fn reset_then_update_everything_matches_fresh_board() {
    let (mut a, [s, _r, _n1, _n2], _) = latch(false);
    a.update();
    a.set_source(s, true).unwrap();
    a.update();
    a.set_source(s, false).unwrap();
    a.update();
    a.set_source(s, true).unwrap();
    a.reset();
    let ra = a.update_everything();

    let (mut f, _, _) = latch(true);
    let rf = f.update_everything();
    assert_eq!(ra, rf);
    assert_eq!(snapshot(&a), snapshot(&f));
}

#[test]
fn queue_order_does_not_change_settled_state() {
    let (mut a, [s, ..], _) = latch(true);
    let (mut b, _, _) = latch(true);
    b.set_ordered(true);
    assert!(b.is_ordered());
    assert_eq!(a.update(), b.update());
    assert_eq!(snapshot(&a), snapshot(&b));
    a.set_source(s, false).unwrap();
    b.set_source(s, false).unwrap();
    b.set_ordered(false);
    assert_eq!(a.update(), b.update());
    assert_eq!(snapshot(&a), snapshot(&b));
}

#[test]
fn edit_errors() {
    let mut b = CircuitBoard::new(Vec2usize::new(16, 16), 4);
    let n = place(&mut b, gate(GateKind::And, 2), 0, 0, logic(GateKind::And));
    let w = b.add_wire();
    assert_eq!(b.connect_input(7, 0, w), Err(EditError::NoSuchCircuit));
    assert_eq!(b.connect_input(n, 2, w), Err(EditError::NoSuchPin));
    assert_eq!(b.connect_input(n, 0, w + 1), Err(EditError::NoSuchWire));
    assert_eq!(b.connect_output(n, 9), Err(EditError::NoSuchWire));
    assert_eq!(b.set_source(n, true), Err(EditError::NotASource));
    assert_eq!(b.disconnect_input(n, 3), Err(EditError::NoSuchPin));
    assert_eq!(b.remove_wire(w), Ok(()));
    assert_eq!(b.remove_wire(w), Err(EditError::NoSuchWire));
    assert_eq!(b.connect_input(n, 0, w), Err(EditError::NoSuchWire));
    assert_eq!(b.remove_circuit(n), Ok(()));
    assert_eq!(b.remove_circuit(n), Err(EditError::NoSuchCircuit));
    assert_eq!(b.output(n), None);
    assert_eq!(b.disconnect_output(n), Err(EditError::NoSuchCircuit));
}

#[test]
fn removed_driver_releases_wire() {
    let mut b = CircuitBoard::new(Vec2usize::new(32, 32), 4);
    let src = place(&mut b, gate(GateKind::Or, 0), 0, 0, Logic::Source { on: true });
    let n = place(&mut b, gate(GateKind::Not, 1), 5, 0, logic(GateKind::Not));
    let w = b.add_wire();
    b.connect_output(src, w).unwrap();
    b.connect_input(n, 0, w).unwrap();
    b.update();
    assert_eq!(b.output(n), Some(false));
    b.remove_circuit(src).unwrap();
    assert_eq!(b.update(), Stability::Stable);
    assert_eq!(b.wire_state(w), Some(false));
    assert_eq!(b.output(n), Some(true));
    b.disconnect_input(n, 0).unwrap();
    assert_eq!(b.update(), Stability::Stable);
    assert_eq!(b.output(n), Some(true));
}

#[test]
fn placement_bounds_and_overlap() {
    let mut b = CircuitBoard::new(Vec2usize::new(10, 6), 4);
    let t = CircuitImplBox::Test(TestCircuit);
    let src = Logic::Source { on: false };
    assert_eq!(b.place_circuit(t, Vec2usize::new(7, 0), Direction4::Right, false, src), Err(EditError::OutOfBounds));
    assert_eq!(b.place_circuit(t, Vec2usize::new(0, 0), Direction4::Right, false, src), Ok(0));
    // cells overlap, but the quarters the two footprints occupy do not
    assert_eq!(b.place_circuit(t, Vec2usize::new(3, 0), Direction4::Right, false, src), Ok(1));
    assert_eq!(b.place_circuit(t, Vec2usize::new(2, 0), Direction4::Right, false, src), Err(EditError::Overlap));
    // turned upright the footprint is 3 by 4 cells
    assert_eq!(b.place_circuit(t, Vec2usize::new(0, 3), Direction4::Up, false, src), Err(EditError::OutOfBounds));
    assert_eq!(b.place_circuit(t, Vec2usize::new(7, 2), Direction4::Up, false, src), Ok(2));
    assert_eq!(b.circuit_count(), 3);
    assert_eq!(
        b.place_circuit(gate(GateKind::Or, 2), Vec2usize::new(0, 2), Direction4::Right, false, src),
        Err(EditError::Overlap)
    );
    assert_eq!(b.place_circuit(gate(GateKind::Or, 2), Vec2usize::new(0, 3), Direction4::Right, false, src), Ok(3));
}

#[test]
fn parity_mode_toggle_reevaluates() {
    let mut b = CircuitBoard::new(Vec2usize::new(64, 64), 8);
    let x = place(&mut b, gate(GateKind::Xor, 3), 20, 0, logic(GateKind::Xor));
    let out = b.add_wire();
    b.connect_output(x, out).unwrap();
    for i in 0..3 {
        let s = place(&mut b, gate(GateKind::Or, 0), 0, 4 * i, Logic::Source { on: true });
        let w = b.add_wire();
        b.connect_output(s, w).unwrap();
        b.connect_input(x, i, w).unwrap();
    }
    assert_eq!(b.update(), Stability::Stable);
    assert_eq!(b.wire_state(out), Some(false));
    assert_eq!(b.set_parity_mode(x, true), Ok(()));
    assert_eq!(b.logic(x), Some(Logic::Gate { kind: GateKind::Xor, parity: true }));
    assert_eq!(b.update(), Stability::Stable);
    assert_eq!(b.wire_state(out), Some(true));
    assert_eq!(b.set_parity_mode(1, true), Err(EditError::NoParityMode));
    assert_eq!(b.set_parity_mode(99, true), Err(EditError::NoSuchCircuit));
    assert_eq!(b.logic(99), None);
}
