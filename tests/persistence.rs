use std::sync::Arc;

use logic_circuits::blueprint::{CircuitImplBox, GateCircuit, TestCircuit};
use logic_circuits::board::{CircuitBoard, EditError, Logic, Stability, StateError};
use logic_circuits::gates::GateKind;
use logic_circuits::geometry::{Direction4, Vec2usize};
use logic_circuits::io::{Board, CircuitSavestate, Wire};
use logic_circuits::text::ArcRefStr;

fn and_gate() -> CircuitImplBox {
    CircuitImplBox::Gate(GateCircuit { kind: GateKind::And, inputs: 2 })
}

fn and_logic() -> Logic {
    Logic::Gate { kind: GateKind::And, parity: false }
}

fn source() -> CircuitImplBox {
    CircuitImplBox::Gate(GateCircuit { kind: GateKind::Or, inputs: 0 })
}

/// Two sources into an AND gate driving wire 2.
fn and_board() -> CircuitBoard {
    let mut b = CircuitBoard::new(Vec2usize::new(32, 32), 8);
    let a = b.place_circuit(source(), Vec2usize::new(0, 0), Direction4::Right, false, Logic::Source { on: true }).unwrap();
    let c = b.place_circuit(source(), Vec2usize::new(0, 4), Direction4::Right, false, Logic::Source { on: true }).unwrap();
    let g = b.place_circuit(and_gate(), Vec2usize::new(8, 0), Direction4::Right, false, and_logic()).unwrap();
    let wa = b.add_wire();
    let wc = b.add_wire();
    let wg = b.add_wire();
    b.connect_output(a, wa).unwrap();
    b.connect_output(c, wc).unwrap();
    b.connect_input(g, 0, wa).unwrap();
    b.connect_input(g, 1, wc).unwrap();
    b.connect_output(g, wg).unwrap();
    b
}

#[test]
fn move_and_pin_positions() {
    let mut b = CircuitBoard::new(Vec2usize::new(12, 12), 4);
    let t = b.place_circuit(CircuitImplBox::Test(TestCircuit), Vec2usize::new(1, 1), Direction4::Right, false, Logic::Source { on: false }).unwrap();
    assert_eq!(b.pin_position(t, 4), Some(Vec2usize::new(4, 2)));
    assert_eq!(b.pin_position(t, 5), None);
    assert_eq!(b.pin_position(9, 0), None);
    assert_eq!(b.move_circuit(t, Vec2usize::new(5, 5), Direction4::Up, false), Ok(()));
    assert_eq!(b.pin_position(t, 4), Some(Vec2usize::new(6, 5)));
    assert_eq!(b.move_circuit(t, Vec2usize::new(10, 5), Direction4::Up, false), Err(EditError::OutOfBounds));
    let g = b.place_circuit(and_gate(), Vec2usize::new(0, 0), Direction4::Right, false, and_logic()).unwrap();
    assert_eq!(b.move_circuit(g, Vec2usize::new(4, 6), Direction4::Right, false), Err(EditError::Overlap));
    assert_eq!(b.move_circuit(g, Vec2usize::new(0, 7), Direction4::Right, false), Ok(()));
    assert_eq!(b.move_circuit(4, Vec2usize::new(0, 0), Direction4::Right, false), Err(EditError::NoSuchCircuit));
}

#[test]
fn saved_state_resumes_to_same_result() {
    let mut a = and_board();
    let snap = a.save_state();
    assert_eq!(a.update(), Stability::Stable);
    assert_eq!(a.wire_state(2), Some(true));

    let mut b = and_board();
    b.update();
    b.set_source(0, false).unwrap();
    b.update();
    assert_eq!(b.wire_state(2), Some(false));
    assert_eq!(b.load_state(&snap), Ok(()));
    assert_eq!(b.wire_state(2), Some(false));
    b.set_source(0, true).unwrap();
    assert_eq!(b.update(), Stability::Stable);
    assert_eq!(b.wire_state(2), Some(true));
}

#[test]
fn load_state_rejects_wrong_sizes() {
    let mut b = and_board();
    let mut snap = b.save_state();
    snap.outs.push(false);
    assert_eq!(b.load_state(&snap), Err(StateError::CircuitCount));
    snap.outs.pop();
    snap.wires.pop();
    assert_eq!(b.load_state(&snap), Err(StateError::WireCount));
}

#[test]
fn saved_layout_round_trip() {
    let mut a = and_board();
    let saved = a.to_saved(7);
    assert_eq!(saved.uid, 7);
    assert_eq!(saved.circuits.len(), 3);
    assert_eq!(saved.wires.len(), 3);
    assert_eq!(saved.states.len(), 1);
    let mut b = CircuitBoard::from_saved(&saved, Vec2usize::new(32, 32), 8).unwrap();
    assert_eq!(a.update(), b.update());
    for w in 0..3 {
        assert_eq!(a.wire_state(w), b.wire_state(w));
    }
    assert_eq!(b.output(2), Some(true));
}

#[test]
fn from_saved_with_gaps_and_errors() {
    let c = CircuitSavestate {
        id: 0,
        imp: and_gate(),
        pos: Vec2usize::new(0, 0),
        dir: Direction4::Right,
        flip: false,
        logic: and_logic(),
        inputs: vec![Some(3), None],
        output: Some(0),
    };
    let saved = Board {
        uid: 1,
        wires: vec![Wire { id: 0, points: vec![] }, Wire { id: 3, points: vec![] }],
        circuits: vec![c],
        states: vec![],
    };
    let b = CircuitBoard::from_saved(&saved, Vec2usize::new(16, 16), 4).unwrap();
    assert_eq!(b.wire_count(), 4);
    assert_eq!(b.wire_state(1), None);
    assert_eq!(b.wire_state(3), Some(false));

    let bad = Board {
        uid: 2,
        wires: vec![Wire { id: 0, points: vec![] }],
        circuits: vec![CircuitSavestate {
            id: 0,
            imp: and_gate(),
            pos: Vec2usize::new(0, 0),
            dir: Direction4::Right,
            flip: false,
            logic: and_logic(),
            inputs: vec![Some(5), None],
            output: None,
        }],
        states: vec![],
    };
    assert!(matches!(CircuitBoard::from_saved(&bad, Vec2usize::new(16, 16), 4), Err(EditError::NoSuchWire)));
}

#[test]
fn shared_strings() {
    let r = ArcRefStr::Ref("abc");
    assert_eq!(r.as_str(), "abc");
    let a: Arc<str> = r.into_arc();
    assert_eq!(&*a, "abc");
    let s = ArcRefStr::Arc(Arc::from("xyz"));
    assert_eq!(s.as_str(), "xyz");
    assert_eq!(&*s.into_arc(), "xyz");
}

fn saved_and(pos: Vec2usize) -> CircuitSavestate {
    CircuitSavestate {
        id: 0,
        imp: and_gate(),
        pos,
        dir: Direction4::Right,
        flip: false,
        logic: and_logic(),
        inputs: vec![None, None],
        output: None,
    }
}

#[test]
fn from_saved_rejects_overlap_and_bounds() {
    let two = Board { uid: 3, wires: vec![], circuits: vec![saved_and(Vec2usize::new(0, 0)), saved_and(Vec2usize::new(2, 1))], states: vec![] };
    assert!(matches!(CircuitBoard::from_saved(&two, Vec2usize::new(16, 16), 4), Err(EditError::Overlap)));
    let apart = Board { uid: 4, wires: vec![], circuits: vec![saved_and(Vec2usize::new(0, 0)), saved_and(Vec2usize::new(4, 0))], states: vec![] };
    let b = CircuitBoard::from_saved(&apart, Vec2usize::new(16, 16), 4).unwrap();
    assert_eq!(b.circuit_count(), 2);
    let outside = Board { uid: 5, wires: vec![], circuits: vec![saved_and(Vec2usize::new(14, 0))], states: vec![] };
    assert!(matches!(CircuitBoard::from_saved(&outside, Vec2usize::new(16, 16), 4), Err(EditError::OutOfBounds)));
    let mut short = saved_and(Vec2usize::new(0, 0));
    short.inputs.pop();
    let wrong_pins = Board { uid: 6, wires: vec![], circuits: vec![short], states: vec![] };
    assert!(matches!(CircuitBoard::from_saved(&wrong_pins, Vec2usize::new(16, 16), 4), Err(EditError::NoSuchPin)));
}

#[test]
fn pin_states_and_placement_record() {
    let mut b = and_board();
    b.update();
    assert_eq!(b.pin_state(2, 0), Some(true));
    assert_eq!(b.pin_state(2, 1), Some(true));
    assert_eq!(b.pin_state(2, 2), Some(true));
    assert_eq!(b.pin_state(2, 3), None);
    b.set_source(1, false).unwrap();
    b.update();
    assert_eq!(b.pin_state(2, 1), Some(false));
    assert_eq!(b.pin_state(2, 2), Some(false));
    let info = b.circuit_info(2).unwrap();
    assert_eq!(info.pos, Vec2usize::new(8, 0));
    assert_eq!(info.size, Vec2usize::new(4, 3));
    assert_eq!(info.transform.dir, Direction4::Right);
    assert!(b.circuit_info(5).is_none());
}
