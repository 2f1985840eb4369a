use logic_circuits::blueprint::{CircuitBlueprint, CircuitImplBox, GateCircuit, PinType, TestCircuit};
use logic_circuits::gates::GateKind;
use logic_circuits::geometry::{Direction4, Direction8, Vec2usize};
use logic_circuits::transform::{rotate_pos, CircuitTransform, FlipType, TransformSupport};

const DIRS: [Direction4; 4] = [Direction4::Up, Direction4::Left, Direction4::Down, Direction4::Right];

fn test_transform(dir: Direction4, flip: bool) -> CircuitTransform {
    CircuitTransform { support: TestCircuit.transform_support(), dir, flip }
}

#[test]
fn backtransform_undoes_transform_everywhere() {
    let supports = [None, Some(TransformSupport::Automatic), Some(TransformSupport::Manual)];
    for size in [Vec2usize::new(4, 3), Vec2usize::new(5, 2), Vec2usize::new(1, 1)] {
        for dir in DIRS {
            for flip in [false, true] {
                for support in supports {
                    let t = test_transform(dir, flip);
                    let tsize = t.transform_size(size, support);
                    for y in 0..size.y {
                        for x in 0..size.x {
                            let p = Vec2usize::new(x, y);
                            let q = t.transform_pos(size, p, support);
                            assert!(q.x < tsize.x && q.y < tsize.y);
                            assert_eq!(t.backtransform_pos(size, q, support), p);
                        }
                    }
                }
            }
        }
    }
}

#[test]
fn transform_size_swaps_across_default_orientation() {
    let size = Vec2usize::new(4, 3);
    assert_eq!(test_transform(Direction4::Right, false).transform_size(size, None), size);
    assert_eq!(test_transform(Direction4::Left, false).transform_size(size, None), size);
    assert_eq!(test_transform(Direction4::Up, false).transform_size(size, None), Vec2usize::new(3, 4));
    assert_eq!(
        test_transform(Direction4::Up, false).transform_size(size, Some(TransformSupport::Manual)),
        size
    );
}

#[test]
fn transform_pos_examples() {
    let size = Vec2usize::new(4, 3);
    let up = test_transform(Direction4::Up, false);
    assert_eq!(up.transform_pos(size, Vec2usize::new(1, 2), None), Vec2usize::new(2, 2));
    assert_eq!(up.transform_pos(size, Vec2usize::new(3, 1), None), Vec2usize::new(1, 0));
    let flipped = test_transform(Direction4::Right, true);
    assert_eq!(flipped.transform_pos(size, Vec2usize::new(1, 0), None), Vec2usize::new(1, 2));
    let left = test_transform(Direction4::Left, false);
    assert_eq!(left.transform_pos(size, Vec2usize::new(0, 0), None), Vec2usize::new(3, 2));
}

#[test]
fn transform_dir_examples() {
    let up = test_transform(Direction4::Up, false);
    assert_eq!(up.transform_dir(Direction8::Right, None), Direction8::Up);
    assert_eq!(up.transform_dir(Direction8::UpLeft, None), Direction8::DownLeft);
    let flipped = test_transform(Direction4::Right, true);
    assert_eq!(flipped.transform_dir(Direction8::UpLeft, None), Direction8::DownLeft);
    assert_eq!(flipped.transform_dir(Direction8::Right, None), Direction8::Right);
    let down = test_transform(Direction4::Left, false);
    assert_eq!(down.transform_dir(Direction8::Right, None), Direction8::Left);
}

#[test]
fn rotate_pos_quarters() {
    let p = Vec2usize::new(1, 0);
    assert_eq!(rotate_pos(p, Vec2usize::new(4, 3), Direction4::Up), p);
    assert_eq!(rotate_pos(p, Vec2usize::new(3, 4), Direction4::Left), Vec2usize::new(0, 2));
    assert_eq!(rotate_pos(p, Vec2usize::new(4, 3), Direction4::Down), Vec2usize::new(2, 2));
    assert_eq!(rotate_pos(p, Vec2usize::new(3, 4), Direction4::Right), Vec2usize::new(2, 1));
}

#[test]
fn support_queries() {
    let s = TestCircuit.transform_support();
    assert_eq!(s.rotation_default_dir(None), Some(Direction4::Right));
    assert_eq!(s.rotation_default_dir(Some(TransformSupport::Manual)), None);
    assert!(matches!(s.flip_type(Some(TransformSupport::Automatic)), Some(FlipType::Vertical)));
    assert!(s.flip_type(Some(TransformSupport::Manual)).is_none());
}

#[test]
fn blueprint_of_test_circuit() {
    let mut bp = CircuitBlueprint::new(CircuitImplBox::Test(TestCircuit));
    assert_eq!(bp.id.as_str(), "test");
    assert_eq!(bp.display_name.as_str(), "Test circuit");
    assert_eq!(bp.inner_size, Vec2usize::new(4, 3));
    assert_eq!(bp.pins.len(), 5);
    assert_eq!(bp.pins[4].pos, Vec2usize::new(3, 1));
    assert_eq!(bp.pins[4].id.as_str(), "e");
    assert!(matches!(bp.pins[4].ty, PinType::Outside));

    bp.transform.dir = Direction4::Up;
    bp.recalculate();
    assert_eq!(bp.transformed_size, Vec2usize::new(3, 4));
    assert_eq!(bp.pins[4].pos, Vec2usize::new(1, 0));
    assert_eq!(bp.pins[4].dir, Some(Direction8::Up));
    assert_eq!(bp.pins[0].pos, Vec2usize::new(0, 3));
    assert_eq!(bp.pins[0].dir, Some(Direction8::DownLeft));

    bp.transform.dir = Direction4::Right;
    bp.transform.flip = true;
    bp.recalculate();
    assert_eq!(bp.transformed_size, Vec2usize::new(4, 3));
    assert_eq!(bp.pins[0].pos, Vec2usize::new(0, 2));
    assert_eq!(bp.pins[0].dir, Some(Direction8::DownLeft));
}

#[test]
fn gate_pins_skip_middle_row() {
    let g = GateCircuit { kind: GateKind::And, inputs: 4 };
    let bp = CircuitBlueprint::new(CircuitImplBox::Gate(g));
    assert_eq!(bp.inner_size, Vec2usize::new(4, 5));
    let rows: Vec<usize> = bp.pins.iter().map(|p| p.pos.y).collect();
    assert_eq!(rows, vec![0, 1, 3, 4, 2]);
    assert_eq!(bp.pins[4].pos.x, 3);
    let one = CircuitBlueprint::new(CircuitImplBox::Gate(GateCircuit { kind: GateKind::Not, inputs: 1 }));
    assert_eq!(one.inner_size, Vec2usize::new(4, 3));
    assert_eq!(one.pins[0].pos, Vec2usize::new(0, 1));
    assert_eq!(one.pins[1].pos, Vec2usize::new(3, 1));
}

#[test]
fn test_circuit_quarters() {
    let t = test_transform(Direction4::Right, false);
    assert!(!TestCircuit.occupies_quarter(t, Vec2usize::new(0, 0)));
    assert!(TestCircuit.occupies_quarter(t, Vec2usize::new(1, 1)));
    assert!(TestCircuit.occupies_quarter(t, Vec2usize::new(6, 2)));
    assert!(!TestCircuit.occupies_quarter(t, Vec2usize::new(6, 1)));
    assert!(!TestCircuit.occupies_quarter(t, Vec2usize::new(3, 4)));
    assert!(!TestCircuit.occupies_quarter(t, Vec2usize::new(7, 3)));
}

fn step(d: Direction8) -> (isize, isize) {
    match d {
        Direction8::Up => (0, -1),
        Direction8::UpLeft => (-1, -1),
        Direction8::Left => (-1, 0),
        Direction8::DownLeft => (-1, 1),
        Direction8::Down => (0, 1),
        Direction8::DownRight => (1, 1),
        Direction8::Right => (1, 0),
        Direction8::UpRight => (1, -1),
    }
}

#[test]
fn directions_turn_with_positions() {
    let all = [
        Direction8::Up,
        Direction8::UpLeft,
        Direction8::Left,
        Direction8::DownLeft,
        Direction8::Down,
        Direction8::DownRight,
        Direction8::Right,
        Direction8::UpRight,
    ];
    let size = Vec2usize::new(4, 3);
    for dir in DIRS {
        for flip in [false, true] {
            let t = test_transform(dir, flip);
            for y in 0..3isize {
                for x in 0..4isize {
                    for d in all {
                        let (dx, dy) = step(d);
                        let (qx, qy) = (x + dx, y + dy);
                        if qx < 0 || qy < 0 || qx >= 4 || qy >= 3 {
                            continue;
                        }
                        let tp = t.transform_pos(size, Vec2usize::new(x as usize, y as usize), None);
                        let tq = t.transform_pos(size, Vec2usize::new(qx as usize, qy as usize), None);
                        let (ex, ey) = step(t.transform_dir(d, None));
                        assert_eq!(tq.x as isize - tp.x as isize, ex);
                        assert_eq!(tq.y as isize - tp.y as isize, ey);
                    }
                }
            }
        }
    }
}
