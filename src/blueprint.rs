//! Circuit types as the engine sees them: footprint, occupied quarters,
//! pins and supported transforms, and the blueprint that applies a
//! transform to them.

use vstd::prelude::*;

use crate::gates::GateKind;
use crate::geometry::{in_bounds, Direction4, Direction8, Vec2usize};
use crate::text::{ArcRefStr, ArcStaticStr};
use crate::transform::{
    CircuitFlipSupport, CircuitRotationSupport, CircuitTransform, CircuitTransformSupport,
    FlipType, TransformSupport,
};

verus! {

/// Which positions of a pin act as connection points.
#[derive(Debug, Clone, Copy, PartialEq, Eq, Structural)]
pub enum PinType {
    Custom,
    Inside,
    Outside,
}

/// A pin of a circuit type, in the circuit's local grid.
#[derive(Clone)]
pub struct PinDescription {
    pub pos: Vec2usize,
    pub id: ArcStaticStr,
    pub display_name: ArcStaticStr,
    pub dir: Option<Direction8>,
    pub ty: PinType,
}

/// A pin's position and direction, borrowed for editing in place.
pub struct PosDirMut<'a> {
    pub pos: &'a mut Vec2usize,
    pub dir: Option<&'a mut Direction8>,
}

impl PinDescription {
    pub fn pos_dir_mut(&mut self) -> (r: PosDirMut<'_>)
        ensures
            *r.pos == old(self).pos,
            r.dir is Some <==> old(self).dir is Some,
            r.dir is Some ==> *r.dir->0 == old(self).dir->0,
            final(self).pos == *final(r.pos),
            final(self).dir == (match r.dir {
                Some(d) => Some(*final(d)),
                None => None,
            }),
            final(self).id == old(self).id,
            final(self).display_name == old(self).display_name,
            final(self).ty == old(self).ty,
    {
        let dir = match &mut self.dir {
            Some(d) => Some(d),
            None => None,
        };
        PosDirMut { pos: &mut self.pos, dir }
    }
}

/// Every pin lies inside a footprint of size `size`.
pub open spec fn pins_in_bounds(pins: Seq<PinDescription>, size: Vec2usize) -> bool {
    forall|i: int| 0 <= i < pins.len() ==> in_bounds(#[trigger] pins[i].pos, size)
}

/// `after` is the pin `before` moved and turned by `t`.
pub open spec fn pin_transformed(
    t: CircuitTransform,
    size: Vec2usize,
    before: PinDescription,
    after: PinDescription,
    support: Option<TransformSupport>,
) -> bool {
    &&& after.pos == t.transform_pos_spec(size, before.pos, support)
    &&& after.dir == (match before.dir {
        Some(d) => Some(t.transform_dir_spec(d, support)),
        None => None,
    })
    &&& after.id == before.id
    &&& after.display_name == before.display_name
    &&& after.ty == before.ty
}

/// `after` is `before` with every pin moved and turned by `t`.
pub open spec fn pins_transformed(
    t: CircuitTransform,
    size: Vec2usize,
    before: Seq<PinDescription>,
    after: Seq<PinDescription>,
    support: Option<TransformSupport>,
) -> bool {
    &&& after.len() == before.len()
    &&& forall|i: int|
        0 <= i < before.len() ==> pin_transformed(t, size, before[i], #[trigger] after[i], support)
}

impl CircuitTransform {
    /// Moves and turns every pin in place.
    pub fn transform_pins(&self, size: Vec2usize, pins: &mut Vec<PinDescription>, support: Option<TransformSupport>)
        requires
            pins_in_bounds(old(pins)@, size),
        ensures
            pins_transformed(*self, size, old(pins)@, final(pins)@, support),
    {
        let n = pins.len();
        let mut i: usize = 0;
        while i < n
            invariant
                n == old(pins)@.len(),
                pins@.len() == n,
                i <= n,
                pins_in_bounds(old(pins)@, size),
                forall|j: int| i <= j < n ==> #[trigger] pins@[j] == old(pins)@[j],
                forall|j: int| 0 <= j < i ==> pin_transformed(*self, size, old(pins)@[j], #[trigger] pins@[j], support),
            decreases n - i,
        {
            let ghost before = pins@;
            let p = &mut pins[i];
            let pd = p.pos_dir_mut();
            *pd.pos = self.transform_pos(size, *pd.pos, support);
            if let Some(d) = pd.dir {
                *d = self.transform_dir(*d, support);
            }
            proof {
                assert(pins@ == before.update(i as int, pins@[i as int]));
            }
            i = i + 1;
        }
    }
}

/// Rows in the footprint of a gate with `n` inputs: at least three, and odd
/// so that the output sits on the middle row.
pub open spec fn gate_height(n: nat) -> nat {
    if n < 3 {
        3
    } else if n % 2 == 0 {
        n + 1
    } else {
        n
    }
}

/// Row of input `i` of a gate with `n` inputs: from the top, skipping the
/// middle row when `n` is even; a single input sits on the middle row.
pub open spec fn gate_input_row(n: nat, i: nat) -> nat {
    (if n == 1 {
        1nat
    } else {
        0nat
    }) + i + (if n % 2 == 0 && 2 * i >= n {
        1nat
    } else {
        0nat
    })
}

/// Transforms a type supports by default: automatic rotation from facing
/// right, and an automatic vertical flip.
pub open spec fn right_facing_support() -> CircuitTransformSupport {
    CircuitTransformSupport {
        rotation: Some(CircuitRotationSupport { support: TransformSupport::Automatic, default_dir: Direction4::Right }),
        flip: Some(CircuitFlipSupport { support: TransformSupport::Automatic, ty: FlipType::Vertical }),
    }
}

fn right_facing() -> (r: CircuitTransformSupport)
    ensures
        r == right_facing_support(),
{
    CircuitTransformSupport {
        rotation: Some(CircuitRotationSupport { support: TransformSupport::Automatic, default_dir: Direction4::Right }),
        flip: Some(CircuitFlipSupport { support: TransformSupport::Automatic, ty: FlipType::Vertical }),
    }
}

/// A fixed irregular circuit used to exercise transforms and quarter
/// occupancy: 4 by 3 cells, five pins.
#[derive(Debug, Clone, Copy)]
pub struct TestCircuit;

impl TestCircuit {
    /// The occupied quarters of the 8 by 6 quarter grid.
    pub open spec fn quarter_spec(q: Vec2usize) -> bool {
        if q.y == 1 {
            1 <= q.x <= 5
        } else if q.y == 2 || q.y == 3 {
            1 <= q.x <= 6
        } else if q.y == 4 {
            q.x == 1 || q.x == 2 || q.x == 4 || q.x == 5
        } else {
            false
        }
    }

    pub open spec fn pin_pos_spec(i: int) -> Vec2usize {
        if i == 0 {
            Vec2usize { x: 0, y: 0 }
        } else if i == 1 {
            Vec2usize { x: 0, y: 2 }
        } else if i == 2 {
            Vec2usize { x: 2, y: 0 }
        } else if i == 3 {
            Vec2usize { x: 2, y: 2 }
        } else {
            Vec2usize { x: 3, y: 1 }
        }
    }

    pub open spec fn pin_dir_spec(i: int) -> Direction8 {
        if i == 0 {
            Direction8::UpLeft
        } else if i == 1 {
            Direction8::DownLeft
        } else if i == 2 {
            Direction8::Up
        } else if i == 3 {
            Direction8::Down
        } else {
            Direction8::Right
        }
    }

    pub fn id(&self) -> (r: ArcStaticStr)
        ensures
            r@ == "test"@,
    {
        ArcRefStr::Ref("test")
    }

    pub fn display_name(&self) -> (r: ArcStaticStr)
        ensures
            r@ == "Test circuit"@,
    {
        ArcRefStr::Ref("Test circuit")
    }

    pub fn size(&self, transform: CircuitTransform) -> (r: Vec2usize)
        ensures
            r == (Vec2usize { x: 4, y: 3 }),
    {
        Vec2usize::new(4, 3)
    }

    /// Whether the quarter `qpos` (local, two quarters per cell) is occupied.
    pub fn occupies_quarter(&self, transform: CircuitTransform, qpos: Vec2usize) -> (r: bool)
        requires
            in_bounds(qpos, Vec2usize { x: 8, y: 6 }),
        ensures
            r == TestCircuit::quarter_spec(qpos),
    {
        if qpos.y == 1 {
            1 <= qpos.x && qpos.x <= 5
        } else if qpos.y == 2 || qpos.y == 3 {
            1 <= qpos.x && qpos.x <= 6
        } else if qpos.y == 4 {
            qpos.x == 1 || qpos.x == 2 || qpos.x == 4 || qpos.x == 5
        } else {
            false
        }
    }

    fn pin(pos: Vec2usize, id: &'static str, name: &'static str, dir: Direction8, ty: PinType) -> (r: PinDescription)
        ensures
            r.pos == pos,
            r.id@ == id@,
            r.display_name@ == name@,
            r.dir == Some(dir),
            r.ty == ty,
    {
        PinDescription { pos, id: ArcRefStr::Ref(id), display_name: ArcRefStr::Ref(name), dir: Some(dir), ty }
    }

    /// Pins `a` to `e`; all inside the circuit but `e`, on its right edge.
    pub fn describe_pins(&self, transform: CircuitTransform) -> (r: Vec<PinDescription>)
        ensures
            r@.len() == 5,
            forall|i: int|
                0 <= i < 5 ==> (#[trigger] r@[i]).pos == TestCircuit::pin_pos_spec(i) && r@[i].dir == Some(
                    TestCircuit::pin_dir_spec(i),
                ) && r@[i].ty == (if i == 4 {
                    PinType::Outside
                } else {
                    PinType::Inside
                }),
            r@[0].id@ == "a"@,
            r@[1].id@ == "b"@,
            r@[2].id@ == "c"@,
            r@[3].id@ == "d"@,
            r@[4].id@ == "e"@,
    {
        let mut pins: Vec<PinDescription> = Vec::new();
        pins.push(TestCircuit::pin(Vec2usize::new(0, 0), "a", "A", Direction8::UpLeft, PinType::Inside));
        pins.push(TestCircuit::pin(Vec2usize::new(0, 2), "b", "B", Direction8::DownLeft, PinType::Inside));
        pins.push(TestCircuit::pin(Vec2usize::new(2, 0), "c", "C", Direction8::Up, PinType::Inside));
        pins.push(TestCircuit::pin(Vec2usize::new(2, 2), "d", "D", Direction8::Down, PinType::Inside));
        pins.push(TestCircuit::pin(Vec2usize::new(3, 1), "e", "E", Direction8::Right, PinType::Outside));
        pins
    }

    pub fn transform_support(&self) -> (r: CircuitTransformSupport)
        ensures
            r == right_facing_support(),
    {
        right_facing()
    }
}

/// A gate with `inputs` input pins on its left edge and one output pin on
/// its right edge; four cells wide.
#[derive(Debug, Clone, Copy)]
pub struct GateCircuit {
    pub kind: GateKind,
    pub inputs: usize,
}

impl GateCircuit {
    pub open spec fn size_spec(self) -> Vec2usize {
        Vec2usize { x: 4, y: gate_height(self.inputs as nat) as usize }
    }

    pub fn size(&self, transform: CircuitTransform) -> (r: Vec2usize)
        ensures
            r == self.size_spec(),
    {
        let n = self.inputs;
        let h = if n < 3 {
            3
        } else if n % 2 == 0 {
            n + 1
        } else {
            n
        };
        Vec2usize::new(4, h)
    }

    fn input_row(&self, i: usize) -> (r: usize)
        requires
            i < self.inputs,
        ensures
            r == gate_input_row(self.inputs as nat, i as nat),
            r < gate_height(self.inputs as nat),
    {
        let n = self.inputs;
        let start: usize = if n == 1 {
            1
        } else {
            0
        };
        let skip: usize = if n % 2 == 0 && i >= n - i {
            1
        } else {
            0
        };
        start + i + skip
    }

    /// Inputs first, top to bottom, facing left; then the output on the
    /// middle row, facing right.
    pub fn describe_pins(&self, transform: CircuitTransform) -> (r: Vec<PinDescription>)
        ensures
            r@.len() == self.inputs + 1,
            forall|i: int|
                0 <= i < self.inputs ==> (#[trigger] r@[i]).pos == (Vec2usize {
                    x: 0,
                    y: gate_input_row(self.inputs as nat, i as nat) as usize,
                }) && r@[i].dir == Some(Direction8::Left) && r@[i].ty == PinType::Inside,
            r@[self.inputs as int].pos == (Vec2usize { x: 3, y: (gate_height(self.inputs as nat) / 2) as usize }),
            r@[self.inputs as int].dir == Some(Direction8::Right),
            r@[self.inputs as int].ty == PinType::Outside,
            pins_in_bounds(r@, self.size_spec()),
    {
        let n = self.inputs;
        let mut pins: Vec<PinDescription> = Vec::new();
        let mut i: usize = 0;
        while i < n
            invariant
                n == self.inputs,
                i <= n,
                pins@.len() == i,
                forall|j: int|
                    0 <= j < i ==> (#[trigger] pins@[j]).pos == (Vec2usize {
                        x: 0,
                        y: gate_input_row(n as nat, j as nat) as usize,
                    }) && pins@[j].dir == Some(Direction8::Left) && pins@[j].ty == PinType::Inside
                        && gate_input_row(n as nat, j as nat) < gate_height(n as nat),
            decreases n - i,
        {
            let row = self.input_row(i);
            pins.push(
                PinDescription {
                    pos: Vec2usize::new(0, row),
                    id: ArcRefStr::Ref("in"),
                    display_name: ArcRefStr::Ref("Input"),
                    dir: Some(Direction8::Left),
                    ty: PinType::Inside,
                },
            );
            i = i + 1;
        }
        let size = self.size(transform);
        pins.push(
            PinDescription {
                pos: Vec2usize::new(3, size.y / 2),
                id: ArcRefStr::Ref("out"),
                display_name: ArcRefStr::Ref("Output"),
                dir: Some(Direction8::Right),
                ty: PinType::Outside,
            },
        );
        pins
    }

    pub fn transform_support(&self) -> (r: CircuitTransformSupport)
        ensures
            r == right_facing_support(),
    {
        right_facing()
    }
}

/// The circuit types the engine can place.
#[derive(Debug, Clone, Copy)]
pub enum CircuitImplBox {
    Test(TestCircuit),
    Gate(GateCircuit),
}

impl CircuitImplBox {
    pub open spec fn size_spec(self) -> Vec2usize {
        match self {
            CircuitImplBox::Test(_) => Vec2usize { x: 4, y: 3 },
            CircuitImplBox::Gate(g) => g.size_spec(),
        }
    }

    /// Whether local quarter `q` (two quarters per cell) is occupied.
    pub open spec fn quarter_spec(self, q: Vec2usize) -> bool {
        match self {
            CircuitImplBox::Test(_) => TestCircuit::quarter_spec(q),
            CircuitImplBox::Gate(_) => true,
        }
    }

    pub open spec fn transform_support_spec(self) -> CircuitTransformSupport {
        right_facing_support()
    }

    pub open spec fn pin_count(self) -> nat {
        match self {
            CircuitImplBox::Test(_) => 5,
            CircuitImplBox::Gate(g) => (g.inputs + 1) as nat,
        }
    }

    /// Local position of pin `i`.
    pub open spec fn pin_pos(self, i: int) -> Vec2usize {
        match self {
            CircuitImplBox::Test(_) => TestCircuit::pin_pos_spec(i),
            CircuitImplBox::Gate(g) => if i < g.inputs {
                Vec2usize { x: 0, y: gate_input_row(g.inputs as nat, i as nat) as usize }
            } else {
                Vec2usize { x: 3, y: (gate_height(g.inputs as nat) / 2) as usize }
            },
        }
    }

    /// Local direction of pin `i`.
    pub open spec fn pin_dir(self, i: int) -> Direction8 {
        match self {
            CircuitImplBox::Test(_) => TestCircuit::pin_dir_spec(i),
            CircuitImplBox::Gate(g) => if i < g.inputs {
                Direction8::Left
            } else {
                Direction8::Right
            },
        }
    }

    pub open spec fn pin_type(self, i: int) -> PinType {
        if i == self.pin_count() - 1 {
            PinType::Outside
        } else {
            PinType::Inside
        }
    }

    /// `pins` is the pin list of this type, untransformed.
    pub open spec fn layout_matches(self, pins: Seq<PinDescription>) -> bool {
        &&& pins.len() == self.pin_count()
        &&& forall|i: int|
            0 <= i < pins.len() ==> (#[trigger] pins[i]).pos == self.pin_pos(i) && pins[i].dir == Some(
                self.pin_dir(i),
            ) && pins[i].ty == self.pin_type(i)
    }

    pub open spec fn id_spec(self) -> Seq<char> {
        match self {
            CircuitImplBox::Test(_) => "test"@,
            CircuitImplBox::Gate(g) => g.kind.id_spec(),
        }
    }

    pub open spec fn display_name_spec(self) -> Seq<char> {
        match self {
            CircuitImplBox::Test(_) => "Test circuit"@,
            CircuitImplBox::Gate(g) => g.kind.display_name_spec(),
        }
    }

    pub fn id(&self) -> (r: ArcStaticStr)
        ensures
            r@ == self.id_spec(),
    {
        match self {
            CircuitImplBox::Test(t) => t.id(),
            CircuitImplBox::Gate(g) => ArcRefStr::Ref(g.kind.id()),
        }
    }

    pub fn display_name(&self) -> (r: ArcStaticStr)
        ensures
            r@ == self.display_name_spec(),
    {
        match self {
            CircuitImplBox::Test(t) => t.display_name(),
            CircuitImplBox::Gate(g) => ArcRefStr::Ref(g.kind.display_name()),
        }
    }

    pub fn size(&self, transform: CircuitTransform) -> (r: Vec2usize)
        ensures
            r == self.size_spec(),
    {
        match self {
            CircuitImplBox::Test(t) => t.size(transform),
            CircuitImplBox::Gate(g) => g.size(transform),
        }
    }

    pub fn occupies_quarter(&self, transform: CircuitTransform, qpos: Vec2usize) -> (r: bool)
        requires
            in_bounds(qpos, Vec2usize { x: (2 * self.size_spec().x) as usize, y: (2 * self.size_spec().y) as usize }),
        ensures
            r == self.quarter_spec(qpos),
    {
        match self {
            CircuitImplBox::Test(t) => t.occupies_quarter(transform, qpos),
            CircuitImplBox::Gate(_) => true,
        }
    }

    pub fn describe_pins(&self, transform: CircuitTransform) -> (r: Vec<PinDescription>)
        ensures
            pins_in_bounds(r@, self.size_spec()),
            self.layout_matches(r@),
    {
        match self {
            CircuitImplBox::Test(t) => t.describe_pins(transform),
            CircuitImplBox::Gate(g) => g.describe_pins(transform),
        }
    }

    pub fn transform_support(&self) -> (r: CircuitTransformSupport)
        ensures
            r == self.transform_support_spec(),
    {
        match self {
            CircuitImplBox::Test(t) => t.transform_support(),
            CircuitImplBox::Gate(g) => g.transform_support(),
        }
    }
}

/// Placement record of a circuit on a board.
#[derive(Debug, Clone, Copy)]
pub struct CircuitInfo {
    pub pos: Vec2usize,
    pub render_size: Vec2usize,
    pub size: Vec2usize,
    pub transform: CircuitTransform,
}

/// A circuit type together with a transform, and its size and pins under
/// that transform.
pub struct CircuitBlueprint {
    pub id: ArcStaticStr,
    pub display_name: ArcStaticStr,
    pub imp: CircuitImplBox,
    pub inner_size: Vec2usize,
    pub transformed_size: Vec2usize,
    pub pins: Vec<PinDescription>,
    pub transform: CircuitTransform,
}

/// Pins of `imp` under `t`, applied by the engine's formulas.
pub open spec fn pins_placed(imp: CircuitImplBox, t: CircuitTransform, pins: Seq<PinDescription>) -> bool {
    let auto = Some(TransformSupport::Automatic);
    &&& pins.len() == imp.pin_count()
    &&& forall|i: int|
        0 <= i < pins.len() ==> {
            &&& (#[trigger] pins[i]).pos == t.transform_pos_spec(imp.size_spec(), imp.pin_pos(i), auto)
            &&& pins[i].dir == Some(t.transform_dir_spec(imp.pin_dir(i), auto))
            &&& pins[i].ty == imp.pin_type(i)
        }
}

impl CircuitBlueprint {
    /// Sizes and pins agree with the type and the transform.
    pub open spec fn wf(&self) -> bool {
        let auto = Some(TransformSupport::Automatic);
        &&& self.transform.support == self.imp.transform_support_spec()
        &&& self.inner_size == self.imp.size_spec()
        &&& self.transformed_size == self.transform.transform_size_spec(self.inner_size, auto)
        &&& pins_placed(self.imp, self.transform, self.pins@)
        &&& pins_in_bounds(self.pins@, self.transformed_size)
    }

    /// The blueprint of `imp` in its default orientation, unflipped.
    pub fn new(imp: CircuitImplBox) -> (r: Self)
        ensures
            r.wf(),
            r.imp == imp,
            r.id@ == imp.id_spec(),
            r.display_name@ == imp.display_name_spec(),
            r.transform.dir == Direction4::Right,
            !r.transform.flip,
            r.inner_size == imp.size_spec(),
            r.transformed_size == imp.size_spec(),
    {
        let trans_support = imp.transform_support();
        let dir = match trans_support.rotation {
            Some(r) => r.default_dir,
            None => Direction4::Up,
        };
        let transform = CircuitTransform { support: trans_support, dir, flip: false };
        let size = imp.size(transform);
        let pins = imp.describe_pins(transform);
        let ghost auto = Some(TransformSupport::Automatic);
        proof {
            assert forall|i: int| 0 <= i < pins@.len() implies (#[trigger] pins@[i]).pos
                == transform.transform_pos_spec(size, imp.pin_pos(i), auto) && pins@[i].dir == Some(
                transform.transform_dir_spec(imp.pin_dir(i), auto),
            ) by {
                let d = imp.pin_dir(i);
                assert(transform.transform_dir_spec(d, auto) == d.rotated_spec(Direction4::Up));
            }
        }
        CircuitBlueprint {
            id: imp.id(),
            display_name: imp.display_name(),
            inner_size: size,
            transformed_size: size,
            pins,
            imp,
            transform,
        }
    }

    /// Recomputes sizes and pins after the transform was changed.
    pub fn recalculate(&mut self)
        ensures
            final(self).wf(),
            final(self).imp == old(self).imp,
            final(self).id == old(self).id,
            final(self).display_name == old(self).display_name,
            final(self).transform.dir == old(self).transform.dir,
            final(self).transform.flip == old(self).transform.flip,
    {
        let auto = Some(TransformSupport::Automatic);
        self.transform.support = self.imp.transform_support();
        self.inner_size = self.imp.size(self.transform);
        self.transformed_size = self.transform.transform_size(self.inner_size, auto);
        let mut pins = self.imp.describe_pins(self.transform);
        let ghost described = pins@;
        self.transform.transform_pins(self.inner_size, &mut pins, auto);
        proof {
            assert forall|i: int| 0 <= i < pins@.len() implies in_bounds(
                #[trigger] pins@[i].pos,
                self.transformed_size,
            ) by {
                crate::transform::lemma_backtransform_inverts_transform(
                    self.transform,
                    self.inner_size,
                    described[i].pos,
                    auto,
                );
            }
        }
        self.pins = pins;
    }
}

} // verus!
