//! The live circuit board: circuits and wires in arenas indexed by id, the
//! dirty queue, and the propagation wave that drives wire states to a fixed
//! point.
//!
//! A wire is driven by the outputs attached to it and carries their logical
//! OR; an input pin that is unattached, or attached to a wire id that does
//! not exist, reads `false`.
//!
//! A pass evaluates every dirty circuit against the same snapshot of wire
//! states and only then applies the new outputs, so the order in which the
//! queue is walked changes the trace of a pass but never its result.

use vstd::prelude::*;

use crate::blueprint::{CircuitImplBox, CircuitInfo};
use crate::gates::GateKind;
use crate::geometry::Vec2usize;
use crate::transform::TransformSupport;

pub mod edit;
pub mod laws;
pub mod persist;
pub mod placement;

verus! {

/// How a circuit computes its output.
#[derive(Debug, Clone, Copy, PartialEq, Eq, Structural)]
pub enum Logic {
    /// A gate folding the states of its input pins.
    Gate { kind: GateKind, parity: bool },
    /// A source whose output is set from outside, such as a button.
    Source { on: bool },
}

impl Logic {
    /// Power-on output.
    pub open spec fn init_spec(self) -> bool {
        match self {
            Logic::Gate { kind, parity } => kind.init_spec(),
            Logic::Source { on } => on,
        }
    }
}

/// A placed circuit: its type and placement, its logic, and its pins'
/// attachments (input pins in order, then the output pin).
pub struct BoardCircuit {
    pub imp: CircuitImplBox,
    pub info: CircuitInfo,
    pub logic: Logic,
    pub inputs: Vec<Option<usize>>,
    pub output: Option<usize>,
}

/// What the simulation sees of a circuit.
pub struct CircuitModel {
    pub logic: Logic,
    pub inputs: Seq<Option<usize>>,
    pub output: Option<usize>,
}

/// The connectivity of a board: circuit slots (`None` once removed) and
/// which wire ids are in use.
pub struct Topology {
    pub circuits: Seq<Option<CircuitModel>>,
    pub wire_alive: Seq<bool>,
}

/// Where a circuit stands: its type and its placement record.
pub struct Footprint {
    pub imp: CircuitImplBox,
    pub info: CircuitInfo,
}

/// The state of a board.
pub struct BoardView {
    pub topo: Topology,
    pub footprints: Seq<Option<Footprint>>,
    pub extent: Vec2usize,
    pub outs: Seq<bool>,
    pub wires: Seq<bool>,
    pub queue: Seq<usize>,
    pub ordered: bool,
    pub unstable: bool,
    pub cap: nat,
}

/// Outcome of a propagation wave.
#[derive(Debug, Clone, Copy, PartialEq, Eq, Structural)]
pub enum Stability {
    /// A fixed point was reached.
    Stable,
    /// The iteration cap was reached before a fixed point.
    Unstable,
}

pub open spec fn footprint_of(slot: Option<BoardCircuit>) -> Option<Footprint> {
    match slot {
        Some(c) => Some(Footprint { imp: c.imp, info: c.info }),
        None => None,
    }
}

/// Twice `v`: a size or position counted in quarters.
pub open spec fn doubled(v: Vec2usize) -> Vec2usize {
    Vec2usize { x: (2 * v.x) as usize, y: (2 * v.y) as usize }
}

/// The placement record is consistent with the type, and the footprint
/// lies inside a board of size `extent`.
pub open spec fn placed_ok(f: Footprint, extent: Vec2usize) -> bool {
    let auto = Some(TransformSupport::Automatic);
    &&& f.info.render_size == f.imp.size_spec()
    &&& f.info.transform.support == f.imp.transform_support_spec()
    &&& f.info.size == f.info.transform.transform_size_spec(f.info.render_size, auto)
    &&& f.info.pos.x + f.info.size.x <= extent.x
    &&& f.info.pos.y + f.info.size.y <= extent.y
}

/// Whether the footprint `f` occupies the board quarter `q`: `q` lies in
/// its transformed rectangle and the type occupies the local quarter that
/// `q` transforms back to.
#[verifier::opaque]
pub open spec fn occupies(f: Footprint, q: Vec2usize) -> bool {
    let local = Vec2usize { x: (q.x - 2 * f.info.pos.x) as usize, y: (q.y - 2 * f.info.pos.y) as usize };
    &&& 2 * f.info.pos.x <= q.x < 2 * f.info.pos.x + 2 * f.info.size.x
    &&& 2 * f.info.pos.y <= q.y < 2 * f.info.pos.y + 2 * f.info.size.y
    &&& f.imp.quarter_spec(
        f.info.transform.backtransform_pos_spec(doubled(f.info.render_size), local, Some(TransformSupport::Automatic)),
    )
}

pub open spec fn model_of(slot: Option<BoardCircuit>) -> Option<CircuitModel> {
    match slot {
        Some(c) => Some(CircuitModel { logic: c.logic, inputs: c.inputs@, output: c.output }),
        None => None,
    }
}

/// State read through a pin attachment.
pub open spec fn read_wire(wires: Seq<bool>, w: Option<usize>) -> bool {
    match w {
        Some(i) => i < wires.len() && wires[i as int],
        None => false,
    }
}

pub open spec fn input_values(m: CircuitModel, wires: Seq<bool>) -> Seq<bool> {
    Seq::new(m.inputs.len(), |i: int| read_wire(wires, m.inputs[i]))
}

/// Output of a circuit slot for the given wire states.
pub open spec fn eval(slot: Option<CircuitModel>, wires: Seq<bool>) -> bool {
    match slot {
        None => false,
        Some(m) => match m.logic {
            Logic::Gate { kind, parity } => kind.value_spec(parity, input_values(m, wires)),
            Logic::Source { on } => on,
        },
    }
}

/// The slot is a circuit whose output pin is attached to wire `w`.
pub open spec fn drives(slot: Option<CircuitModel>, w: int) -> bool {
    match slot {
        Some(m) => m.output == Some(w as usize),
        None => false,
    }
}

/// Wire states as the outputs drive them.
pub open spec fn merge(t: Topology, outs: Seq<bool>) -> Seq<bool> {
    Seq::new(
        t.wire_alive.len(),
        |w: int|
            t.wire_alive[w] && exists|c: int| 0 <= c < t.circuits.len() && #[trigger] drives(t.circuits[c], w) && outs[c],
    )
}

/// Outputs after one pass from `outs`.
pub open spec fn next_outs(t: Topology, outs: Seq<bool>) -> Seq<bool> {
    Seq::new(t.circuits.len(), |c: int| eval(t.circuits[c], merge(t, outs)))
}

/// Power-on outputs.
pub open spec fn init_outs(t: Topology) -> Seq<bool> {
    Seq::new(
        t.circuits.len(),
        |c: int|
            match t.circuits[c] {
                Some(m) => m.logic.init_spec(),
                None => false,
            },
    )
}

/// Passes from `outs` until a fixed point, at most `fuel` of them; the
/// flag says whether the last outputs are a fixed point.
pub open spec fn run(t: Topology, outs: Seq<bool>, fuel: nat) -> (Seq<bool>, bool)
    decreases fuel,
{
    let next = next_outs(t, outs);
    if next == outs {
        (outs, true)
    } else if fuel == 0 {
        (outs, false)
    } else {
        run(t, next, (fuel - 1) as nat)
    }
}

/// Outputs, wire states and stability at the end of a wave started from `v`.
pub open spec fn wave_result(v: BoardView) -> (Seq<bool>, Seq<bool>, bool) {
    let r = run(v.topo, v.outs, v.cap);
    (r.0, merge(v.topo, r.0), r.1)
}

impl BoardView {
    /// Every wire carries what its drivers output, and every circuit outputs
    /// what its inputs give.
    pub open spec fn settled(self) -> bool {
        &&& self.outs.len() == self.topo.circuits.len()
        &&& self.wires == merge(self.topo, self.outs)
        &&& next_outs(self.topo, self.outs) == self.outs
    }

    /// Outputs at power-on and every wire low: the state of a board that has
    /// only been edited.
    pub open spec fn power_on(self) -> bool {
        &&& self.outs == init_outs(self.topo)
        &&& self.wires == Seq::new(self.topo.wire_alive.len(), |w: int| false)
    }
}

/// The last outputs of a run are a fixed point exactly when the run says so.
pub proof fn lemma_run_flag(t: Topology, outs: Seq<bool>, fuel: nat)
    ensures
        run(t, outs, fuel).1 == (next_outs(t, run(t, outs, fuel).0) == run(t, outs, fuel).0),
        run(t, outs, fuel).0.len() == outs.len() || run(t, outs, fuel).0.len() == t.circuits.len(),
    decreases fuel,
{
    if next_outs(t, outs) != outs && fuel > 0 {
        lemma_run_flag(t, next_outs(t, outs), (fuel - 1) as nat);
    }
}

/// A live board: circuits and wires in arenas indexed by id.
pub struct CircuitBoard {
    circuits: Vec<Option<BoardCircuit>>,
    outs: Vec<bool>,
    wires: Vec<bool>,
    wire_alive: Vec<bool>,
    queue: Vec<usize>,
    ordered: bool,
    unstable: bool,
    iteration_cap: usize,
    extent: Vec2usize,
}

impl View for CircuitBoard {
    type V = BoardView;

    closed spec fn view(&self) -> BoardView {
        BoardView {
            topo: Topology {
                circuits: Seq::new(self.circuits@.len(), |c: int| model_of(self.circuits@[c])),
                wire_alive: self.wire_alive@,
            },
            footprints: Seq::new(self.circuits@.len(), |c: int| footprint_of(self.circuits@[c])),
            extent: self.extent,
            outs: self.outs@,
            wires: self.wires@,
            queue: self.queue@,
            ordered: self.ordered,
            unstable: self.unstable,
            cap: self.iteration_cap as nat,
        }
    }
}

impl CircuitBoard {
    /// Sizes agree, queued ids are circuit ids, and every circuit that is not
    /// queued outputs what its inputs give.
    pub closed spec fn wf(&self) -> bool {
        &&& self.outs@.len() == self.circuits@.len()
        &&& self.wires@.len() == self.wire_alive@.len()
        &&& 2 * self.extent.x <= usize::MAX
        &&& 2 * self.extent.y <= usize::MAX
        &&& forall|c: int|
            0 <= c < self.circuits@.len() && #[trigger] self.circuits@[c] is Some ==> placed_ok(
                footprint_of(self.circuits@[c])->0,
                self.extent,
            )
        &&& forall|i: int| 0 <= i < self.queue@.len() ==> #[trigger] self.queue@[i] < self.circuits@.len()
        &&& forall|c: int|
            0 <= c < self.circuits@.len() && !self.queue@.contains(c as usize) ==> #[trigger] self.outs@[c] == eval(
                model_of(self.circuits@[c]),
                self.wires@,
            )
    }

    proof fn lemma_view_facts(&self)
        ensures
            self@.topo.circuits.len() == self.circuits@.len(),
            forall|c: int| 0 <= c < self.circuits@.len() ==> #[trigger] self@.topo.circuits[c] == model_of(self.circuits@[c]),
            self@.topo.wire_alive == self.wire_alive@,
            self@.outs == self.outs@,
            self@.wires == self.wires@,
            self@.queue == self.queue@,
            self@.cap == self.iteration_cap as nat,
            self@.extent == self.extent,
            self@.footprints.len() == self.circuits@.len(),
            forall|c: int| 0 <= c < self.circuits@.len() ==> #[trigger] self@.footprints[c] == footprint_of(self.circuits@[c]),
    {
    }

    /// States of the input pins of `bc` under `wires`.
    fn input_values_of(bc: &BoardCircuit, wires: &Vec<bool>) -> (r: Vec<bool>)
        ensures
            r@ == input_values(model_of(Some(*bc))->0, wires@),
    {
        let mut r: Vec<bool> = Vec::new();
        let mut i: usize = 0;
        while i < bc.inputs.len()
            invariant
                i <= bc.inputs@.len(),
                r@.len() == i,
                forall|j: int| 0 <= j < i ==> #[trigger] r@[j] == read_wire(wires@, bc.inputs@[j]),
            decreases bc.inputs@.len() - i,
        {
            let v = match bc.inputs[i] {
                Some(w) => w < wires.len() && wires[w],
                None => false,
            };
            r.push(v);
            i = i + 1;
        }
        proof {
            assert(r@ =~= input_values(model_of(Some(*bc))->0, wires@));
        }
        r
    }

    /// Output of circuit slot `c` under `wires`.
    fn eval_circuit(&self, c: usize, wires: &Vec<bool>) -> (r: bool)
        requires
            c < self.circuits@.len(),
        ensures
            r == eval(model_of(self.circuits@[c as int]), wires@),
    {
        match &self.circuits[c] {
            None => false,
            Some(bc) => match bc.logic {
                Logic::Gate { kind, parity } => {
                    let vals = CircuitBoard::input_values_of(bc, wires);
                    kind.evaluate(parity, vals.as_slice()).out
                },
                Logic::Source { on } => on,
            },
        }
    }

    /// Wire states as the current outputs drive them.
    fn merged_wires(&self) -> (r: Vec<bool>)
        requires
            self.wf(),
        ensures
            r@ == merge(self@.topo, self.outs@),
    {
        proof {
            self.lemma_view_facts();
        }
        let ghost t = self@.topo;
        let k = self.wire_alive.len();
        let mut r: Vec<bool> = Vec::new();
        let mut w: usize = 0;
        while w < k
            invariant
                k == self.wire_alive@.len(),
                w <= k,
                r@.len() == w,
                forall|j: int| 0 <= j < w ==> !#[trigger] r@[j],
            decreases k - w,
        {
            r.push(false);
            w = w + 1;
        }
        let n = self.circuits.len();
        let mut c: usize = 0;
        while c < n
            invariant
                self.wf(),
                t == self@.topo,
                n == self.circuits@.len(),
                k == self.wire_alive@.len(),
                c <= n,
                r@.len() == k,
                forall|j: int|
                    0 <= j < k ==> #[trigger] r@[j] == (t.wire_alive[j] && exists|d: int|
                        0 <= d < c && #[trigger] drives(t.circuits[d], j) && self.outs@[d]),
            decreases n - c,
        {
            proof {
                self.lemma_view_facts();
            }
            let ghost before = r@;
            if let Some(bc) = &self.circuits[c] {
                if let Some(w) = bc.output {
                    if w < k && self.wire_alive[w] && self.outs[c] {
                        r.set(w, true);
                    }
                }
            }
            proof {
                assert forall|j: int| 0 <= j < k implies #[trigger] r@[j] == (t.wire_alive[j] && exists|d: int|
                    0 <= d < c + 1 && #[trigger] drives(t.circuits[d], j) && self.outs@[d]) by {
                    if drives(t.circuits[c as int], j) && self.outs@[c as int] && t.wire_alive[j] {
                        assert(r@[j]);
                    } else {
                        assert(r@[j] == before[j]);
                        if exists|d: int| 0 <= d < c + 1 && #[trigger] drives(t.circuits[d], j) && self.outs@[d] {
                            let d = choose|d: int| 0 <= d < c + 1 && #[trigger] drives(t.circuits[d], j) && self.outs@[d];
                            if t.wire_alive[j] {
                                assert(d != c);
                            }
                        }
                    }
                }
            }
            c = c + 1;
        }
        proof {
            assert(r@ =~= merge(t, self.outs@));
        }
        r
    }

    /// Whether some input pin of `bc` reads differently under `new` than
    /// under `old`.
    fn inputs_changed(bc: &BoardCircuit, old: &Vec<bool>, new: &Vec<bool>) -> (r: bool)
        ensures
            !r ==> input_values(model_of(Some(*bc))->0, old@) == input_values(model_of(Some(*bc))->0, new@),
    {
        let mut i: usize = 0;
        while i < bc.inputs.len()
            invariant
                i <= bc.inputs@.len(),
                forall|j: int| 0 <= j < i ==> read_wire(old@, #[trigger] bc.inputs@[j]) == read_wire(new@, bc.inputs@[j]),
            decreases bc.inputs@.len() - i,
        {
            let (a, b) = match bc.inputs[i] {
                Some(w) => (w < old.len() && old[w], w < new.len() && new[w]),
                None => (false, false),
            };
            if a != b {
                return true;
            }
            i = i + 1;
        }
        proof {
            let m = model_of(Some(*bc))->0;
            assert(input_values(m, old@) =~= input_values(m, new@));
        }
        false
    }

    /// Queues every circuit with an input pin whose wire state differs
    /// between the current states and `new_wires`.
    fn mark_changed_readers(&self, new_wires: &Vec<bool>, queue: &mut Vec<usize>)
        requires
            forall|i: int| 0 <= i < old(queue)@.len() ==> #[trigger] old(queue)@[i] < self.circuits@.len(),
        ensures
            forall|i: int| 0 <= i < final(queue)@.len() ==> #[trigger] final(queue)@[i] < self.circuits@.len(),
            forall|c: usize| old(queue)@.contains(c) ==> final(queue)@.contains(c),
            forall|c: int|
                0 <= c < self.circuits@.len() && !final(queue)@.contains(c as usize) ==> eval(
                    model_of(#[trigger] self.circuits@[c]),
                    self.wires@,
                ) == eval(model_of(self.circuits@[c]), new_wires@),
    {
        let ghost q0 = queue@;
        let n = self.circuits.len();
        let mut c: usize = 0;
        while c < n
            invariant
                n == self.circuits@.len(),
                c <= n,
                queue@.len() >= q0.len(),
                forall|i: int| 0 <= i < q0.len() ==> #[trigger] queue@[i] == q0[i],
                forall|i: int| 0 <= i < queue@.len() ==> #[trigger] queue@[i] < n,
                forall|d: int|
                    0 <= d < c && !queue@.contains(d as usize) ==> eval(
                        model_of(#[trigger] self.circuits@[d]),
                        self.wires@,
                    ) == eval(model_of(self.circuits@[d]), new_wires@),
            decreases n - c,
        {
            let changed = match &self.circuits[c] {
                Some(bc) => CircuitBoard::inputs_changed(bc, &self.wires, new_wires),
                None => false,
            };
            let ghost before = queue@;
            if changed {
                queue.push(c);
                proof {
                    assert forall|d: usize| before.contains(d) implies queue@.contains(d) by {
                        let i = choose|i: int| 0 <= i < before.len() && before[i] == d;
                        assert(queue@[i] == d);
                    }
                }
            }
            proof {
                assert forall|d: int|
                    0 <= d < c + 1 && !queue@.contains(d as usize) implies eval(
                        model_of(#[trigger] self.circuits@[d]),
                        self.wires@,
                    ) == eval(model_of(self.circuits@[d]), new_wires@) by {
                    if d < c {
                        if before.contains(d as usize) {
                            let i = choose|i: int| 0 <= i < before.len() && before[i] == d as usize;
                            assert(queue@[i] == d as usize);
                        }
                    } else {
                        if changed {
                            assert(queue@[queue@.len() - 1] == c);
                        }
                    }
                }
            }
            c = c + 1;
        }
        proof {
            assert forall|d: usize| q0.contains(d) implies queue@.contains(d) by {
                let i = choose|i: int| 0 <= i < q0.len() && q0[i] == d;
                assert(queue@[i] == d);
            }
        }
    }

    /// New outputs of the queued circuits whose output changes under
    /// `new_wires`. In ordered mode the circuits are visited by id, once
    /// each; otherwise in queue order.
    fn collect_changes(&self, new_wires: &Vec<bool>, queue: &Vec<usize>) -> (r: Vec<(usize, bool)>)
        requires
            self.outs@.len() == self.circuits@.len(),
            forall|i: int| 0 <= i < queue@.len() ==> #[trigger] queue@[i] < self.circuits@.len(),
        ensures
            forall|j: int|
                0 <= j < r@.len() ==> (#[trigger] r@[j]).0 < self.circuits@.len() && r@[j].1 == eval(
                    model_of(self.circuits@[r@[j].0 as int]),
                    new_wires@,
                ) && r@[j].1 != self.outs@[r@[j].0 as int],
            forall|c: int|
                0 <= c < self.circuits@.len() && queue@.contains(c as usize) && self.outs@[c] != eval(
                    model_of(#[trigger] self.circuits@[c]),
                    new_wires@,
                ) ==> exists|j: int| 0 <= j < r@.len() && (#[trigger] r@[j]).0 == c,
    {
        let n = self.circuits.len();
        let mut r: Vec<(usize, bool)> = Vec::new();
        if self.ordered {
            let mut flags: Vec<bool> = Vec::new();
            let mut c: usize = 0;
            while c < n
                invariant
                    c <= n,
                    flags@.len() == c,
                decreases n - c,
            {
                flags.push(false);
                c = c + 1;
            }
            let mut i: usize = 0;
            while i < queue.len()
                invariant
                    n == self.circuits@.len(),
                    flags@.len() == n,
                    i <= queue@.len(),
                    forall|k: int| 0 <= k < queue@.len() ==> #[trigger] queue@[k] < n,
                    forall|k: int| 0 <= k < i ==> flags@[#[trigger] queue@[k] as int],
                decreases queue@.len() - i,
            {
                flags.set(queue[i], true);
                i = i + 1;
            }
            let mut c: usize = 0;
            while c < n
                invariant
                    n == self.circuits@.len(),
                    self.outs@.len() == n,
                    flags@.len() == n,
                    c <= n,
                    forall|j: int|
                        0 <= j < r@.len() ==> (#[trigger] r@[j]).0 < n && r@[j].1 == eval(
                            model_of(self.circuits@[r@[j].0 as int]),
                            new_wires@,
                        ) && r@[j].1 != self.outs@[r@[j].0 as int],
                    forall|d: int|
                        0 <= d < c && flags@[d] && self.outs@[d] != eval(model_of(#[trigger] self.circuits@[d]), new_wires@)
                            ==> exists|j: int| 0 <= j < r@.len() && (#[trigger] r@[j]).0 == d,
                decreases n - c,
            {
                let ghost before = r@;
                if flags[c] {
                    let v = self.eval_circuit(c, new_wires);
                    if v != self.outs[c] {
                        r.push((c, v));
                        proof {
                            assert(r@[r@.len() - 1].0 == c);
                        }
                    }
                }
                proof {
                    assert forall|d: int|
                        0 <= d < c + 1 && flags@[d] && self.outs@[d] != eval(model_of(#[trigger] self.circuits@[d]), new_wires@)
                            implies exists|j: int| 0 <= j < r@.len() && (#[trigger] r@[j]).0 == d by {
                        if d < c {
                            let j = choose|j: int| 0 <= j < before.len() && (#[trigger] before[j]).0 == d;
                            assert(r@[j] == before[j]);
                        } else {
                            assert(r@[r@.len() - 1].0 == c);
                        }
                    }
                }
                c = c + 1;
            }
            proof {
                assert forall|d: int|
                    0 <= d < n && queue@.contains(d as usize) && self.outs@[d] != eval(
                        model_of(#[trigger] self.circuits@[d]),
                        new_wires@,
                    ) implies exists|j: int| 0 <= j < r@.len() && (#[trigger] r@[j]).0 == d by {
                    let k = choose|k: int| 0 <= k < queue@.len() && queue@[k] == d as usize;
                    assert(flags@[queue@[k] as int]);
                }
            }
        } else {
            let mut i: usize = 0;
            while i < queue.len()
                invariant
                    n == self.circuits@.len(),
                    self.outs@.len() == n,
                    i <= queue@.len(),
                    forall|k: int| 0 <= k < queue@.len() ==> #[trigger] queue@[k] < n,
                    forall|j: int|
                        0 <= j < r@.len() ==> (#[trigger] r@[j]).0 < n && r@[j].1 == eval(
                            model_of(self.circuits@[r@[j].0 as int]),
                            new_wires@,
                        ) && r@[j].1 != self.outs@[r@[j].0 as int],
                    forall|k: int|
                        0 <= k < i && self.outs@[#[trigger] queue@[k] as int] != eval(
                            model_of(self.circuits@[queue@[k] as int]),
                            new_wires@,
                        ) ==> exists|j: int| 0 <= j < r@.len() && (#[trigger] r@[j]).0 == queue@[k],
                decreases queue@.len() - i,
            {
                let c = queue[i];
                let ghost before = r@;
                let v = self.eval_circuit(c, new_wires);
                if v != self.outs[c] {
                    r.push((c, v));
                    proof {
                        assert(r@[r@.len() - 1].0 == c);
                    }
                }
                proof {
                    assert forall|k: int|
                        0 <= k < i + 1 && self.outs@[#[trigger] queue@[k] as int] != eval(
                            model_of(self.circuits@[queue@[k] as int]),
                            new_wires@,
                        ) implies exists|j: int| 0 <= j < r@.len() && (#[trigger] r@[j]).0 == queue@[k] by {
                        if k < i {
                            let j = choose|j: int| 0 <= j < before.len() && (#[trigger] before[j]).0 == queue@[k];
                            assert(r@[j] == before[j]);
                        } else {
                            assert(r@[r@.len() - 1].0 == c);
                        }
                    }
                }
                i = i + 1;
            }
            proof {
                assert forall|d: int|
                    0 <= d < n && queue@.contains(d as usize) && self.outs@[d] != eval(
                        model_of(#[trigger] self.circuits@[d]),
                        new_wires@,
                    ) implies exists|j: int| 0 <= j < r@.len() && (#[trigger] r@[j]).0 == d by {
                    let k = choose|k: int| 0 <= k < queue@.len() && queue@[k] == d as usize;
                    assert(self.outs@[queue@[k] as int] != eval(model_of(self.circuits@[queue@[k] as int]), new_wires@));
                }
            }
        }
        r
    }
}

/// Writes each change into `outs`.
fn apply_changes(outs: &mut Vec<bool>, changes: &Vec<(usize, bool)>)
    requires
        forall|j: int| 0 <= j < changes@.len() ==> (#[trigger] changes@[j]).0 < old(outs)@.len(),
        forall|j1: int, j2: int|
            0 <= j1 < changes@.len() && 0 <= j2 < changes@.len() && (#[trigger] changes@[j1]).0 == (#[trigger] changes@[j2]).0
                ==> changes@[j1].1 == changes@[j2].1,
    ensures
        final(outs)@.len() == old(outs)@.len(),
        forall|j: int| 0 <= j < changes@.len() ==> final(outs)@[(#[trigger] changes@[j]).0 as int] == changes@[j].1,
        forall|c: int|
            0 <= c < old(outs)@.len() && (forall|j: int| 0 <= j < changes@.len() ==> (#[trigger] changes@[j]).0 != c)
                ==> #[trigger] final(outs)@[c] == old(outs)@[c],
{
    let mut i: usize = 0;
    while i < changes.len()
        invariant
            i <= changes@.len(),
            outs@.len() == old(outs)@.len(),
            forall|j: int| 0 <= j < changes@.len() ==> (#[trigger] changes@[j]).0 < old(outs)@.len(),
            forall|j1: int, j2: int|
                0 <= j1 < changes@.len() && 0 <= j2 < changes@.len() && (#[trigger] changes@[j1]).0 == (#[trigger] changes@[j2]).0
                    ==> changes@[j1].1 == changes@[j2].1,
            forall|j: int| 0 <= j < i ==> outs@[(#[trigger] changes@[j]).0 as int] == changes@[j].1,
            forall|c: int|
                0 <= c < old(outs)@.len() && (forall|j: int| 0 <= j < i ==> (#[trigger] changes@[j]).0 != c)
                    ==> #[trigger] outs@[c] == old(outs)@[c],
        decreases changes@.len() - i,
    {
        let (c, v) = changes[i];
        outs.set(c, v);
        i = i + 1;
    }
}

impl CircuitBoard {
    /// Runs a propagation wave from the queued circuits and the wire states
    /// the current outputs drive. Each pass evaluates the dirty circuits
    /// against one snapshot of wire states and then applies the changed
    /// outputs; the wave ends at a fixed point (`Stable`) or, once the
    /// iteration cap of applied passes is used up, with the board flagged
    /// `Unstable` and the circuits that still want to change left queued.
    pub fn update(&mut self) -> (r: Stability)
        requires
            old(self).wf(),
        ensures
            final(self).wf(),
            final(self)@.topo == old(self)@.topo,
            final(self)@.cap == old(self)@.cap,
            final(self)@.ordered == old(self)@.ordered,
            (final(self)@.outs, final(self)@.wires, r == Stability::Stable) == wave_result(old(self)@),
            final(self)@.unstable == (r == Stability::Unstable),
            (r == Stability::Stable) == final(self)@.settled(),
    {
        let ghost t = self@.topo;
        let ghost start = self.outs@;
        let cap = self.iteration_cap;
        let mut pass: usize = 0;
        proof {
            self.lemma_view_facts();
            lemma_run_flag(t, start, cap as nat);
        }
        loop
            invariant
                self.wf(),
                self@.topo == t,
                t == old(self)@.topo,
                start == old(self)@.outs,
                self.circuits@ == old(self).circuits@,
                self.wire_alive@ == old(self).wire_alive@,
                self.iteration_cap == cap,
                cap == old(self).iteration_cap,
                self.ordered == old(self).ordered,
                pass <= cap,
                run(t, self.outs@, (cap - pass) as nat) == run(t, start, cap as nat),
            decreases cap - pass,
        {
            proof {
                self.lemma_view_facts();
            }
            let new_wires = self.merged_wires();
            let mut queue: Vec<usize> = Vec::new();
            std::mem::swap(&mut queue, &mut self.queue);
            self.mark_changed_readers(&new_wires, &mut queue);
            let changes = self.collect_changes(&new_wires, &queue);
            let ghost outs0 = self.outs@;
            proof {
                // every circuit that is not among the changes already outputs
                // what the new wire states give
                assert forall|c: int|
                    0 <= c < self.circuits@.len() && (forall|j: int|
                        0 <= j < changes@.len() ==> (#[trigger] changes@[j]).0 != c) implies #[trigger] outs0[c]
                    == eval(model_of(self.circuits@[c]), new_wires@) by {
                    if queue@.contains(c as usize) {
                        if outs0[c] != eval(model_of(self.circuits@[c]), new_wires@) {
                            let j = choose|j: int| 0 <= j < changes@.len() && (#[trigger] changes@[j]).0 == c;
                        }
                    }
                }
                assert forall|c: int| 0 <= c < self.circuits@.len() implies #[trigger] next_outs(t, outs0)[c]
                    == eval(model_of(self.circuits@[c]), new_wires@) by {
                    assert(t.circuits[c] == model_of(self.circuits@[c]));
                }
            }
            self.wires = new_wires;
            if changes.len() == 0 {
                proof {
                    assert(next_outs(t, outs0) =~= outs0);
                }
                self.unstable = false;
                proof {
                    self.lemma_view_facts();
                    assert(self.queue@ =~= Seq::<usize>::empty());
                    assert(self@.topo == old(self)@.topo);
                    assert(run(t, outs0, (cap - pass) as nat) == (outs0, true));
                }
                return Stability::Stable;
            }
            proof {
                assert(next_outs(t, outs0)[changes@[0].0 as int] != outs0[changes@[0].0 as int]);
            }
            if pass >= cap {
                let mut ids: Vec<usize> = Vec::new();
                let mut j: usize = 0;
                while j < changes.len()
                    invariant
                        j <= changes@.len(),
                        ids@.len() == j,
                        forall|k: int| 0 <= k < j ==> #[trigger] ids@[k] == changes@[k].0,
                    decreases changes@.len() - j,
                {
                    ids.push(changes[j].0);
                    j = j + 1;
                }
                self.queue = ids;
                self.unstable = true;
                proof {
                    self.lemma_view_facts();
                    assert forall|c: int|
                        0 <= c < self.circuits@.len() && !self.queue@.contains(c as usize) implies #[trigger] self.outs@[c]
                        == eval(model_of(self.circuits@[c]), self.wires@) by {
                        assert forall|j: int| 0 <= j < changes@.len() implies (#[trigger] changes@[j]).0 != c by {
                            assert(self.queue@[j] == changes@[j].0);
                        }
                    }
                    assert(self@.topo == old(self)@.topo);
                    assert(run(t, outs0, 0) == (outs0, false));
                }
                return Stability::Unstable;
            }
            apply_changes(&mut self.outs, &changes);
            proof {
                assert(self.outs@ =~= next_outs(t, outs0)) by {
                    assert forall|c: int| 0 <= c < self.outs@.len() implies #[trigger] self.outs@[c] == next_outs(t, outs0)[c] by {
                        if exists|j: int| 0 <= j < changes@.len() && (#[trigger] changes@[j]).0 == c {
                            let j = choose|j: int| 0 <= j < changes@.len() && (#[trigger] changes@[j]).0 == c;
                        }
                    }
                }
                self.lemma_view_facts();
                assert(self.queue@ =~= Seq::<usize>::empty());
            }
            pass = pass + 1;
        }
    }
}

/// Why a structural edit was refused; the board is left unchanged.
#[derive(Debug, Clone, Copy, PartialEq, Eq, Structural)]
pub enum EditError {
    /// No circuit with that id, or it was removed.
    NoSuchCircuit,
    /// The circuit has no input pin with that index.
    NoSuchPin,
    /// No wire with that id, or it was removed.
    NoSuchWire,
    /// The circuit is not a source.
    NotASource,
    /// The circuit is not an XOR or XNOR gate.
    NoParityMode,
    /// The footprint leaves the board.
    OutOfBounds,
    /// The footprint shares an occupied quarter with another circuit.
    Overlap,
}

impl BoardView {
    pub open spec fn has_circuit(self, c: int) -> bool {
        0 <= c < self.topo.circuits.len() && self.topo.circuits[c] is Some
    }

    pub open spec fn has_wire(self, w: int) -> bool {
        0 <= w < self.topo.wire_alive.len() && self.topo.wire_alive[w]
    }

    /// The same board with circuit `c`'s model replaced.
    pub open spec fn with_circuit(self, c: int, m: Option<CircuitModel>) -> BoardView {
        BoardView { topo: Topology { circuits: self.topo.circuits.update(c, m), ..self.topo }, ..self }
    }
}

impl CircuitBoard {
    /// An empty board of `extent` cells whose waves apply at most
    /// `iteration_cap` passes.
    pub fn new(extent: Vec2usize, iteration_cap: usize) -> (r: Self)
        requires
            2 * extent.x <= usize::MAX,
            2 * extent.y <= usize::MAX,
        ensures
            r.wf(),
            r@.extent == extent,
            r@.topo.circuits.len() == 0,
            r@.topo.wire_alive.len() == 0,
            r@.cap == iteration_cap,
            !r@.ordered,
            !r@.unstable,
            r@.power_on(),
    {
        let r = CircuitBoard {
            circuits: Vec::new(),
            outs: Vec::new(),
            wires: Vec::new(),
            wire_alive: Vec::new(),
            queue: Vec::new(),
            ordered: false,
            unstable: false,
            iteration_cap,
            extent,
        };
        proof {
            assert(r@.outs =~= init_outs(r@.topo));
            assert(r@.wires =~= Seq::new(0, |w: int| false));
        }
        r
    }

    pub fn circuit_count(&self) -> (r: usize)
        ensures
            r == self@.topo.circuits.len(),
    {
        self.circuits.len()
    }

    pub fn wire_count(&self) -> (r: usize)
        ensures
            r == self@.topo.wire_alive.len(),
    {
        self.wire_alive.len()
    }

    /// Whether the last wave hit the iteration cap.
    pub fn is_unstable(&self) -> (r: bool)
        ensures
            r == self@.unstable,
    {
        self.unstable
    }

    pub fn is_ordered(&self) -> (r: bool)
        ensures
            r == self@.ordered,
    {
        self.ordered
    }

    /// Current state of wire `w`, if it exists.
    pub fn wire_state(&self, w: usize) -> (r: Option<bool>)
        requires
            self.wf(),
        ensures
            r == (if self@.has_wire(w as int) {
                Some(self@.wires[w as int])
            } else {
                None
            }),
    {
        if w < self.wire_alive.len() && self.wire_alive[w] {
            Some(self.wires[w])
        } else {
            None
        }
    }

    /// Current output of circuit `c`, if it exists.
    pub fn output(&self, c: usize) -> (r: Option<bool>)
        requires
            self.wf(),
        ensures
            r == (if self@.has_circuit(c as int) {
                Some(self@.outs[c as int])
            } else {
                None
            }),
    {
        if c < self.circuits.len() && self.circuits[c].is_some() {
            Some(self.outs[c])
        } else {
            None
        }
    }
}

/// Why a saved state does not fit a board; the board is left unchanged.
#[derive(Debug, Clone, Copy, PartialEq, Eq, Structural)]
pub enum StateError {
    /// The number of circuit outputs differs from the number of circuits.
    CircuitCount,
    /// The number of wire states differs from the number of wires.
    WireCount,
}

/// The ids `0..n` in order.
fn all_ids(n: usize) -> (r: Vec<usize>)
    ensures
        r@.len() == n,
        forall|i: int| 0 <= i < n ==> #[trigger] r@[i] == i,
{
    let mut r: Vec<usize> = Vec::new();
    let mut i: usize = 0;
    while i < n
        invariant
            i <= n,
            r@.len() == i,
            forall|j: int| 0 <= j < i ==> #[trigger] r@[j] == j,
        decreases n - i,
    {
        r.push(i);
        i = i + 1;
    }
    r
}

impl CircuitBoard {
    /// Current state of pin `pin` of circuit `c`: what an input pin reads
    /// from its wire, or the circuit's output for the pin after the inputs.
    pub fn pin_state(&self, c: usize, pin: usize) -> (r: Option<bool>)
        requires
            self.wf(),
        ensures
            r == (if !self@.has_circuit(c as int) {
                None
            } else if pin < self@.topo.circuits[c as int]->0.inputs.len() {
                Some(read_wire(self@.wires, self@.topo.circuits[c as int]->0.inputs[pin as int]))
            } else if pin == self@.topo.circuits[c as int]->0.inputs.len() {
                Some(self@.outs[c as int])
            } else {
                None
            }),
    {
        proof {
            self.lemma_view_facts();
        }
        if c >= self.circuits.len() {
            return None;
        }
        match &self.circuits[c] {
            None => None,
            Some(bc) => if pin < bc.inputs.len() {
                Some(
                    match bc.inputs[pin] {
                        Some(w) => w < self.wires.len() && self.wires[w],
                        None => false,
                    },
                )
            } else if pin == bc.inputs.len() {
                Some(self.outs[c])
            } else {
                None
            },
        }
    }

    /// Placement record of circuit `c`: position, sizes and transform.
    pub fn circuit_info(&self, c: usize) -> (r: Option<CircuitInfo>)
        requires
            self.wf(),
        ensures
            r == (if self@.has_circuit(c as int) {
                Some(self@.footprints[c as int]->0.info)
            } else {
                None
            }),
    {
        proof {
            self.lemma_view_facts();
        }
        if c >= self.circuits.len() {
            return None;
        }
        match &self.circuits[c] {
            None => None,
            Some(bc) => Some(bc.info),
        }
    }
}

impl CircuitBoard {
    /// How circuit `c` computes its output: gate type and parity mode, or
    /// source value.
    pub fn logic(&self, c: usize) -> (r: Option<Logic>)
        requires
            self.wf(),
        ensures
            r == (if self@.has_circuit(c as int) {
                Some(self@.topo.circuits[c as int]->0.logic)
            } else {
                None
            }),
    {
        proof {
            self.lemma_view_facts();
        }
        if c >= self.circuits.len() {
            return None;
        }
        match &self.circuits[c] {
            None => None,
            Some(bc) => Some(bc.logic),
        }
    }
}

} // verus!
