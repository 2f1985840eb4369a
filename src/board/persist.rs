//! Saving and restoring: simulation-state snapshots and the saved layout
//! of a board.

use vstd::prelude::*;

use crate::blueprint::CircuitImplBox;
use crate::geometry::Vec2usize;
use crate::io::{Board as SavedBoard, BoardStateSavestate, CircuitSavestate, Wire};
use super::placement::{conflict, footprint_at, overlaps};
use super::{BoardCircuit, BoardView, CircuitBoard, CircuitModel, EditError, Footprint, StateError, Topology, all_ids, eval, footprint_of, init_outs, model_of, occupies, placed_ok};

verus! {

fn copy_bools(v: &Vec<bool>) -> (r: Vec<bool>)
    ensures
        r@ == v@,
{
    let r = v.clone();
    proof {
        assert(r@ =~= v@);
    }
    r
}

impl CircuitBoard {
    /// The current simulation state.
    pub fn save_state(&self) -> (r: BoardStateSavestate)
        ensures
            r.outs@ == self@.outs,
            r.wires@ == self@.wires,
            r.queue@ == self@.queue,
    {
        let queue = self.queue.clone();
        proof {
            assert(queue@ =~= self.queue@);
        }
        BoardStateSavestate { outs: copy_bools(&self.outs), wires: copy_bools(&self.wires), queue }
    }

    /// Resumes from a saved simulation state of a board with this topology.
    /// Every circuit is queued, so no pending evaluation of the saved state
    /// is lost.
    pub fn load_state(&mut self, s: &BoardStateSavestate) -> (r: Result<(), StateError>)
        requires
            old(self).wf(),
        ensures
            final(self).wf(),
            s.outs@.len() != old(self)@.topo.circuits.len() ==> r == Err::<(), StateError>(StateError::CircuitCount),
            s.outs@.len() == old(self)@.topo.circuits.len() && s.wires@.len() != old(self)@.topo.wire_alive.len() ==> r
                == Err::<(), StateError>(StateError::WireCount),
            r is Err ==> final(self)@ == old(self)@,
            r is Ok ==> final(self)@ == (BoardView {
                outs: s.outs@,
                wires: s.wires@,
                queue: Seq::new(old(self)@.topo.circuits.len(), |i: int| i as usize),
                unstable: false,
                ..old(self)@
            }),
            r is Ok <==> s.outs@.len() == old(self)@.topo.circuits.len() && s.wires@.len()
                == old(self)@.topo.wire_alive.len(),
    {
        proof {
            self.lemma_view_facts();
        }
        if s.outs.len() != self.circuits.len() {
            return Err(StateError::CircuitCount);
        }
        if s.wires.len() != self.wire_alive.len() {
            return Err(StateError::WireCount);
        }
        self.outs = copy_bools(&s.outs);
        self.wires = copy_bools(&s.wires);
        self.queue = all_ids(self.circuits.len());
        self.unstable = false;
        proof {
            assert(self@.queue =~= Seq::new(self.circuits@.len() as nat, |i: int| i as usize));
            assert(self@.topo.circuits =~= old(self)@.topo.circuits);
            assert(self@.footprints =~= old(self)@.footprints);
            assert forall|d: int| 0 <= d < self.circuits@.len() implies #[trigger] self.queue@.contains(d as usize) by {
                assert(self.queue@[d] == d as usize);
            }
        }
        Ok(())
    }
}

/// The model of a saved circuit.
pub open spec fn saved_model(c: CircuitSavestate) -> CircuitModel {
    CircuitModel { logic: c.logic, inputs: c.inputs@, output: c.output }
}

/// Some saved wire has id `w`.
pub open spec fn saved_wire_present(wires: Seq<Wire>, w: int) -> bool {
    exists|j: int| 0 <= j < wires.len() && #[trigger] wires[j].id == w
}

/// Number of wire ids a saved board needs: one past the largest id.
pub open spec fn saved_wire_slots(wires: Seq<Wire>, k: nat) -> bool {
    &&& forall|j: int| 0 <= j < wires.len() ==> #[trigger] wires[j].id < k
    &&& (k == 0 || saved_wire_present(wires, k - 1))
}

/// Where a saved circuit goes.
pub open spec fn saved_footprint(c: CircuitSavestate) -> Footprint {
    footprint_at(c.imp, c.pos, c.dir, c.flip)
}

/// An attachment that is absent, or names a wire for which `present` holds.
pub open spec fn attachment_ok(w: Option<usize>, present: spec_fn(int) -> bool) -> bool {
    match w {
        Some(w) => present(w as int),
        None => true,
    }
}

/// The saved circuit has one attachment per input pin, and each of its
/// attachments names a wire for which `present` holds.
pub open spec fn attachments_ok(c: CircuitSavestate, present: spec_fn(int) -> bool) -> bool {
    &&& c.inputs@.len() == c.imp.pin_count() - 1
    &&& forall|i: int| 0 <= i < c.inputs@.len() ==> attachment_ok(#[trigger] c.inputs@[i], present)
    &&& attachment_ok(c.output, present)
}

/// A saved circuit can be added to a board in state `v`.
pub open spec fn restorable(v: BoardView, c: CircuitSavestate) -> bool {
    &&& attachments_ok(c, |w: int| v.has_wire(w))
    &&& placed_ok(saved_footprint(c), v.extent)
    &&& !overlaps(v, saved_footprint(c), v.topo.circuits.len() as int)
}

/// A saved layout loads on a board of size `extent`: every wire id is below
/// `usize::MAX`, every circuit's attachments name saved wires, every
/// footprint lies on the board, and no two footprints share an occupied
/// quarter.
pub open spec fn loadable(saved: SavedBoard, extent: Vec2usize) -> bool {
    &&& forall|j: int| 0 <= j < saved.wires@.len() ==> #[trigger] saved.wires@[j].id < usize::MAX
    &&& forall|j: int|
        0 <= j < saved.circuits@.len() ==> attachments_ok(
            #[trigger] saved.circuits@[j],
            |w: int| saved_wire_present(saved.wires@, w),
        )
    &&& forall|j: int| 0 <= j < saved.circuits@.len() ==> placed_ok(saved_footprint(#[trigger] saved.circuits@[j]), extent)
    &&& forall|j1: int, j2: int, q: Vec2usize|
        0 <= j1 < j2 < saved.circuits@.len() ==> !(occupies(saved_footprint(#[trigger] saved.circuits@[j1]), q)
            && #[trigger] occupies(saved_footprint(saved.circuits@[j2]), q))
}

impl CircuitBoard {
    /// Places a saved circuit with its saved attachments.
    fn restore_circuit(&mut self, c: &CircuitSavestate) -> (r: Result<usize, EditError>)
        requires
            old(self).wf(),
            old(self)@.power_on(),
        ensures
            final(self).wf(),
            final(self)@.power_on(),
            r is Ok <==> restorable(old(self)@, *c),
            r is Err ==> final(self)@ == old(self)@,
            r is Ok ==> r->Ok_0 == old(self)@.topo.circuits.len() && final(self)@ == (BoardView {
                topo: Topology { circuits: old(self)@.topo.circuits.push(Some(saved_model(*c))), ..old(self)@.topo },
                footprints: old(self)@.footprints.push(Some(footprint_at(c.imp, c.pos, c.dir, c.flip))),
                outs: old(self)@.outs.push(c.logic.init_spec()),
                queue: old(self)@.queue.push(r->Ok_0),
                ..old(self)@
            }),
    {
        let n_inputs = match c.imp {
            CircuitImplBox::Test(_) => 4,
            CircuitImplBox::Gate(g) => g.inputs,
        };
        if c.inputs.len() != n_inputs {
            return Err(EditError::NoSuchPin);
        }
        let mut i: usize = 0;
        while i < c.inputs.len()
            invariant
                i <= c.inputs@.len(),
                self.wf(),
                self@.power_on(),
                self@ == old(self)@,
                forall|j: int| 0 <= j < i ==> match #[trigger] c.inputs@[j] {
                    Some(w) => self@.has_wire(w as int),
                    None => true,
                },
            decreases c.inputs@.len() - i,
        {
            proof {
                self.lemma_view_facts();
            }
            if let Some(w) = c.inputs[i] {
                if w >= self.wire_alive.len() || !self.wire_alive[w] {
                    proof {
                        assert(!attachment_ok(c.inputs@[i as int], |w: int| self@.has_wire(w)));
                    }
                    return Err(EditError::NoSuchWire);
                }
            }
            i = i + 1;
        }
        proof {
            self.lemma_view_facts();
        }
        if let Some(w) = c.output {
            if w >= self.wire_alive.len() || !self.wire_alive[w] {
                return Err(EditError::NoSuchWire);
            }
        }
        proof {
            assert(attachments_ok(*c, |w: int| self@.has_wire(w)));
        }
        let placed = self.place_circuit(c.imp, c.pos, c.dir, c.flip, c.logic);
        let id = match placed {
            Ok(id) => id,
            Err(e) => return Err(e),
        };
        let ghost placed_view = self@;
        proof {
            assert(id == old(self)@.topo.circuits.len());
            assert(self@.topo.circuits[id as int] is Some);
            assert(self@.queue[self@.queue.len() - 1] == id);
        }
        let mut inputs: Vec<Option<usize>> = Vec::new();
        let mut j: usize = 0;
        while j < c.inputs.len()
            invariant
                j <= c.inputs@.len(),
                inputs@ == c.inputs@.subrange(0, j as int),
            decreases c.inputs@.len() - j,
        {
            inputs.push(c.inputs[j]);
            j = j + 1;
            proof {
                assert(inputs@ =~= c.inputs@.subrange(0, j as int));
            }
        }
        proof {
            assert(inputs@ =~= c.inputs@);
        }
        self.set_attachments(id, inputs, c.output);
        proof {
            assert(self@.topo.circuits =~= old(self)@.topo.circuits.push(Some(saved_model(*c))));
        }
        Ok(id)
    }

    /// Replaces every attachment of circuit `c`, which is queued.
    fn set_attachments(&mut self, c: usize, inputs: Vec<Option<usize>>, output: Option<usize>)
        requires
            old(self).wf(),
            old(self)@.has_circuit(c as int),
            old(self)@.queue.contains(c),
        ensures
            final(self).wf(),
            final(self)@ == old(self)@.with_circuit(
                c as int,
                Some(CircuitModel { inputs: inputs@, output, ..old(self)@.topo.circuits[c as int]->0 }),
            ),
            old(self)@.power_on() ==> final(self)@.power_on(),
    {
        proof {
            self.lemma_view_facts();
        }
        let ghost new_inputs = inputs@;
        let mut slot: Option<BoardCircuit> = None;
        std::mem::swap(&mut slot, &mut self.circuits[c]);
        if let Some(mut bc) = slot {
            bc.inputs = inputs;
            bc.output = output;
            self.circuits.set(c, Some(bc));
        }
        proof {
            let m = old(self)@.topo.circuits[c as int]->0;
            assert(self@.topo.circuits =~= old(self)@.topo.circuits.update(
                c as int,
                Some(CircuitModel { inputs: new_inputs, output, ..m }),
            ));
            assert(self@.footprints =~= old(self)@.footprints) by {
                assert forall|d: int| 0 <= d < self.circuits@.len() implies #[trigger] footprint_of(self.circuits@[d])
                    == footprint_of(old(self).circuits@[d]) by {}
            }
            assert forall|d: int| 0 <= d < self.circuits@.len() && #[trigger] self.circuits@[d] is Some implies placed_ok(
                footprint_of(self.circuits@[d])->0,
                self.extent,
            ) by {
                assert(footprint_of(self.circuits@[d]) == footprint_of(old(self).circuits@[d]));
            }
            assert forall|d: int| 0 <= d < self.circuits@.len() && !self.queue@.contains(d as usize) implies #[trigger] self.outs@[d]
                == eval(model_of(self.circuits@[d]), self.wires@) by {
                assert(self.circuits@[d] == old(self).circuits@[d]);
            }
            if old(self)@.power_on() {
                assert(self@.outs =~= init_outs(self@.topo));
            }
        }
    }
}

impl CircuitBoard {
    /// Rebuilds the board a saved layout describes: one wire id per id up to
    /// the largest saved one (those no saved wire uses are removed), then the
    /// saved circuits in order, with their saved placement and attachments.
    /// The board is in its power-on state; a saved simulation state can then
    /// be loaded with `load_state`. A circuit that cannot be placed, or that
    /// refers to a wire or pin that does not exist, fails the whole load.
    pub fn from_saved(saved: &SavedBoard, extent: Vec2usize, iteration_cap: usize) -> (r: Result<CircuitBoard, EditError>)
        requires
            2 * extent.x <= usize::MAX,
            2 * extent.y <= usize::MAX,
        ensures
            r is Ok <==> loadable(*saved, extent),
            r is Ok ==> {
                let b = r->Ok_0@;
                &&& r->Ok_0.wf()
                &&& b.power_on()
                &&& b.extent == extent
                &&& b.cap == iteration_cap
                &&& !b.ordered
                &&& b.topo.circuits == Seq::new(
                    saved.circuits@.len(),
                    |j: int| Some(saved_model(saved.circuits@[j])),
                )
                &&& b.footprints == Seq::new(
                    saved.circuits@.len(),
                    |j: int|
                        Some(
                            footprint_at(
                                saved.circuits@[j].imp,
                                saved.circuits@[j].pos,
                                saved.circuits@[j].dir,
                                saved.circuits@[j].flip,
                            ),
                        ),
                )
                &&& saved_wire_slots(saved.wires@, b.topo.wire_alive.len())
                &&& forall|w: int|
                    0 <= w < b.topo.wire_alive.len() ==> #[trigger] b.topo.wire_alive[w] == saved_wire_present(
                        saved.wires@,
                        w,
                    )
            },
    {
        let mut k: usize = 0;
        let mut j: usize = 0;
        while j < saved.wires.len()
            invariant
                j <= saved.wires@.len(),
                forall|i: int| 0 <= i < j ==> #[trigger] saved.wires@[i].id < k,
                k == 0 || saved_wire_present(saved.wires@, k - 1),
            decreases saved.wires@.len() - j,
        {
            let id = saved.wires[j].id;
            if id >= k {
                if id == usize::MAX {
                    proof {
                        assert(!(saved.wires@[j as int].id < usize::MAX));
                    }
                    return Err(EditError::NoSuchWire);
                }
                k = id + 1;
                proof {
                    assert(saved.wires@[j as int].id == k - 1);
                }
            }
            j = j + 1;
        }
        let mut flags: Vec<bool> = Vec::new();
        let mut w: usize = 0;
        while w < k
            invariant
                w <= k,
                flags@.len() == w,
                forall|i: int| 0 <= i < w ==> !#[trigger] flags@[i],
            decreases k - w,
        {
            flags.push(false);
            w = w + 1;
        }
        let mut j: usize = 0;
        while j < saved.wires.len()
            invariant
                j <= saved.wires@.len(),
                flags@.len() == k,
                forall|i: int| 0 <= i < saved.wires@.len() ==> #[trigger] saved.wires@[i].id < k,
                forall|i: int|
                    0 <= i < k ==> #[trigger] flags@[i] == exists|m: int| 0 <= m < j && #[trigger] saved.wires@[m].id == i,
            decreases saved.wires@.len() - j,
        {
            let ghost before = flags@;
            flags.set(saved.wires[j].id, true);
            proof {
                assert forall|i: int| 0 <= i < k implies #[trigger] flags@[i] == exists|m: int|
                    0 <= m < j + 1 && #[trigger] saved.wires@[m].id == i by {
                    if i == saved.wires@[j as int].id {
                        assert(saved.wires@[j as int].id == i);
                    } else {
                        assert(flags@[i] == before[i]);
                        if exists|m: int| 0 <= m < j + 1 && #[trigger] saved.wires@[m].id == i {
                            let m = choose|m: int| 0 <= m < j + 1 && #[trigger] saved.wires@[m].id == i;
                            assert(m != j);
                        }
                    }
                }
            }
            j = j + 1;
        }
        let mut b = CircuitBoard::new(extent, iteration_cap);
        let mut w: usize = 0;
        while w < k
            invariant
                w <= k,
                b.wf(),
                b@.power_on(),
                b@.extent == extent,
                b@.cap == iteration_cap,
                !b@.ordered,
                b@.topo.circuits.len() == 0,
                b@.footprints.len() == 0,
                b@.topo.wire_alive == Seq::new(w as nat, |i: int| true),
            decreases k - w,
        {
            b.add_wire();
            w = w + 1;
            proof {
                assert(b@.topo.wire_alive =~= Seq::new(w as nat, |i: int| true));
            }
        }
        let mut w: usize = 0;
        while w < k
            invariant
                w <= k,
                flags@.len() == k,
                b.wf(),
                b@.power_on(),
                b@.extent == extent,
                b@.cap == iteration_cap,
                !b@.ordered,
                b@.topo.circuits.len() == 0,
                b@.footprints.len() == 0,
                b@.topo.wire_alive.len() == k,
                forall|i: int| 0 <= i < k ==> #[trigger] b@.topo.wire_alive[i] == (i >= w || flags@[i]),
            decreases k - w,
        {
            if !flags[w] {
                let _ = b.remove_wire(w);
            }
            w = w + 1;
        }
        let ghost present = |w: int| saved_wire_present(saved.wires@, w);
        proof {
            assert forall|w: int| 0 <= w < k implies #[trigger] flags@[w] == saved_wire_present(saved.wires@, w) by {
                if flags@[w] {
                    let m = choose|m: int| 0 <= m < saved.wires@.len() && #[trigger] saved.wires@[m].id == w;
                }
            }
        }
        let n = saved.circuits.len();
        let mut j: usize = 0;
        while j < n
            invariant
                n == saved.circuits@.len(),
                j <= n,
                present == (|w: int| saved_wire_present(saved.wires@, w)),
                flags@.len() == k,
                forall|i: int| 0 <= i < saved.wires@.len() ==> #[trigger] saved.wires@[i].id < k,
                forall|w: int| 0 <= w < k ==> #[trigger] flags@[w] == saved_wire_present(saved.wires@, w),
                forall|i: int| 0 <= i < j ==> attachments_ok(#[trigger] saved.circuits@[i], present),
                forall|i: int| 0 <= i < j ==> placed_ok(saved_footprint(#[trigger] saved.circuits@[i]), extent),
                forall|j1: int, j2: int, q: Vec2usize|
                    0 <= j1 < j2 < j ==> !(occupies(saved_footprint(#[trigger] saved.circuits@[j1]), q) && #[trigger] occupies(
                        saved_footprint(saved.circuits@[j2]),
                        q,
                    )),
                b.wf(),
                b@.power_on(),
                b@.extent == extent,
                b@.cap == iteration_cap,
                !b@.ordered,
                b@.topo.wire_alive.len() == k,
                forall|i: int| 0 <= i < k ==> #[trigger] b@.topo.wire_alive[i] == flags@[i],
                b@.topo.circuits == Seq::new(j as nat, |i: int| Some(saved_model(saved.circuits@[i]))),
                b@.footprints == Seq::new(
                    j as nat,
                    |i: int|
                        Some(
                            footprint_at(
                                saved.circuits@[i].imp,
                                saved.circuits@[i].pos,
                                saved.circuits@[i].dir,
                                saved.circuits@[i].flip,
                            ),
                        ),
                ),
            decreases n - j,
        {
            let ghost v = b@;
            proof {
                assert forall|w: int| #[trigger] v.has_wire(w) == saved_wire_present(saved.wires@, w) by {
                    if saved_wire_present(saved.wires@, w) {
                        let m = choose|m: int| 0 <= m < saved.wires@.len() && #[trigger] saved.wires@[m].id == w;
                    }
                }
                let c = saved.circuits@[j as int];
                assert forall|w: int| #[trigger] present(w) == v.has_wire(w) by {
                    assert(present(w) == saved_wire_present(saved.wires@, w));
                }
                assert((|w: int| v.has_wire(w)) =~= present);
                assert forall|i: int, q: Vec2usize| 0 <= i < j implies #[trigger] conflict(v, saved_footprint(c), j as int, i, q)
                    == (occupies(saved_footprint(saved.circuits@[i]), q) && occupies(saved_footprint(c), q)) by {
                    assert(v.footprints[i] == Some(saved_footprint(saved.circuits@[i])));
                }
            }
            match b.restore_circuit(&saved.circuits[j]) {
                Ok(_) => {},
                Err(e) => {
                    proof {
                        let c = saved.circuits@[j as int];
                        if overlaps(v, saved_footprint(c), j as int) {
                            let (i, q) = choose|i: int, q: Vec2usize| #[trigger] conflict(v, saved_footprint(c), j as int, i, q);
                            assert(occupies(saved_footprint(saved.circuits@[i]), q) && occupies(saved_footprint(c), q));
                        }
                    }
                    return Err(e);
                },
            }
            proof {
                let c = saved.circuits@[j as int];
                assert forall|j1: int, j2: int, q: Vec2usize|
                    0 <= j1 < j2 < j + 1 implies !(occupies(saved_footprint(#[trigger] saved.circuits@[j1]), q) && #[trigger] occupies(
                        saved_footprint(saved.circuits@[j2]),
                        q,
                    )) by {
                    if j2 == j {
                        assert(!conflict(v, saved_footprint(c), j as int, j1, q));
                    }
                }
            }
            j = j + 1;
            proof {
                assert(b@.topo.circuits =~= Seq::new(j as nat, |i: int| Some(saved_model(saved.circuits@[i]))));
                assert(b@.footprints =~= Seq::new(
                    j as nat,
                    |i: int|
                        Some(
                            footprint_at(
                                saved.circuits@[i].imp,
                                saved.circuits@[i].pos,
                                saved.circuits@[i].dir,
                                saved.circuits@[i].flip,
                            ),
                        ),
                ));
            }
        }
        proof {
            assert forall|w: int| 0 <= w < k implies #[trigger] b@.topo.wire_alive[w] == saved_wire_present(saved.wires@, w) by {
                if flags@[w] {
                    let m = choose|m: int| 0 <= m < saved.wires@.len() && #[trigger] saved.wires@[m].id == w;
                }
            }
        }
        Ok(b)
    }
}

/// `saved` holds the saved form of every circuit of `v`, by increasing id.
pub open spec fn saves_circuits_of(v: BoardView, saved: Seq<CircuitSavestate>) -> bool {
    &&& forall|j: int|
        0 <= j < saved.len() ==> {
            let c = (#[trigger] saved[j]).id as int;
            &&& v.has_circuit(c)
            &&& saved_model(saved[j]) == v.topo.circuits[c]->0
            &&& Some(footprint_at(saved[j].imp, saved[j].pos, saved[j].dir, saved[j].flip)) == v.footprints[c]
        }
    &&& forall|j1: int, j2: int| 0 <= j1 < j2 < saved.len() ==> (#[trigger] saved[j1]).id < (#[trigger] saved[j2]).id
    &&& forall|c: int| #[trigger] v.has_circuit(c) ==> exists|j: int| 0 <= j < saved.len() && #[trigger] saved[j].id == c
}

impl CircuitBoard {
    /// The saved form of every circuit still on the board, by increasing id.
    pub fn saved_circuits(&self) -> (r: Vec<CircuitSavestate>)
        requires
            self.wf(),
        ensures
            saves_circuits_of(self@, r@),
    {
        proof {
            self.lemma_view_facts();
        }
        let n = self.circuits.len();
        let mut r: Vec<CircuitSavestate> = Vec::new();
        let mut c: usize = 0;
        while c < n
            invariant
                self.wf(),
                n == self.circuits@.len(),
                c <= n,
                forall|j: int|
                    0 <= j < r@.len() ==> {
                        let d = (#[trigger] r@[j]).id as int;
                        &&& d < c
                        &&& self@.has_circuit(d)
                        &&& saved_model(r@[j]) == self@.topo.circuits[d]->0
                        &&& Some(footprint_at(r@[j].imp, r@[j].pos, r@[j].dir, r@[j].flip)) == self@.footprints[d]
                    },
                forall|j1: int, j2: int| 0 <= j1 < j2 < r@.len() ==> (#[trigger] r@[j1]).id < (#[trigger] r@[j2]).id,
                forall|d: int| 0 <= d < c && #[trigger] self@.has_circuit(d) ==> exists|j: int| 0 <= j < r@.len() && #[trigger] r@[j].id == d,
            decreases n - c,
        {
            proof {
                self.lemma_view_facts();
            }
            let ghost before = r@;
            if let Some(bc) = &self.circuits[c] {
                let mut inputs: Vec<Option<usize>> = Vec::new();
                let mut i: usize = 0;
                while i < bc.inputs.len()
                    invariant
                        i <= bc.inputs@.len(),
                        inputs@ == bc.inputs@.subrange(0, i as int),
                    decreases bc.inputs@.len() - i,
                {
                    inputs.push(bc.inputs[i]);
                    i = i + 1;
                    proof {
                        assert(inputs@ =~= bc.inputs@.subrange(0, i as int));
                    }
                }
                proof {
                    assert(inputs@ =~= bc.inputs@);
                    assert(placed_ok(footprint_of(self.circuits@[c as int])->0, self.extent));
                }
                r.push(
                    CircuitSavestate {
                        id: c,
                        imp: bc.imp,
                        pos: bc.info.pos,
                        dir: bc.info.transform.dir,
                        flip: bc.info.transform.flip,
                        logic: bc.logic,
                        inputs,
                        output: bc.output,
                    },
                );
                proof {
                    assert(r@[r@.len() - 1].id == c);
                    assert forall|d: int| 0 <= d < c + 1 && #[trigger] self@.has_circuit(d) implies exists|j: int|
                        0 <= j < r@.len() && #[trigger] r@[j].id == d by {
                        if d < c {
                            let j = choose|j: int| 0 <= j < before.len() && #[trigger] before[j].id == d;
                            assert(r@[j] == before[j]);
                        }
                    }
                }
            }
            c = c + 1;
        }
        proof {
            assert forall|d: int| #[trigger] self@.has_circuit(d) implies exists|j: int| 0 <= j < r@.len() && #[trigger] r@[j].id == d by {
                assert(0 <= d < n);
            }
        }
        r
    }

    /// The saved layout of the board under `uid`, with its current
    /// simulation state as the one saved state. The board keeps no wire
    /// geometry, so each saved wire has no points.
    pub fn to_saved(&self, uid: u128) -> (r: SavedBoard)
        requires
            self.wf(),
        ensures
            r.uid == uid,
            saves_circuits_of(self@, r.circuits@),
            forall|j: int| 0 <= j < r.wires@.len() ==> self@.has_wire(#[trigger] r.wires@[j].id as int),
            forall|w: int| #[trigger] self@.has_wire(w) ==> saved_wire_present(r.wires@, w),
            r.states@.len() == 1,
            r.states@[0].outs@ == self@.outs,
            r.states@[0].wires@ == self@.wires,
            r.states@[0].queue@ == self@.queue,
    {
        let k = self.wire_alive.len();
        let mut wires: Vec<Wire> = Vec::new();
        let mut w: usize = 0;
        while w < k
            invariant
                k == self.wire_alive@.len(),
                self@.topo.wire_alive == self.wire_alive@,
                w <= k,
                forall|j: int| 0 <= j < wires@.len() ==> self@.has_wire(#[trigger] wires@[j].id as int),
                forall|i: int| 0 <= i < w && #[trigger] self@.has_wire(i) ==> saved_wire_present(wires@, i),
            decreases k - w,
        {
            let ghost before = wires@;
            if self.wire_alive[w] {
                wires.push(Wire { id: w, points: Vec::new() });
                proof {
                    assert(wires@[wires@.len() - 1].id == w);
                    assert forall|i: int| 0 <= i < w + 1 && #[trigger] self@.has_wire(i) implies saved_wire_present(wires@, i) by {
                        if i < w {
                            let m = choose|m: int| 0 <= m < before.len() && #[trigger] before[m].id == i;
                            assert(wires@[m] == before[m]);
                        }
                    }
                }
            }
            w = w + 1;
        }
        let mut states: Vec<BoardStateSavestate> = Vec::new();
        states.push(self.save_state());
        SavedBoard { uid, wires, circuits: self.saved_circuits(), states }
    }
}

} // verus!
