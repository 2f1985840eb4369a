//! Structural edits of a board: wires, circuits, attachments, source
//! values and parity modes, the queue discipline, and reset.

use vstd::prelude::*;

use crate::blueprint::{CircuitImplBox, CircuitInfo};
use crate::gates::GateKind;
use super::{BoardCircuit, BoardView, CircuitBoard, CircuitModel, EditError, Footprint, Logic, Stability, Topology, all_ids, eval, footprint_of, init_outs, input_values, model_of, placed_ok, wave_result};

verus! {

impl CircuitBoard {
    /// Adds a wire, low and unattached, and returns its id.
    pub fn add_wire(&mut self) -> (r: usize)
        requires
            old(self).wf(),
        ensures
            final(self).wf(),
            r == old(self)@.topo.wire_alive.len(),
            final(self)@ == (BoardView {
                topo: Topology { wire_alive: old(self)@.topo.wire_alive.push(true), ..old(self)@.topo },
                wires: old(self)@.wires.push(false),
                ..old(self)@
            }),
            old(self)@.power_on() ==> final(self)@.power_on(),
    {
        let r = self.wire_alive.len();
        proof {
            self.lemma_view_facts();
            assert forall|c: int| 0 <= c < self.circuits@.len() implies eval(
                model_of(#[trigger] self.circuits@[c]),
                self.wires@.push(false),
            ) == eval(model_of(self.circuits@[c]), self.wires@) by {
                if let Some(m) = model_of(self.circuits@[c]) {
                    assert(input_values(m, self.wires@.push(false)) =~= input_values(m, self.wires@));
                }
            }
        }
        self.wire_alive.push(true);
        self.wires.push(false);
        proof {
            assert(self@.topo.circuits =~= old(self)@.topo.circuits);
            if old(self)@.power_on() {
                assert(self@.wires =~= Seq::new(self@.topo.wire_alive.len(), |w: int| false));
                assert(self@.outs =~= init_outs(self@.topo));
            }
        }
        r
    }

    /// Removes wire `w`: pins attached to it read `false` from the next wave.
    pub fn remove_wire(&mut self, w: usize) -> (r: Result<(), EditError>)
        requires
            old(self).wf(),
        ensures
            final(self).wf(),
            r is Err <==> !old(self)@.has_wire(w as int),
            r is Err ==> r->Err_0 == EditError::NoSuchWire && final(self)@ == old(self)@,
            r is Ok ==> final(self)@ == (BoardView {
                topo: Topology { wire_alive: old(self)@.topo.wire_alive.update(w as int, false), ..old(self)@.topo },
                ..old(self)@
            }),
            old(self)@.power_on() ==> final(self)@.power_on(),
    {
        if w >= self.wire_alive.len() || !self.wire_alive[w] {
            return Err(EditError::NoSuchWire);
        }
        self.wire_alive.set(w, false);
        proof {
            assert(self@.topo.circuits =~= old(self)@.topo.circuits);
            if old(self)@.power_on() {
                assert(self@.wires =~= Seq::new(self@.topo.wire_alive.len(), |w: int| false));
                assert(self@.outs =~= init_outs(self@.topo));
            }
        }
        Ok(())
    }
}

impl CircuitBoard {
    /// Adds a circuit of type `imp` with the given placement and logic. Its
    /// input pins (all pins but the last) start unattached, its output pin
    /// too; it outputs its power-on value and is queued.
    pub(super) fn push_circuit(&mut self, imp: CircuitImplBox, info: CircuitInfo, logic: Logic) -> (r: usize)
        requires
            old(self).wf(),
            placed_ok(Footprint { imp, info }, old(self).extent),
        ensures
            final(self).wf(),
            r == old(self)@.topo.circuits.len(),
            final(self)@ == (BoardView {
                topo: Topology {
                    circuits: old(self)@.topo.circuits.push(
                        Some(
                            CircuitModel {
                                logic,
                                inputs: Seq::new((imp.pin_count() - 1) as nat, |i: int| None),
                                output: None,
                            },
                        ),
                    ),
                    ..old(self)@.topo
                },
                footprints: old(self)@.footprints.push(Some(Footprint { imp, info })),
                outs: old(self)@.outs.push(logic.init_spec()),
                queue: old(self)@.queue.push(r),
                ..old(self)@
            }),
            old(self)@.power_on() ==> final(self)@.power_on(),
    {
        let k = match imp {
            CircuitImplBox::Test(_) => 4,
            CircuitImplBox::Gate(g) => g.inputs,
        };
        let mut inputs: Vec<Option<usize>> = Vec::new();
        let mut i: usize = 0;
        while i < k
            invariant
                i <= k,
                inputs@.len() == i,
                forall|j: int| 0 <= j < i ==> #[trigger] inputs@[j] is None,
            decreases k - i,
        {
            inputs.push(None);
            i = i + 1;
        }
        proof {
            assert(inputs@ =~= Seq::new((imp.pin_count() - 1) as nat, |i: int| None));
        }
        let init = match logic {
            Logic::Gate { kind, parity } => kind.init_state(),
            Logic::Source { on } => on,
        };
        let r = self.circuits.len();
        self.circuits.push(Some(BoardCircuit { imp, info, logic, inputs, output: None }));
        self.outs.push(init);
        self.queue.push(r);
        proof {
            assert(self@.topo.circuits =~= old(self)@.topo.circuits.push(
                Some(CircuitModel { logic, inputs: Seq::new((imp.pin_count() - 1) as nat, |i: int| None), output: None }),
            ));
            assert(self@.footprints =~= old(self)@.footprints.push(Some(Footprint { imp, info })));
            assert forall|c: int| 0 <= c < self.circuits@.len() && #[trigger] self.circuits@[c] is Some implies placed_ok(
                footprint_of(self.circuits@[c])->0,
                self.extent,
            ) by {
                if c < r {
                    assert(self.circuits@[c] == old(self).circuits@[c]);
                }
            }
            assert forall|c: int| 0 <= c < self.circuits@.len() && !self.queue@.contains(c as usize) implies #[trigger] self.outs@[c]
                == eval(model_of(self.circuits@[c]), self.wires@) by {
                if c < r {
                    assert(self.circuits@[c] == old(self).circuits@[c]);
                    if old(self).queue@.contains(c as usize) {
                        let j = choose|j: int| 0 <= j < old(self).queue@.len() && old(self).queue@[j] == c as usize;
                        assert(self.queue@[j] == c as usize);
                    }
                } else {
                    assert(self.queue@[self.queue@.len() - 1] == r);
                }
            }
            if old(self)@.power_on() {
                assert(self@.outs =~= init_outs(self@.topo));
            }
        }
        r
    }

    /// Removes circuit `c`; its id is not reused, and attachments to it
    /// are dropped with it.
    pub fn remove_circuit(&mut self, c: usize) -> (r: Result<(), EditError>)
        requires
            old(self).wf(),
        ensures
            final(self).wf(),
            r is Err <==> !old(self)@.has_circuit(c as int),
            r is Err ==> r->Err_0 == EditError::NoSuchCircuit && final(self)@ == old(self)@,
            r is Ok ==> final(self)@ == (BoardView {
                outs: old(self)@.outs.update(c as int, false),
                footprints: old(self)@.footprints.update(c as int, None),
                ..old(self)@.with_circuit(c as int, None)
            }),
            old(self)@.power_on() ==> final(self)@.power_on(),
    {
        if c >= self.circuits.len() || self.circuits[c].is_none() {
            return Err(EditError::NoSuchCircuit);
        }
        self.circuits.set(c, None);
        self.outs.set(c, false);
        proof {
            assert(self@.topo.circuits =~= old(self)@.topo.circuits.update(c as int, None));
            assert(self@.footprints =~= old(self)@.footprints.update(c as int, None));
            if old(self)@.power_on() {
                assert(self@.outs =~= init_outs(self@.topo));
            }
        }
        Ok(())
    }

    /// Attaches (`Some`) or detaches (`None`) input pin `pin` of circuit
    /// `c`, and queues the circuit.
    fn set_input(&mut self, c: usize, pin: usize, wire: Option<usize>)
        requires
            old(self).wf(),
            old(self)@.has_circuit(c as int),
            pin < old(self)@.topo.circuits[c as int]->0.inputs.len(),
        ensures
            final(self).wf(),
            final(self)@ == (BoardView {
                queue: old(self)@.queue.push(c),
                ..old(self)@.with_circuit(
                    c as int,
                    Some(
                        CircuitModel {
                            inputs: old(self)@.topo.circuits[c as int]->0.inputs.update(pin as int, wire),
                            ..old(self)@.topo.circuits[c as int]->0
                        },
                    ),
                )
            }),
            old(self)@.power_on() ==> final(self)@.power_on(),
    {
        proof {
            self.lemma_view_facts();
        }
        let mut slot: Option<BoardCircuit> = None;
        std::mem::swap(&mut slot, &mut self.circuits[c]);
        if let Some(mut bc) = slot {
            bc.inputs.set(pin, wire);
            self.circuits.set(c, Some(bc));
        }
        self.queue.push(c);
        proof {
            let m = old(self)@.topo.circuits[c as int]->0;
            assert(self@.topo.circuits =~= old(self)@.topo.circuits.update(
                c as int,
                Some(CircuitModel { inputs: m.inputs.update(pin as int, wire), ..m }),
            ));
            assert(self@.footprints =~= old(self)@.footprints) by {
                assert forall|d: int| 0 <= d < self.circuits@.len() implies #[trigger] footprint_of(self.circuits@[d])
                    == footprint_of(old(self).circuits@[d]) by {}
            }
            assert forall|d: int| 0 <= d < self.circuits@.len() && #[trigger] self.circuits@[d] is Some implies placed_ok(
                footprint_of(self.circuits@[d])->0,
                self.extent,
            ) by {
                assert(footprint_of(self.circuits@[d]) == footprint_of(old(self).circuits@[d]));
            }
            assert forall|d: int| 0 <= d < self.circuits@.len() && !self.queue@.contains(d as usize) implies #[trigger] self.outs@[d]
                == eval(model_of(self.circuits@[d]), self.wires@) by {
                if d != c {
                    assert(self.circuits@[d] == old(self).circuits@[d]);
                    if old(self).queue@.contains(d as usize) {
                        let j = choose|j: int| 0 <= j < old(self).queue@.len() && old(self).queue@[j] == d as usize;
                        assert(self.queue@[j] == d as usize);
                    }
                } else {
                    assert(self.queue@[self.queue@.len() - 1] == c);
                }
            }
            if old(self)@.power_on() {
                assert(self@.outs =~= init_outs(self@.topo));
            }
        }
    }

    /// Attaches input pin `pin` of circuit `c` to wire `wire`.
    pub fn connect_input(&mut self, c: usize, pin: usize, wire: usize) -> (r: Result<(), EditError>)
        requires
            old(self).wf(),
        ensures
            final(self).wf(),
            !old(self)@.has_circuit(c as int) ==> r == Err::<(), EditError>(EditError::NoSuchCircuit),
            old(self)@.has_circuit(c as int) && pin >= old(self)@.topo.circuits[c as int]->0.inputs.len() ==> r == Err::<
                (),
                EditError,
            >(EditError::NoSuchPin),
            old(self)@.has_circuit(c as int) && pin < old(self)@.topo.circuits[c as int]->0.inputs.len()
                && !old(self)@.has_wire(wire as int) ==> r == Err::<(), EditError>(EditError::NoSuchWire),
            old(self)@.has_circuit(c as int) && pin < old(self)@.topo.circuits[c as int]->0.inputs.len()
                && old(self)@.has_wire(wire as int) ==> r is Ok,
            r is Err ==> final(self)@ == old(self)@,
            r is Ok ==> final(self)@ == (BoardView {
                queue: old(self)@.queue.push(c),
                ..old(self)@.with_circuit(
                    c as int,
                    Some(
                        CircuitModel {
                            inputs: old(self)@.topo.circuits[c as int]->0.inputs.update(pin as int, Some(wire)),
                            ..old(self)@.topo.circuits[c as int]->0
                        },
                    ),
                )
            }),
            old(self)@.power_on() ==> final(self)@.power_on(),
    {
        proof {
            self.lemma_view_facts();
        }
        if c >= self.circuits.len() {
            return Err(EditError::NoSuchCircuit);
        }
        let n_inputs = match &self.circuits[c] {
            Some(bc) => bc.inputs.len(),
            None => return Err(EditError::NoSuchCircuit),
        };
        if pin >= n_inputs {
            return Err(EditError::NoSuchPin);
        }
        if wire >= self.wire_alive.len() || !self.wire_alive[wire] {
            return Err(EditError::NoSuchWire);
        }
        self.set_input(c, pin, Some(wire));
        Ok(())
    }

    /// Detaches input pin `pin` of circuit `c`; it then reads `false`.
    pub fn disconnect_input(&mut self, c: usize, pin: usize) -> (r: Result<(), EditError>)
        requires
            old(self).wf(),
        ensures
            final(self).wf(),
            !old(self)@.has_circuit(c as int) ==> r == Err::<(), EditError>(EditError::NoSuchCircuit),
            old(self)@.has_circuit(c as int) && pin >= old(self)@.topo.circuits[c as int]->0.inputs.len() ==> r == Err::<
                (),
                EditError,
            >(EditError::NoSuchPin),
            old(self)@.has_circuit(c as int) && pin < old(self)@.topo.circuits[c as int]->0.inputs.len() ==> r is Ok,
            r is Err ==> final(self)@ == old(self)@,
            r is Ok ==> final(self)@ == (BoardView {
                queue: old(self)@.queue.push(c),
                ..old(self)@.with_circuit(
                    c as int,
                    Some(
                        CircuitModel {
                            inputs: old(self)@.topo.circuits[c as int]->0.inputs.update(pin as int, None),
                            ..old(self)@.topo.circuits[c as int]->0
                        },
                    ),
                )
            }),
            old(self)@.power_on() ==> final(self)@.power_on(),
    {
        proof {
            self.lemma_view_facts();
        }
        if c >= self.circuits.len() {
            return Err(EditError::NoSuchCircuit);
        }
        let n_inputs = match &self.circuits[c] {
            Some(bc) => bc.inputs.len(),
            None => return Err(EditError::NoSuchCircuit),
        };
        if pin >= n_inputs {
            return Err(EditError::NoSuchPin);
        }
        self.set_input(c, pin, None);
        Ok(())
    }
}

impl CircuitBoard {
    /// Attaches (`Some`) or detaches (`None`) the output pin of circuit `c`.
    fn set_output(&mut self, c: usize, wire: Option<usize>)
        requires
            old(self).wf(),
            old(self)@.has_circuit(c as int),
        ensures
            final(self).wf(),
            final(self)@ == old(self)@.with_circuit(
                c as int,
                Some(CircuitModel { output: wire, ..old(self)@.topo.circuits[c as int]->0 }),
            ),
            old(self)@.power_on() ==> final(self)@.power_on(),
    {
        proof {
            self.lemma_view_facts();
        }
        let mut slot: Option<BoardCircuit> = None;
        std::mem::swap(&mut slot, &mut self.circuits[c]);
        if let Some(mut bc) = slot {
            bc.output = wire;
            self.circuits.set(c, Some(bc));
        }
        proof {
            let m = old(self)@.topo.circuits[c as int]->0;
            assert(self@.topo.circuits =~= old(self)@.topo.circuits.update(c as int, Some(CircuitModel { output: wire, ..m })));
            assert(self@.footprints =~= old(self)@.footprints) by {
                assert forall|d: int| 0 <= d < self.circuits@.len() implies #[trigger] footprint_of(self.circuits@[d])
                    == footprint_of(old(self).circuits@[d]) by {}
            }
            assert forall|d: int| 0 <= d < self.circuits@.len() && #[trigger] self.circuits@[d] is Some implies placed_ok(
                footprint_of(self.circuits@[d])->0,
                self.extent,
            ) by {
                assert(footprint_of(self.circuits@[d]) == footprint_of(old(self).circuits@[d]));
            }
            assert forall|d: int| 0 <= d < self.circuits@.len() && !self.queue@.contains(d as usize) implies #[trigger] self.outs@[d]
                == eval(model_of(self.circuits@[d]), self.wires@) by {
                if d == c {
                    let m2 = model_of(self.circuits@[d])->0;
                    assert(input_values(m2, self.wires@) =~= input_values(m, self.wires@));
                }
            }
            if old(self)@.power_on() {
                assert(self@.outs =~= init_outs(self@.topo));
            }
        }
    }

    /// Attaches the output pin of circuit `c` to wire `wire`, which the
    /// circuit then drives from the next wave on.
    pub fn connect_output(&mut self, c: usize, wire: usize) -> (r: Result<(), EditError>)
        requires
            old(self).wf(),
        ensures
            final(self).wf(),
            !old(self)@.has_circuit(c as int) ==> r == Err::<(), EditError>(EditError::NoSuchCircuit),
            old(self)@.has_circuit(c as int) && !old(self)@.has_wire(wire as int) ==> r == Err::<(), EditError>(
                EditError::NoSuchWire,
            ),
            old(self)@.has_circuit(c as int) && old(self)@.has_wire(wire as int) ==> r is Ok,
            r is Err ==> final(self)@ == old(self)@,
            r is Ok ==> final(self)@ == old(self)@.with_circuit(
                c as int,
                Some(CircuitModel { output: Some(wire), ..old(self)@.topo.circuits[c as int]->0 }),
            ),
            old(self)@.power_on() ==> final(self)@.power_on(),
    {
        proof {
            self.lemma_view_facts();
        }
        if c >= self.circuits.len() || self.circuits[c].is_none() {
            return Err(EditError::NoSuchCircuit);
        }
        if wire >= self.wire_alive.len() || !self.wire_alive[wire] {
            return Err(EditError::NoSuchWire);
        }
        self.set_output(c, Some(wire));
        Ok(())
    }

    /// Detaches the output pin of circuit `c`.
    pub fn disconnect_output(&mut self, c: usize) -> (r: Result<(), EditError>)
        requires
            old(self).wf(),
        ensures
            final(self).wf(),
            r is Err <==> !old(self)@.has_circuit(c as int),
            r is Err ==> r->Err_0 == EditError::NoSuchCircuit && final(self)@ == old(self)@,
            r is Ok ==> final(self)@ == old(self)@.with_circuit(
                c as int,
                Some(CircuitModel { output: None, ..old(self)@.topo.circuits[c as int]->0 }),
            ),
            old(self)@.power_on() ==> final(self)@.power_on(),
    {
        proof {
            self.lemma_view_facts();
        }
        if c >= self.circuits.len() || self.circuits[c].is_none() {
            return Err(EditError::NoSuchCircuit);
        }
        self.set_output(c, None);
        Ok(())
    }

    /// Sets the value of source circuit `c` and queues it.
    pub fn set_source(&mut self, c: usize, on: bool) -> (r: Result<(), EditError>)
        requires
            old(self).wf(),
        ensures
            final(self).wf(),
            !old(self)@.has_circuit(c as int) ==> r == Err::<(), EditError>(EditError::NoSuchCircuit),
            old(self)@.has_circuit(c as int) && !(old(self)@.topo.circuits[c as int]->0.logic is Source) ==> r == Err::<
                (),
                EditError,
            >(EditError::NotASource),
            old(self)@.has_circuit(c as int) && old(self)@.topo.circuits[c as int]->0.logic is Source ==> r is Ok,
            r is Err ==> final(self)@ == old(self)@,
            r is Ok ==> final(self)@ == (BoardView {
                queue: old(self)@.queue.push(c),
                ..old(self)@.with_circuit(
                    c as int,
                    Some(CircuitModel { logic: Logic::Source { on }, ..old(self)@.topo.circuits[c as int]->0 }),
                )
            }),
    {
        proof {
            self.lemma_view_facts();
        }
        if c >= self.circuits.len() {
            return Err(EditError::NoSuchCircuit);
        }
        match &self.circuits[c] {
            None => return Err(EditError::NoSuchCircuit),
            Some(bc) => match bc.logic {
                Logic::Source { .. } => {},
                _ => return Err(EditError::NotASource),
            },
        }
        let mut slot: Option<BoardCircuit> = None;
        std::mem::swap(&mut slot, &mut self.circuits[c]);
        if let Some(mut bc) = slot {
            bc.logic = Logic::Source { on };
            self.circuits.set(c, Some(bc));
        }
        self.queue.push(c);
        proof {
            let m = old(self)@.topo.circuits[c as int]->0;
            assert(self@.topo.circuits =~= old(self)@.topo.circuits.update(
                c as int,
                Some(CircuitModel { logic: Logic::Source { on }, ..m }),
            ));
            assert(self@.footprints =~= old(self)@.footprints) by {
                assert forall|d: int| 0 <= d < self.circuits@.len() implies #[trigger] footprint_of(self.circuits@[d])
                    == footprint_of(old(self).circuits@[d]) by {}
            }
            assert forall|d: int| 0 <= d < self.circuits@.len() && #[trigger] self.circuits@[d] is Some implies placed_ok(
                footprint_of(self.circuits@[d])->0,
                self.extent,
            ) by {
                assert(footprint_of(self.circuits@[d]) == footprint_of(old(self).circuits@[d]));
            }
            assert forall|d: int| 0 <= d < self.circuits@.len() && !self.queue@.contains(d as usize) implies #[trigger] self.outs@[d]
                == eval(model_of(self.circuits@[d]), self.wires@) by {
                if d != c {
                    assert(self.circuits@[d] == old(self).circuits@[d]);
                    if old(self).queue@.contains(d as usize) {
                        let j = choose|j: int| 0 <= j < old(self).queue@.len() && old(self).queue@[j] == d as usize;
                        assert(self.queue@[j] == d as usize);
                    }
                } else {
                    assert(self.queue@[self.queue@.len() - 1] == c);
                }
            }
        }
        Ok(())
    }

    /// Switches between visiting dirty circuits by id and in queue order.
    pub fn set_ordered(&mut self, ordered: bool)
        requires
            old(self).wf(),
        ensures
            final(self).wf(),
            final(self)@ == (BoardView { ordered, ..old(self)@ }),
    {
        self.ordered = ordered;
    }

    /// Returns every circuit and wire to its power-on state and queues every
    /// circuit.
    pub fn reset(&mut self)
        requires
            old(self).wf(),
        ensures
            final(self).wf(),
            final(self)@.power_on(),
            final(self)@.topo == old(self)@.topo,
            final(self)@.cap == old(self)@.cap,
            final(self)@.ordered == old(self)@.ordered,
            !final(self)@.unstable,
            final(self)@.queue == Seq::new(old(self)@.topo.circuits.len(), |i: int| i as usize),
    {
        proof {
            self.lemma_view_facts();
        }
        let ghost t = self@.topo;
        let n = self.circuits.len();
        let mut outs: Vec<bool> = Vec::new();
        let mut c: usize = 0;
        while c < n
            invariant
                n == self.circuits@.len(),
                t == self@.topo,
                c <= n,
                outs@.len() == c,
                forall|d: int| 0 <= d < c ==> #[trigger] outs@[d] == init_outs(t)[d],
            decreases n - c,
        {
            proof {
                self.lemma_view_facts();
            }
            let v = match &self.circuits[c] {
                Some(bc) => match bc.logic {
                    Logic::Gate { kind, parity } => kind.init_state(),
                    Logic::Source { on } => on,
                },
                None => false,
            };
            outs.push(v);
            c = c + 1;
        }
        let k = self.wire_alive.len();
        let mut wires: Vec<bool> = Vec::new();
        let mut w: usize = 0;
        while w < k
            invariant
                w <= k,
                wires@.len() == w,
                forall|j: int| 0 <= j < w ==> !#[trigger] wires@[j],
            decreases k - w,
        {
            wires.push(false);
            w = w + 1;
        }
        self.outs = outs;
        self.wires = wires;
        self.queue = all_ids(n);
        self.unstable = false;
        proof {
            self.lemma_view_facts();
            assert(self@.topo == t);
            assert(self@.outs =~= init_outs(t));
            assert(self@.wires =~= Seq::new(t.wire_alive.len(), |w: int| false));
            assert(self@.queue =~= Seq::new(n as nat, |i: int| i as usize));
            assert forall|d: int| 0 <= d < n implies #[trigger] self.queue@.contains(d as usize) by {
                assert(self.queue@[d] == d as usize);
            }
        }
    }

    /// Queues every circuit and runs a wave.
    pub fn update_everything(&mut self) -> (r: Stability)
        requires
            old(self).wf(),
        ensures
            final(self).wf(),
            final(self)@.topo == old(self)@.topo,
            final(self)@.cap == old(self)@.cap,
            final(self)@.ordered == old(self)@.ordered,
            (final(self)@.outs, final(self)@.wires, r == Stability::Stable) == wave_result(old(self)@),
            final(self)@.unstable == (r == Stability::Unstable),
            (r == Stability::Stable) == final(self)@.settled(),
    {
        self.queue = all_ids(self.circuits.len());
        proof {
            assert forall|d: int| 0 <= d < self.circuits@.len() implies #[trigger] self.queue@.contains(d as usize) by {
                assert(self.queue@[d] == d as usize);
            }
        }
        self.update()
    }
}

impl CircuitBoard {
    /// Switches parity mode of XOR or XNOR gate `c` and queues it.
    pub fn set_parity_mode(&mut self, c: usize, parity: bool) -> (r: Result<(), EditError>)
        requires
            old(self).wf(),
        ensures
            final(self).wf(),
            !old(self)@.has_circuit(c as int) ==> r == Err::<(), EditError>(EditError::NoSuchCircuit),
            old(self)@.has_circuit(c as int) && !(match old(self)@.topo.circuits[c as int]->0.logic {
                Logic::Gate { kind, parity } => kind.is_parity_family(),
                Logic::Source { .. } => false,
            }) ==> r == Err::<(), EditError>(EditError::NoParityMode),
            r is Err ==> final(self)@ == old(self)@,
            r is Ok ==> (match old(self)@.topo.circuits[c as int]->0.logic {
                Logic::Gate { kind, parity: _ } => final(self)@ == (BoardView {
                    queue: old(self)@.queue.push(c),
                    ..old(self)@.with_circuit(
                        c as int,
                        Some(CircuitModel { logic: Logic::Gate { kind, parity }, ..old(self)@.topo.circuits[c as int]->0 }),
                    )
                }),
                Logic::Source { .. } => false,
            }),
            old(self)@.has_circuit(c as int) && (match old(self)@.topo.circuits[c as int]->0.logic {
                Logic::Gate { kind, parity } => kind.is_parity_family(),
                Logic::Source { .. } => false,
            }) ==> r is Ok,
            old(self)@.power_on() ==> final(self)@.power_on(),
    {
        proof {
            self.lemma_view_facts();
        }
        if c >= self.circuits.len() {
            return Err(EditError::NoSuchCircuit);
        }
        let kind = match &self.circuits[c] {
            None => return Err(EditError::NoSuchCircuit),
            Some(bc) => match bc.logic {
                Logic::Gate { kind, parity: _ } => match kind {
                    GateKind::Xor | GateKind::Xnor => kind,
                    _ => return Err(EditError::NoParityMode),
                },
                Logic::Source { .. } => return Err(EditError::NoParityMode),
            },
        };
        let mut slot: Option<BoardCircuit> = None;
        std::mem::swap(&mut slot, &mut self.circuits[c]);
        if let Some(mut bc) = slot {
            bc.logic = Logic::Gate { kind, parity };
            self.circuits.set(c, Some(bc));
        }
        self.queue.push(c);
        proof {
            let m = old(self)@.topo.circuits[c as int]->0;
            assert(self@.topo.circuits =~= old(self)@.topo.circuits.update(
                c as int,
                Some(CircuitModel { logic: Logic::Gate { kind, parity }, ..m }),
            ));
            assert(self@.footprints =~= old(self)@.footprints) by {
                assert forall|d: int| 0 <= d < self.circuits@.len() implies #[trigger] footprint_of(self.circuits@[d])
                    == footprint_of(old(self).circuits@[d]) by {}
            }
            assert forall|d: int| 0 <= d < self.circuits@.len() && #[trigger] self.circuits@[d] is Some implies placed_ok(
                footprint_of(self.circuits@[d])->0,
                self.extent,
            ) by {
                assert(footprint_of(self.circuits@[d]) == footprint_of(old(self).circuits@[d]));
            }
            assert forall|d: int| 0 <= d < self.circuits@.len() && !self.queue@.contains(d as usize) implies #[trigger] self.outs@[d]
                == eval(model_of(self.circuits@[d]), self.wires@) by {
                if d != c {
                    assert(self.circuits@[d] == old(self).circuits@[d]);
                    if old(self).queue@.contains(d as usize) {
                        let j = choose|j: int| 0 <= j < old(self).queue@.len() && old(self).queue@[j] == d as usize;
                        assert(self.queue@[j] == d as usize);
                    }
                } else {
                    assert(self.queue@[self.queue@.len() - 1] == c);
                }
            }
            if old(self)@.power_on() {
                assert(self@.outs =~= init_outs(self@.topo));
            }
        }
        Ok(())
    }
}

} // verus!
