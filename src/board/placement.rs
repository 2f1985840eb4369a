//! Where circuits stand: footprints at quarter-cell granularity, the
//! overlap scan, placing and moving circuits, and pin positions.

use vstd::prelude::*;

use crate::blueprint::{CircuitImplBox, CircuitInfo};
use crate::geometry::{Direction4, Vec2usize};
use crate::transform::{CircuitTransform, TransformSupport};
use super::{BoardCircuit, BoardView, CircuitBoard, CircuitModel, EditError, Footprint, Logic, Topology, eval, footprint_of, model_of, occupies, placed_ok};

verus! {

/// The footprint a circuit of type `imp` gets at `pos`, turned to `dir`
/// and flipped if `flip` is set.
pub open spec fn footprint_at(imp: CircuitImplBox, pos: Vec2usize, dir: Direction4, flip: bool) -> Footprint {
    let transform = CircuitTransform { support: imp.transform_support_spec(), dir, flip };
    Footprint {
        imp,
        info: CircuitInfo {
            pos,
            render_size: imp.size_spec(),
            size: transform.transform_size_spec(imp.size_spec(), Some(TransformSupport::Automatic)),
            transform,
        },
    }
}

/// Circuit `c` of the board, other than `except`, and the footprint `f`
/// both occupy quarter `q`.
pub open spec fn conflict(v: BoardView, f: Footprint, except: int, c: int, q: Vec2usize) -> bool {
    &&& 0 <= c < v.topo.circuits.len()
    &&& c != except
    &&& v.footprints[c] is Some
    &&& occupies(f, q)
    &&& occupies(v.footprints[c]->0, q)
}

/// `f` shares an occupied quarter with a circuit of the board other than
/// `except`.
pub open spec fn overlaps(v: BoardView, f: Footprint, except: int) -> bool {
    exists|c: int, q: Vec2usize| #[trigger] conflict(v, f, except, c, q)
}

proof fn lemma_occupies_in_rect(f: Footprint, q: Vec2usize)
    requires
        occupies(f, q),
    ensures
        2 * f.info.pos.x <= q.x < 2 * f.info.pos.x + 2 * f.info.size.x,
        2 * f.info.pos.y <= q.y < 2 * f.info.pos.y + 2 * f.info.size.y,
{
    reveal(occupies);
}

/// Whether footprint `f` occupies board quarter `q`.
fn occupies_quarter_at(imp: &CircuitImplBox, info: &CircuitInfo, q: Vec2usize, extent: Ghost<Vec2usize>) -> (r: bool)
    requires
        placed_ok(Footprint { imp: *imp, info: *info }, extent@),
        2 * extent@.x <= usize::MAX,
        2 * extent@.y <= usize::MAX,
    ensures
        r == occupies(Footprint { imp: *imp, info: *info }, q),
{
    reveal(occupies);
    let auto = Some(TransformSupport::Automatic);
    let px = 2 * info.pos.x;
    let py = 2 * info.pos.y;
    let w = 2 * info.size.x;
    let h = 2 * info.size.y;
    if q.x < px || q.x - px >= w || q.y < py || q.y - py >= h {
        return false;
    }
    let local = Vec2usize::new(q.x - px, q.y - py);
    let render = info.render_size;
    assert(render.x <= extent@.x || render.x <= extent@.y);
    assert(render.y <= extent@.x || render.y <= extent@.y);
    let quarters = Vec2usize::new(2 * render.x, 2 * render.y);
    let back = info.transform.backtransform_pos(quarters, local, auto);
    imp.occupies_quarter(info.transform, back)
}

impl CircuitBoard {
    /// Whether `f` shares an occupied quarter with a circuit of the board
    /// other than `except`.
    fn overlaps_any(&self, imp: &CircuitImplBox, info: &CircuitInfo, except: usize) -> (r: bool)
        requires
            self.wf(),
            placed_ok(Footprint { imp: *imp, info: *info }, self.extent),
        ensures
            r == overlaps(self@, Footprint { imp: *imp, info: *info }, except as int),
    {
        let ghost nf = Footprint { imp: *imp, info: *info };
        let ghost v = self@;
        proof {
            self.lemma_view_facts();
        }
        let n = self.circuits.len();
        let w = 2 * info.size.x;
        let h = 2 * info.size.y;
        let px = 2 * info.pos.x;
        let py = 2 * info.pos.y;
        let mut c: usize = 0;
        while c < n
            invariant
                self.wf(),
                v == self@,
                n == self.circuits@.len(),
                c <= n,
                w == 2 * info.size.x,
                h == 2 * info.size.y,
                px == 2 * info.pos.x,
                py == 2 * info.pos.y,
                nf == (Footprint { imp: *imp, info: *info }),
                placed_ok(nf, self.extent),
                forall|d: int, q: Vec2usize| 0 <= d < c ==> !#[trigger] conflict(v, nf, except as int, d, q),
            decreases n - c,
        {
            proof {
                self.lemma_view_facts();
            }
            if c == except {
                proof {
                    assert forall|q: Vec2usize| !#[trigger] conflict(v, nf, except as int, c as int, q) by {}
                }
            } else if let Some(bc) = &self.circuits[c] {
                let ghost f = v.footprints[c as int]->0;
                let mut ly: usize = 0;
                proof {
                    assert forall|q: Vec2usize| #[trigger] occupies(nf, q) && q.y < py + ly implies !occupies(f, q) by {
                        lemma_occupies_in_rect(nf, q);
                    }
                }
                while ly < h
                    invariant
                        self.wf(),
                        v == self@,
                        n == self.circuits@.len(),
                        c < n,
                        ly <= h,
                        w == 2 * info.size.x,
                        h == 2 * info.size.y,
                        px == 2 * info.pos.x,
                        py == 2 * info.pos.y,
                        nf == (Footprint { imp: *imp, info: *info }),
                        placed_ok(nf, self.extent),
                        self.circuits@[c as int] == Some(*bc),
                        c != except,
                        f == v.footprints[c as int]->0,
                        v.footprints[c as int] is Some,
                        forall|q: Vec2usize| #[trigger] occupies(nf, q) && q.y < py + ly ==> !occupies(f, q),
                    decreases h - ly,
                {
                    let mut lx: usize = 0;
                    proof {
                        assert forall|q: Vec2usize|
                            #[trigger] occupies(nf, q) && (q.y < py + ly || (q.y == py + ly && q.x < px + lx)) implies !occupies(f, q) by {
                            lemma_occupies_in_rect(nf, q);
                        }
                    }
                    while lx < w
                        invariant
                            self.wf(),
                            v == self@,
                            n == self.circuits@.len(),
                            c < n,
                            ly < h,
                            lx <= w,
                            w == 2 * info.size.x,
                            h == 2 * info.size.y,
                            px == 2 * info.pos.x,
                            py == 2 * info.pos.y,
                            nf == (Footprint { imp: *imp, info: *info }),
                            placed_ok(nf, self.extent),
                            self.circuits@[c as int] == Some(*bc),
                            c != except,
                            f == v.footprints[c as int]->0,
                            v.footprints[c as int] is Some,
                            forall|q: Vec2usize|
                                #[trigger] occupies(nf, q) && (q.y < py + ly || (q.y == py + ly && q.x < px + lx)) ==> !occupies(
                                    f,
                                    q,
                                ),
                        decreases w - lx,
                    {
                        let q = Vec2usize::new(px + lx, py + ly);
                        proof {
                            self.lemma_view_facts();
                            assert(placed_ok(f, self.extent));
                        }
                        let hit = occupies_quarter_at(imp, info, q, Ghost(self.extent)) && occupies_quarter_at(
                            &bc.imp,
                            &bc.info,
                            q,
                            Ghost(self.extent),
                        );
                        if hit {
                            proof {
                                assert(conflict(v, nf, except as int, c as int, q));
                            }
                            return true;
                        }
                        proof {
                            assert forall|q2: Vec2usize|
                                #[trigger] occupies(nf, q2) && (q2.y < py + ly || (q2.y == py + ly && q2.x < px + lx + 1))
                                    implies !occupies(f, q2) by {
                                if q2.y == py + ly && q2.x == px + lx {
                                    assert(q2 == q);
                                }
                            }
                        }
                        lx = lx + 1;
                    }
                    proof {
                        assert forall|q: Vec2usize| #[trigger] occupies(nf, q) && q.y < py + ly + 1 implies !occupies(f, q) by {
                            lemma_occupies_in_rect(nf, q);
                        }
                    }
                    ly = ly + 1;
                }
                proof {
                    reveal(occupies);
                    assert forall|q: Vec2usize| !#[trigger] conflict(v, nf, except as int, c as int, q) by {
                        if occupies(nf, q) {
                            assert(q.y < py + h);
                        }
                    }
                }
            }
            c = c + 1;
        }
        proof {
            assert(!overlaps(v, nf, except as int));
        }
        false
    }
}

impl CircuitBoard {
    /// Places a circuit of type `imp` with its top-left cell at `pos`,
    /// turned to `dir` and flipped if `flip` is set. A footprint that leaves
    /// the board or shares an occupied quarter with another circuit is
    /// refused and nothing changes. Otherwise the new circuit gets the next
    /// id, its pins start unattached, and it is queued with its power-on
    /// output.
    pub fn place_circuit(&mut self, imp: CircuitImplBox, pos: Vec2usize, dir: Direction4, flip: bool, logic: Logic) -> (r:
        Result<usize, EditError>)
        requires
            old(self).wf(),
        ensures
            final(self).wf(),
            !placed_ok(footprint_at(imp, pos, dir, flip), old(self)@.extent) ==> r == Err::<usize, EditError>(
                EditError::OutOfBounds,
            ),
            placed_ok(footprint_at(imp, pos, dir, flip), old(self)@.extent) && overlaps(
                old(self)@,
                footprint_at(imp, pos, dir, flip),
                old(self)@.topo.circuits.len() as int,
            ) ==> r == Err::<usize, EditError>(EditError::Overlap),
            placed_ok(footprint_at(imp, pos, dir, flip), old(self)@.extent) && !overlaps(
                old(self)@,
                footprint_at(imp, pos, dir, flip),
                old(self)@.topo.circuits.len() as int,
            ) ==> r == Ok::<usize, EditError>(old(self)@.topo.circuits.len() as usize),
            r is Ok ==> r->Ok_0 == old(self)@.topo.circuits.len(),
            r is Err ==> final(self)@ == old(self)@,
            r is Ok ==> final(self)@ == (BoardView {
                topo: Topology {
                    circuits: old(self)@.topo.circuits.push(
                        Some(
                            CircuitModel {
                                logic,
                                inputs: Seq::new((imp.pin_count() - 1) as nat, |i: int| None),
                                output: None,
                            },
                        ),
                    ),
                    ..old(self)@.topo
                },
                footprints: old(self)@.footprints.push(Some(footprint_at(imp, pos, dir, flip))),
                outs: old(self)@.outs.push(logic.init_spec()),
                queue: old(self)@.queue.push(r->Ok_0),
                ..old(self)@
            }),
            old(self)@.power_on() ==> final(self)@.power_on(),
    {
        let auto = Some(TransformSupport::Automatic);
        let transform = CircuitTransform { support: imp.transform_support(), dir, flip };
        let render_size = imp.size(transform);
        let size = transform.transform_size(render_size, auto);
        let info = CircuitInfo { pos, render_size, size, transform };
        proof {
            self.lemma_view_facts();
            assert(Footprint { imp, info } == footprint_at(imp, pos, dir, flip));
        }
        if size.x > self.extent.x || pos.x > self.extent.x - size.x || size.y > self.extent.y || pos.y
            > self.extent.y - size.y {
            return Err(EditError::OutOfBounds);
        }
        if self.overlaps_any(&imp, &info, self.circuits.len()) {
            return Err(EditError::Overlap);
        }
        Ok(self.push_circuit(imp, info, logic))
    }
}

impl CircuitBoard {
    /// Moves circuit `c` to `pos`, turned to `dir` and flipped if `flip` is
    /// set. A footprint that leaves the board or shares an occupied quarter
    /// with another circuit is refused and nothing changes. Attachments and
    /// states are kept.
    pub fn move_circuit(&mut self, c: usize, pos: Vec2usize, dir: Direction4, flip: bool) -> (r: Result<(), EditError>)
        requires
            old(self).wf(),
        ensures
            final(self).wf(),
            !old(self)@.has_circuit(c as int) ==> r == Err::<(), EditError>(EditError::NoSuchCircuit),
            old(self)@.has_circuit(c as int) && !placed_ok(
                footprint_at(old(self)@.footprints[c as int]->0.imp, pos, dir, flip),
                old(self)@.extent,
            ) ==> r == Err::<(), EditError>(EditError::OutOfBounds),
            old(self)@.has_circuit(c as int) && placed_ok(
                footprint_at(old(self)@.footprints[c as int]->0.imp, pos, dir, flip),
                old(self)@.extent,
            ) && overlaps(old(self)@, footprint_at(old(self)@.footprints[c as int]->0.imp, pos, dir, flip), c as int)
                ==> r == Err::<(), EditError>(EditError::Overlap),
            old(self)@.has_circuit(c as int) && placed_ok(
                footprint_at(old(self)@.footprints[c as int]->0.imp, pos, dir, flip),
                old(self)@.extent,
            ) && !overlaps(old(self)@, footprint_at(old(self)@.footprints[c as int]->0.imp, pos, dir, flip), c as int)
                ==> r is Ok,
            r is Err ==> final(self)@ == old(self)@,
            r is Ok ==> final(self)@ == (BoardView {
                footprints: old(self)@.footprints.update(
                    c as int,
                    Some(footprint_at(old(self)@.footprints[c as int]->0.imp, pos, dir, flip)),
                ),
                ..old(self)@
            }),
    {
        proof {
            self.lemma_view_facts();
        }
        if c >= self.circuits.len() {
            return Err(EditError::NoSuchCircuit);
        }
        let imp = match &self.circuits[c] {
            Some(bc) => bc.imp,
            None => return Err(EditError::NoSuchCircuit),
        };
        let auto = Some(TransformSupport::Automatic);
        let transform = CircuitTransform { support: imp.transform_support(), dir, flip };
        let render_size = imp.size(transform);
        let size = transform.transform_size(render_size, auto);
        let info = CircuitInfo { pos, render_size, size, transform };
        proof {
            assert(Footprint { imp, info } == footprint_at(imp, pos, dir, flip));
        }
        if size.x > self.extent.x || pos.x > self.extent.x - size.x || size.y > self.extent.y || pos.y
            > self.extent.y - size.y {
            return Err(EditError::OutOfBounds);
        }
        if self.overlaps_any(&imp, &info, c) {
            return Err(EditError::Overlap);
        }
        let mut slot: Option<BoardCircuit> = None;
        std::mem::swap(&mut slot, &mut self.circuits[c]);
        if let Some(mut bc) = slot {
            bc.info = info;
            self.circuits.set(c, Some(bc));
        }
        proof {
            assert(self@.topo.circuits =~= old(self)@.topo.circuits);
            assert(self@.footprints =~= old(self)@.footprints.update(c as int, Some(footprint_at(imp, pos, dir, flip))));
            assert forall|d: int| 0 <= d < self.circuits@.len() && #[trigger] self.circuits@[d] is Some implies placed_ok(
                footprint_of(self.circuits@[d])->0,
                self.extent,
            ) by {
                if d != c {
                    assert(self.circuits@[d] == old(self).circuits@[d]);
                }
            }
            assert forall|d: int| 0 <= d < self.circuits@.len() && !self.queue@.contains(d as usize) implies #[trigger] self.outs@[d]
                == eval(model_of(self.circuits@[d]), self.wires@) by {
                assert(model_of(self.circuits@[d]) == model_of(old(self).circuits@[d]));
            }
        }
        Ok(())
    }

    /// Board position of pin `pin` of circuit `c`: the circuit's position
    /// plus the pin's local position under its transform.
    pub fn pin_position(&self, c: usize, pin: usize) -> (r: Option<Vec2usize>)
        requires
            self.wf(),
        ensures
            r == (if self@.has_circuit(c as int) && pin < self@.footprints[c as int]->0.imp.pin_count() {
                let f = self@.footprints[c as int]->0;
                let local = f.info.transform.transform_pos_spec(
                    f.info.render_size,
                    f.imp.pin_pos(pin as int),
                    Some(TransformSupport::Automatic),
                );
                Some(Vec2usize { x: (f.info.pos.x + local.x) as usize, y: (f.info.pos.y + local.y) as usize })
            } else {
                None
            }),
    {
        proof {
            self.lemma_view_facts();
        }
        if c >= self.circuits.len() {
            return None;
        }
        match &self.circuits[c] {
            None => None,
            Some(bc) => {
                let pins = bc.imp.describe_pins(bc.info.transform);
                if pin >= pins.len() {
                    return None;
                }
                let local = bc.info.transform.transform_pos(
                    bc.info.render_size,
                    pins[pin].pos,
                    Some(TransformSupport::Automatic),
                );
                Some(Vec2usize::new(bc.info.pos.x + local.x, bc.info.pos.y + local.y))
            },
        }
    }
}

} // verus!
