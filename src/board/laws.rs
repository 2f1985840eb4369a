//! Properties of propagation waves that hold for every board.

use vstd::prelude::*;

use crate::gates::GateKind;
use super::{BoardView, CircuitModel, Logic, Topology, drives, input_values, lemma_run_flag, merge, next_outs, run, wave_result};

verus! {

/// A wave never reports a stale state as settled: it ends `Stable` exactly
/// when its outputs are a fixed point, and then its wire states are what
/// those outputs drive.
pub proof fn lemma_wave_reports_truthfully(v: BoardView)
    requires
        v.outs.len() == v.topo.circuits.len(),
    ensures
        wave_result(v).2 == (BoardView { outs: wave_result(v).0, wires: wave_result(v).1, ..v }).settled(),
{
    lemma_run_flag(v.topo, v.outs, v.cap);
    lemma_run_len(v.topo, v.outs, v.cap);
}

proof fn lemma_run_len(t: Topology, outs: Seq<bool>, fuel: nat)
    requires
        outs.len() == t.circuits.len(),
    ensures
        run(t, outs, fuel).0.len() == t.circuits.len(),
    decreases fuel,
{
    if next_outs(t, outs) != outs && fuel > 0 {
        lemma_run_len(t, next_outs(t, outs), (fuel - 1) as nat);
    }
}

/// The topology of a single NOT gate whose output wire is also its input.
pub open spec fn inverter_loop(parity: bool) -> Topology {
    Topology {
        circuits: seq![
            Some(
                CircuitModel {
                    logic: Logic::Gate { kind: GateKind::Not, parity },
                    inputs: seq![Some(0usize)],
                    output: Some(0usize),
                },
            ),
        ],
        wire_alive: seq![true],
    }
}

/// A NOT gate feeding its own input has no fixed point: whatever the
/// iteration cap, a wave on it ends reported unstable.
pub proof fn lemma_inverter_loop_unstable(parity: bool, outs: Seq<bool>, fuel: nat)
    requires
        outs.len() == 1,
    ensures
        !run(inverter_loop(parity), outs, fuel).1,
    decreases fuel,
{
    let t = inverter_loop(parity);
    let w = merge(t, outs);
    assert(drives(t.circuits[0], 0));
    assert(w[0] == outs[0]);
    let m = t.circuits[0]->0;
    assert(input_values(m, w) =~= seq![outs[0]]);
    assert(next_outs(t, outs)[0] == !outs[0]);
    if fuel > 0 {
        lemma_inverter_loop_unstable(parity, next_outs(t, outs), (fuel - 1) as nat);
    }
}

/// Neither the queue discipline nor what the queue holds changes the
/// outputs, wire states or stability that a wave ends with.
pub proof fn lemma_queue_order_irrelevant(v: BoardView, ordered: bool, queue: Seq<usize>)
    ensures
        wave_result(BoardView { ordered, queue, ..v }) == wave_result(v),
{
}

/// Two boards with the same topology and iteration cap, both in their
/// power-on state (one just reset, the other only ever edited since it was
/// built), end a wave with the same outputs, wire states and stability.
pub proof fn lemma_reset_matches_fresh(a: BoardView, b: BoardView)
    requires
        a.topo == b.topo,
        a.cap == b.cap,
        a.power_on(),
        b.power_on(),
    ensures
        wave_result(a) == wave_result(b),
{
}

} // verus!
