//! Gate evaluation: each gate type folds its inputs one at a time into an
//! output, and reports when the output can no longer change.

use vstd::multiset::Multiset;
use vstd::prelude::*;

verus! {

/// Result of one fold step: the output so far, and whether it is final.
#[derive(Debug, Clone, Copy, PartialEq, Eq, Structural)]
pub struct GateOutput {
    pub out: bool,
    pub fin: bool,
}

/// Number of `true` values in `s`.
pub open spec fn ones(s: Seq<bool>) -> nat
    decreases s.len(),
{
    if s.len() == 0 {
        0
    } else {
        ones(s.drop_last()) + if s.last() {
            1nat
        } else {
            0nat
        }
    }
}

/// What an XOR gate accepts: an odd count of `true` inputs in parity mode,
/// exactly one otherwise.
pub open spec fn xor_accepts(parity: bool, n: nat) -> bool {
    if parity {
        n % 2 == 1
    } else {
        n == 1
    }
}

/// Gate types of the engine.
#[derive(Debug, Clone, Copy, PartialEq, Eq, Structural)]
pub enum GateKind {
    And,
    Or,
    Nand,
    Nor,
    Xor,
    Xnor,
    Not,
}

impl GateKind {
    /// Power-on output, also the output of a gate with no inputs.
    pub open spec fn init_spec(self) -> bool {
        self == GateKind::Xnor
    }

    /// Gate output for the whole input sequence.
    pub open spec fn value_spec(self, parity: bool, inputs: Seq<bool>) -> bool {
        if inputs.len() == 0 {
            self.init_spec()
        } else {
            match self {
                GateKind::And => ones(inputs) == inputs.len(),
                GateKind::Or => ones(inputs) > 0,
                GateKind::Nand => ones(inputs) < inputs.len(),
                GateKind::Nor => ones(inputs) == 0,
                GateKind::Xor => xor_accepts(parity, ones(inputs)),
                GateKind::Xnor => !xor_accepts(parity, ones(inputs)),
                GateKind::Not => !inputs[0],
            }
        }
    }

    /// The inputs hold a value that fixes the output whatever follows.
    pub open spec fn settles_spec(self, inputs: Seq<bool>) -> bool {
        match self {
            GateKind::And | GateKind::Nand => ones(inputs) < inputs.len(),
            GateKind::Or | GateKind::Nor => ones(inputs) > 0,
            GateKind::Xor | GateKind::Xnor => false,
            GateKind::Not => inputs.len() > 0,
        }
    }

    pub open spec fn is_parity_family(self) -> bool {
        self == GateKind::Xor || self == GateKind::Xnor
    }

    pub open spec fn id_spec(self) -> Seq<char> {
        match self {
            GateKind::And => "gate_and"@,
            GateKind::Or => "gate_or"@,
            GateKind::Nand => "gate_nand"@,
            GateKind::Nor => "gate_nor"@,
            GateKind::Xor => "gate_xor"@,
            GateKind::Xnor => "xnor"@,
            GateKind::Not => "gate_not"@,
        }
    }

    pub open spec fn display_name_spec(self) -> Seq<char> {
        match self {
            GateKind::And => "AND gate"@,
            GateKind::Or => "OR gate"@,
            GateKind::Nand => "NAND gate"@,
            GateKind::Nor => "NOR gate"@,
            GateKind::Xor => "XOR gate"@,
            GateKind::Xnor => "XNOR gate"@,
            GateKind::Not => "NOT gate"@,
        }
    }

    /// One fold step of a gate that can settle early.
    pub open spec fn step_spec(self, input: bool) -> GateOutput {
        match self {
            GateKind::And => GateOutput { out: input, fin: !input },
            GateKind::Or => GateOutput { out: input, fin: input },
            GateKind::Nand => GateOutput { out: !input, fin: !input },
            GateKind::Nor => GateOutput { out: !input, fin: input },
            _ => GateOutput { out: !input, fin: true },
        }
    }

    /// Stable identifier of a gate type.
    pub fn id(self) -> (r: &'static str)
        ensures
            r@ == self.id_spec(),
    {
        match self {
            GateKind::And => And::id(),
            GateKind::Or => Or::id(),
            GateKind::Nand => Nand::id(),
            GateKind::Nor => Nor::id(),
            GateKind::Xor => Xor::id(),
            GateKind::Xnor => Xnor::id(),
            GateKind::Not => Not::id(),
        }
    }

    /// Name shown to users.
    pub fn display_name(self) -> (r: &'static str)
        ensures
            r@ == self.display_name_spec(),
    {
        match self {
            GateKind::And => And::display_name(),
            GateKind::Or => Or::display_name(),
            GateKind::Nand => Nand::display_name(),
            GateKind::Nor => Nor::display_name(),
            GateKind::Xor => Xor::display_name(),
            GateKind::Xnor => Xnor::display_name(),
            GateKind::Not => Not::display_name(),
        }
    }

    pub fn init_state(self) -> (r: bool)
        ensures
            r == self.init_spec(),
    {
        match self {
            GateKind::And => And::init_state(),
            GateKind::Or => Or::init_state(),
            GateKind::Nand => Nand::init_state(),
            GateKind::Nor => Nor::init_state(),
            GateKind::Xor => Xor::init_state(),
            GateKind::Xnor => Xnor::init_state(),
            GateKind::Not => Not::init_state(),
        }
    }

    /// Gate output for `inputs`, with whether it was settled early.
    /// AND, OR, NAND, NOR and NOT stop folding at the first input that
    /// settles them; XOR and XNOR fold every input.
    pub fn evaluate(self, parity: bool, inputs: &[bool]) -> (r: GateOutput)
        ensures
            r.out == self.value_spec(parity, inputs@),
            r.fin == self.settles_spec(inputs@),
    {
        match self {
            GateKind::Xor => GateOutput { out: Xor::process(inputs, parity), fin: false },
            GateKind::Xnor => GateOutput { out: Xnor::process(inputs, parity), fin: false },
            _ => self.fold_until_settled(inputs),
        }
    }

    /// One step of the fold function of this gate type.
    pub fn fold(self, state: &mut bool, input: bool) -> (r: GateOutput)
        requires
            !self.is_parity_family(),
        ensures
            r == self.step_spec(input),
            *final(state) == *old(state),
    {
        match self {
            GateKind::And => And::fold(state, input),
            GateKind::Or => Or::fold(state, input),
            GateKind::Nand => Nand::fold(state, input),
            GateKind::Nor => Nor::fold(state, input),
            _ => Not::fold(state, input),
        }
    }

    fn fold_until_settled(self, inputs: &[bool]) -> (r: GateOutput)
        requires
            !self.is_parity_family(),
        ensures
            r.out == self.value_spec(false, inputs@),
            r.fin == self.settles_spec(inputs@),
    {
        let mut state = self.init_state();
        let mut out = GateOutput { out: state, fin: false };
        let mut i: usize = 0;
        proof {
            assert(inputs@.subrange(0, 0) =~= Seq::<bool>::empty());
            assert(ones(Seq::<bool>::empty()) == 0);
        }
        while i < inputs.len() && !out.fin
            invariant
                !self.is_parity_family(),
                i <= inputs@.len(),
                out.out == self.value_spec(false, inputs@.subrange(0, i as int)),
                out.fin == self.settles_spec(inputs@.subrange(0, i as int)),
            decreases inputs@.len() - i,
        {
            let ghost prefix = inputs@.subrange(0, i as int);
            out = self.fold(&mut state, inputs[i]);
            proof {
                assert(inputs@.subrange(0, i + 1) =~= prefix.push(inputs@[i as int]));
                lemma_step(self, prefix, inputs@[i as int]);
            }
            i = i + 1;
        }
        proof {
            let prefix = inputs@.subrange(0, i as int);
            let rest = inputs@.subrange(i as int, inputs@.len() as int);
            assert(inputs@ =~= prefix + rest);
            lemma_ones_append(prefix, rest);
            lemma_ones_bound(prefix);
            lemma_ones_bound(rest);
        }
        out
    }
}

/// Before the output settles, the next fold step gives the output and the
/// settled flag of the longer input sequence.
proof fn lemma_step(kind: GateKind, prefix: Seq<bool>, x: bool)
    requires
        !kind.is_parity_family(),
        !kind.settles_spec(prefix),
    ensures
        kind.value_spec(false, prefix.push(x)) == kind.step_spec(x).out,
        kind.settles_spec(prefix.push(x)) == kind.step_spec(x).fin,
{
    assert(prefix.push(x).drop_last() =~= prefix);
    lemma_ones_bound(prefix);
}

pub proof fn lemma_ones_bound(s: Seq<bool>)
    ensures
        ones(s) <= s.len(),
    decreases s.len(),
{
    if s.len() > 0 {
        lemma_ones_bound(s.drop_last());
    }
}

pub proof fn lemma_ones_append(s: Seq<bool>, t: Seq<bool>)
    ensures
        ones(s + t) == ones(s) + ones(t),
    decreases t.len(),
{
    if t.len() == 0 {
        assert(s + t =~= s);
    } else {
        assert((s + t).drop_last() =~= s + t.drop_last());
        lemma_ones_append(s, t.drop_last());
    }
}

/// The count of `true` values is the multiplicity of `true` in the multiset.
pub proof fn lemma_ones_multiset(s: Seq<bool>)
    ensures
        ones(s) == s.to_multiset().count(true),
        s.len() == s.to_multiset().len(),
    decreases s.len(),
{
    s.to_multiset_ensures();
    if s.len() > 0 {
        let p = s.drop_last();
        lemma_ones_multiset(p);
        p.to_multiset_ensures();
        assert(p.push(s.last()) =~= s);
    } else {
        assert(s.to_multiset() =~= Multiset::empty());
    }
}

/// Folding the same multiset of input values in any order gives the same
/// output and the same settled flag, for every gate type (NOT has a single
/// input).
pub proof fn lemma_fold_order_irrelevant(kind: GateKind, parity: bool, a: Seq<bool>, b: Seq<bool>)
    requires
        a.to_multiset() == b.to_multiset(),
        kind != GateKind::Not || a.len() <= 1,
    ensures
        kind.value_spec(parity, a) == kind.value_spec(parity, b),
        kind.settles_spec(a) == kind.settles_spec(b),
{
    lemma_ones_multiset(a);
    lemma_ones_multiset(b);
    if kind == GateKind::Not && a.len() == 1 {
        a.to_multiset_ensures();
        b.to_multiset_ensures();
        assert(a.to_multiset().count(a[0]) > 0);
        assert(b.contains(a[0]));
    }
}

/// AND gate: `true` only when every input is `true`.
#[derive(Debug, Clone, Copy)]
pub struct And;

/// OR gate: `true` when any input is `true`.
#[derive(Debug, Clone, Copy)]
pub struct Or;

/// NAND gate: `false` only when every input is `true`.
#[derive(Debug, Clone, Copy)]
pub struct Nand;

/// NOR gate: `true` only when no input is `true`.
#[derive(Debug, Clone, Copy)]
pub struct Nor;

/// XOR gate: exactly one `true` input, or an odd count in parity mode.
#[derive(Debug, Clone, Copy)]
pub struct Xor;

/// XNOR gate: the negation of XOR, in both modes.
#[derive(Debug, Clone, Copy)]
pub struct Xnor;

/// NOT gate: inverts its single input.
#[derive(Debug, Clone, Copy)]
pub struct Not;

impl And {
    pub fn id() -> (r: &'static str)
        ensures
            r@ == "gate_and"@,
    {
        "gate_and"
    }

    pub fn display_name() -> (r: &'static str)
        ensures
            r@ == "AND gate"@,
    {
        "AND gate"
    }

    pub fn init_state() -> (r: bool)
        ensures
            r == false,
    {
        false
    }

    /// A `false` input settles the output to `false`.
    pub fn fold(state: &mut bool, input: bool) -> (r: GateOutput)
        ensures
            r == (GateOutput { out: input, fin: !input }),
            *final(state) == *old(state),
    {
        if input {
            GateOutput { out: true, fin: false }
        } else {
            GateOutput { out: false, fin: true }
        }
    }
}

impl Or {
    pub fn id() -> (r: &'static str)
        ensures
            r@ == "gate_or"@,
    {
        "gate_or"
    }

    pub fn display_name() -> (r: &'static str)
        ensures
            r@ == "OR gate"@,
    {
        "OR gate"
    }

    pub fn init_state() -> (r: bool)
        ensures
            r == false,
    {
        false
    }

    /// A `true` input settles the output to `true`.
    pub fn fold(state: &mut bool, input: bool) -> (r: GateOutput)
        ensures
            r == (GateOutput { out: input, fin: input }),
            *final(state) == *old(state),
    {
        if input {
            GateOutput { out: true, fin: true }
        } else {
            GateOutput { out: false, fin: false }
        }
    }
}

impl Nand {
    pub fn id() -> (r: &'static str)
        ensures
            r@ == "gate_nand"@,
    {
        "gate_nand"
    }

    pub fn display_name() -> (r: &'static str)
        ensures
            r@ == "NAND gate"@,
    {
        "NAND gate"
    }

    pub fn init_state() -> (r: bool)
        ensures
            r == false,
    {
        false
    }

    /// A `false` input settles the output to `true`.
    pub fn fold(state: &mut bool, input: bool) -> (r: GateOutput)
        ensures
            r == (GateOutput { out: !input, fin: !input }),
            *final(state) == *old(state),
    {
        if !input {
            GateOutput { out: true, fin: true }
        } else {
            GateOutput { out: false, fin: false }
        }
    }
}

impl Nor {
    pub fn id() -> (r: &'static str)
        ensures
            r@ == "gate_nor"@,
    {
        "gate_nor"
    }

    pub fn display_name() -> (r: &'static str)
        ensures
            r@ == "NOR gate"@,
    {
        "NOR gate"
    }

    pub fn init_state() -> (r: bool)
        ensures
            r == false,
    {
        false
    }

    /// A `true` input settles the output to `false`.
    pub fn fold(state: &mut bool, input: bool) -> (r: GateOutput)
        ensures
            r == (GateOutput { out: !input, fin: input }),
            *final(state) == *old(state),
    {
        if !input {
            GateOutput { out: true, fin: false }
        } else {
            GateOutput { out: false, fin: true }
        }
    }
}

/// Count of `true` values in `inputs`.
fn count_ones(inputs: &[bool]) -> (r: usize)
    ensures
        r == ones(inputs@),
{
    let mut count: usize = 0;
    let mut i: usize = 0;
    while i < inputs.len()
        invariant
            i <= inputs@.len(),
            count == ones(inputs@.subrange(0, i as int)),
            count <= i,
        decreases inputs@.len() - i,
    {
        proof {
            assert(inputs@.subrange(0, i + 1).drop_last() =~= inputs@.subrange(0, i as int));
        }
        if inputs[i] {
            count = count + 1;
        }
        i = i + 1;
    }
    proof {
        assert(inputs@.subrange(0, i as int) =~= inputs@);
    }
    count
}

fn accepts(parity: bool, count: usize) -> (r: bool)
    ensures
        r == xor_accepts(parity, count as nat),
{
    if parity {
        count % 2 == 1
    } else {
        count == 1
    }
}

impl Xor {
    pub fn id() -> (r: &'static str)
        ensures
            r@ == "gate_xor"@,
    {
        "gate_xor"
    }

    pub fn display_name() -> (r: &'static str)
        ensures
            r@ == "XOR gate"@,
    {
        "XOR gate"
    }

    pub fn extra_toggle_name() -> (r: Option<&'static str>)
        ensures
            r is Some && r->0@ == "Parity mode"@,
    {
        Some("Parity mode")
    }

    pub fn init_state() -> (r: bool)
        ensures
            r == false,
    {
        false
    }

    /// The running parity bit: each `true` input toggles it. Never settles.
    pub fn fold(state: &mut bool, input: bool) -> (r: GateOutput)
        ensures
            *final(state) == (*old(state) != input),
            r == (GateOutput { out: *final(state), fin: false }),
    {
        if input {
            *state = !*state;
        }
        GateOutput { out: *state, fin: false }
    }

    /// Output for the complete input set.
    pub fn process(inputs: &[bool], parity: bool) -> (r: bool)
        ensures
            r == GateKind::Xor.value_spec(parity, inputs@),
    {
        let count = count_ones(inputs);
        accepts(parity, count)
    }
}

impl Xnor {
    pub fn id() -> (r: &'static str)
        ensures
            r@ == "xnor"@,
    {
        "xnor"
    }

    pub fn display_name() -> (r: &'static str)
        ensures
            r@ == "XNOR gate"@,
    {
        "XNOR gate"
    }

    pub fn name() -> (r: &'static str)
        ensures
            r@ == "XNOR gate"@,
    {
        Xnor::display_name()
    }

    pub fn extra_toggle_name() -> (r: Option<&'static str>)
        ensures
            r is Some && r->0@ == "Parity mode"@,
    {
        Some("Parity mode")
    }

    pub fn init_state() -> (r: bool)
        ensures
            r == true,
    {
        true
    }

    /// The running parity bit, output inverted. Never settles.
    pub fn fold(state: &mut bool, input: bool) -> (r: GateOutput)
        ensures
            *final(state) == (*old(state) != input),
            r == (GateOutput { out: !*final(state), fin: false }),
    {
        if input {
            *state = !*state;
        }
        GateOutput { out: !*state, fin: false }
    }

    /// Output for the complete input set.
    pub fn process(inputs: &[bool], parity: bool) -> (r: bool)
        ensures
            r == GateKind::Xnor.value_spec(parity, inputs@),
    {
        let count = count_ones(inputs);
        !accepts(parity, count)
    }
}

impl Not {
    pub fn id() -> (r: &'static str)
        ensures
            r@ == "gate_not"@,
    {
        "gate_not"
    }

    pub fn display_name() -> (r: &'static str)
        ensures
            r@ == "NOT gate"@,
    {
        "NOT gate"
    }

    pub fn init_state() -> (r: bool)
        ensures
            r == false,
    {
        false
    }

    /// Inverts the input and settles at once.
    pub fn fold(state: &mut bool, input: bool) -> (r: GateOutput)
        ensures
            r == (GateOutput { out: !input, fin: true }),
            *final(state) == *old(state),
    {
        GateOutput { out: !input, fin: true }
    }
}

} // verus!
