//! The circuit graph: wires are numbered in creation order, and each wire is
//! defined by exactly one gate over earlier wires.
use crate::field::{add_mod, mul_mod, sub_mod, P};
use vstd::prelude::*;

verus! {

/// Index of a wire in the circuit.
pub type Target = usize;

/// How a wire is defined from earlier wires.
#[derive(Clone, Copy, Debug, PartialEq, Eq, Structural)]
pub enum Gate {
    /// A value bound by the witness.
    Input,
    /// Product of two wires.
    Mul { a: Target, b: Target },
    /// Difference of two wires.
    Sub { a: Target, b: Target },
    /// Bit `index` (little-endian) of the canonical value of `src`.
    Bit { src: Target, index: u64 },
    /// Boolean negation, `1 - a`.
    Not { a: Target },
    /// Boolean conjunction, `a * b`.
    And { a: Target, b: Target },
    /// Multiplexer `cond * (a - b) + b`: `a` when `cond` is 1, `b` when it is 0.
    Select { cond: Target, a: Target, b: Target },
}

/// A wire that the circuit constrains to 0 or 1.
#[derive(Clone, Copy, Debug, PartialEq, Eq, Structural)]
pub struct BoolTarget {
    pub target: Target,
}

/// The circuit under construction: its gates and its ordered public inputs.
pub struct CircuitBuilder {
    pub gates: Vec<Gate>,
    pub public_inputs: Vec<Target>,
}

/// Bit `k` of `x`, least significant first.
pub open spec fn bit_of(x: u64, k: u64) -> u64 {
    (x >> k) & 1
}

/// Every operand of wire `i`'s defining gate is an earlier wire.
pub open spec fn gate_wf(g: Gate, i: int) -> bool {
    match g {
        Gate::Input => true,
        Gate::Mul { a, b } => a < i && b < i,
        Gate::Sub { a, b } => a < i && b < i,
        Gate::Bit { src, index } => src < i && index < 64,
        Gate::Not { a } => a < i,
        Gate::And { a, b } => a < i && b < i,
        Gate::Select { cond, a, b } => cond < i && a < i && b < i,
    }
}

/// The value that a non-input gate defines from the values `w` of earlier wires.
pub open spec fn gate_value(g: Gate, w: Seq<u64>) -> int {
    match g {
        Gate::Input => 0,
        Gate::Mul { a, b } => mul_mod(w[a as int] as int, w[b as int] as int),
        Gate::Sub { a, b } => sub_mod(w[a as int] as int, w[b as int] as int),
        Gate::Bit { src, index } => bit_of(w[src as int], index) as int,
        Gate::Not { a } => sub_mod(1, w[a as int] as int),
        Gate::And { a, b } => mul_mod(w[a as int] as int, w[b as int] as int),
        Gate::Select { cond, a, b } => add_mod(
            mul_mod(w[cond as int] as int, sub_mod(w[a as int] as int, w[b as int] as int)),
            w[b as int] as int,
        ),
    }
}

/// The arithmetic relation that wire `i`'s defining gate enforces on the values `w`.
pub open spec fn gate_holds(g: Gate, i: int, w: Seq<u64>) -> bool {
    g is Input || w[i] as int == gate_value(g, w)
}

/// A gate's value depends on the earlier wires alone.
pub proof fn lemma_gate_value_local(g: Gate, i: int, w1: Seq<u64>, w2: Seq<u64>)
    requires
        gate_wf(g, i),
        i <= w1.len(),
        i <= w2.len(),
        forall|j: int| 0 <= j < i ==> #[trigger] w1[j] == w2[j],
    ensures
        gate_value(g, w1) == gate_value(g, w2),
{
    match g {
        Gate::Input => {},
        Gate::Mul { a, b } => { assert(w1[a as int] == w2[a as int] && w1[b as int] == w2[b as int]); },
        Gate::Sub { a, b } => { assert(w1[a as int] == w2[a as int] && w1[b as int] == w2[b as int]); },
        Gate::Bit { src, index } => { assert(w1[src as int] == w2[src as int]); },
        Gate::Not { a } => { assert(w1[a as int] == w2[a as int]); },
        Gate::And { a, b } => { assert(w1[a as int] == w2[a as int] && w1[b as int] == w2[b as int]); },
        Gate::Select { cond, a, b } => {
            assert(w1[cond as int] == w2[cond as int] && w1[a as int] == w2[a as int] && w1[b as int] == w2[b as int]);
        },
    }
}

/// The first `n` wires hold canonical values that satisfy their gates.
pub open spec fn prefix_satisfies(gates: Seq<Gate>, w: Seq<u64>, n: int) -> bool {
    &&& n <= gates.len()
    &&& n <= w.len()
    &&& forall|j: int| 0 <= j < n ==> #[trigger] w[j] < P && gate_holds(gates[j], j, w)
}

/// `w` assigns a canonical value to every wire and satisfies every gate.
pub open spec fn witness_satisfies(gates: Seq<Gate>, w: Seq<u64>) -> bool {
    w.len() == gates.len() && prefix_satisfies(gates, w, gates.len() as int)
}

/// The circuit graph is acyclic in creation order and publishes existing wires.
pub open spec fn circuit_wf(gates: Seq<Gate>, public_inputs: Seq<Target>) -> bool {
    &&& forall|i: int| 0 <= i < gates.len() ==> #[trigger] gate_wf(gates[i], i)
    &&& forall|k: int| 0 <= k < public_inputs.len() ==> #[trigger] public_inputs[k] < gates.len()
}

impl CircuitBuilder {
    pub open spec fn wf(&self) -> bool {
        circuit_wf(self.gates@, self.public_inputs@)
    }

    /// An empty circuit.
    pub fn new() -> (r: Self)
        ensures
            r.gates@.len() == 0,
            r.public_inputs@.len() == 0,
            r.wf(),
    {
        CircuitBuilder { gates: Vec::new(), public_inputs: Vec::new() }
    }

    /// Number of wires declared so far.
    pub fn num_wires(&self) -> (r: usize)
        ensures
            r == self.gates@.len(),
    {
        self.gates.len()
    }

    /// Appends a gate and returns the wire it defines.
    fn add_gate(&mut self, g: Gate) -> (r: Target)
        requires
            old(self).wf(),
            gate_wf(g, old(self).gates@.len() as int),
            old(self).gates@.len() < usize::MAX,
        ensures
            r == old(self).gates@.len(),
            final(self).gates@ == old(self).gates@.push(g),
            final(self).public_inputs@ == old(self).public_inputs@,
            final(self).wf(),
    {
        let r = self.gates.len();
        self.gates.push(g);
        proof {
            assert forall|i: int| 0 <= i < self.gates@.len() implies #[trigger] gate_wf(self.gates@[i], i) by {
                if i < r {
                    assert(gate_wf(old(self).gates@[i], i));
                }
            }
            assert forall|k: int| 0 <= k < self.public_inputs@.len() implies #[trigger] self.public_inputs@[k] < self.gates@.len() by {
                assert(old(self).public_inputs@[k] < old(self).gates@.len());
            }
        }
        r
    }

    /// Declares a wire whose value the witness binds.
    pub fn add_virtual_target(&mut self) -> (r: Target)
        requires
            old(self).wf(),
            old(self).gates@.len() < usize::MAX,
        ensures
            r == old(self).gates@.len(),
            final(self).gates@ == old(self).gates@.push(Gate::Input),
            final(self).public_inputs@ == old(self).public_inputs@,
            final(self).wf(),
    {
        self.add_gate(Gate::Input)
    }

    /// Declares the product `a * b`.
    pub fn mul(&mut self, a: Target, b: Target) -> (r: Target)
        requires
            old(self).wf(),
            a < old(self).gates@.len(),
            b < old(self).gates@.len(),
            old(self).gates@.len() < usize::MAX,
        ensures
            r == old(self).gates@.len(),
            final(self).gates@ == old(self).gates@.push(Gate::Mul { a, b }),
            final(self).public_inputs@ == old(self).public_inputs@,
            final(self).wf(),
    {
        self.add_gate(Gate::Mul { a, b })
    }

    /// Declares the difference `a - b`.
    pub fn sub(&mut self, a: Target, b: Target) -> (r: Target)
        requires
            old(self).wf(),
            a < old(self).gates@.len(),
            b < old(self).gates@.len(),
            old(self).gates@.len() < usize::MAX,
        ensures
            r == old(self).gates@.len(),
            final(self).gates@ == old(self).gates@.push(Gate::Sub { a, b }),
            final(self).public_inputs@ == old(self).public_inputs@,
            final(self).wf(),
    {
        self.add_gate(Gate::Sub { a, b })
    }

    /// Declares the negation of a boolean wire.
    pub fn not(&mut self, a: BoolTarget) -> (r: BoolTarget)
        requires
            old(self).wf(),
            a.target < old(self).gates@.len(),
            old(self).gates@.len() < usize::MAX,
        ensures
            r.target == old(self).gates@.len(),
            final(self).gates@ == old(self).gates@.push(Gate::Not { a: a.target }),
            final(self).public_inputs@ == old(self).public_inputs@,
            final(self).wf(),
    {
        BoolTarget { target: self.add_gate(Gate::Not { a: a.target }) }
    }

    /// Declares the conjunction of two boolean wires.
    pub fn and(&mut self, a: BoolTarget, b: BoolTarget) -> (r: BoolTarget)
        requires
            old(self).wf(),
            a.target < old(self).gates@.len(),
            b.target < old(self).gates@.len(),
            old(self).gates@.len() < usize::MAX,
        ensures
            r.target == old(self).gates@.len(),
            final(self).gates@ == old(self).gates@.push(Gate::And { a: a.target, b: b.target }),
            final(self).public_inputs@ == old(self).public_inputs@,
            final(self).wf(),
    {
        BoolTarget { target: self.add_gate(Gate::And { a: a.target, b: b.target }) }
    }

    /// Declares the multiplexer that yields `a` when `cond` holds and `b` otherwise.
    pub fn select(&mut self, cond: BoolTarget, a: Target, b: Target) -> (r: Target)
        requires
            old(self).wf(),
            cond.target < old(self).gates@.len(),
            a < old(self).gates@.len(),
            b < old(self).gates@.len(),
            old(self).gates@.len() < usize::MAX,
        ensures
            r == old(self).gates@.len(),
            final(self).gates@ == old(self).gates@.push(Gate::Select { cond: cond.target, a, b }),
            final(self).public_inputs@ == old(self).public_inputs@,
            final(self).wf(),
    {
        self.add_gate(Gate::Select { cond: cond.target, a, b })
    }

    /// Decomposes `x` into `num_bits` boolean wires, least significant first.
    pub fn split_le(&mut self, x: Target, num_bits: usize) -> (r: Vec<BoolTarget>)
        requires
            old(self).wf(),
            x < old(self).gates@.len(),
            num_bits <= 64,
            old(self).gates@.len() + num_bits < usize::MAX,
        ensures
            final(self).gates@ == old(self).gates@ + Seq::new(
                num_bits as nat,
                |k: int| Gate::Bit { src: x, index: k as u64 },
            ),
            final(self).public_inputs@ == old(self).public_inputs@,
            final(self).wf(),
            r@.len() == num_bits,
            forall|k: int| 0 <= k < num_bits ==> (#[trigger] r@[k]).target == old(self).gates@.len() + k,
    {
        let ghost start = self.gates@;
        let mut bits: Vec<BoolTarget> = Vec::new();
        let mut k: usize = 0;
        while k < num_bits
            invariant
                k <= num_bits,
                num_bits <= 64,
                x < start.len(),
                start.len() + num_bits < usize::MAX,
                self.wf(),
                self.gates@ == start + Seq::new(k as nat, |j: int| Gate::Bit { src: x, index: j as u64 }),
                self.public_inputs@ == old(self).public_inputs@,
                start == old(self).gates@,
                bits@.len() == k,
                forall|j: int| 0 <= j < k ==> (#[trigger] bits@[j]).target == start.len() + j,
            decreases num_bits - k,
        {
            let t = self.add_gate(Gate::Bit { src: x, index: k as u64 });
            bits.push(BoolTarget { target: t });
            k = k + 1;
            assert(self.gates@ =~= start + Seq::new(k as nat, |j: int| Gate::Bit { src: x, index: j as u64 }));
        }
        bits
    }

    /// Publishes a wire's value alongside the proof.
    pub fn register_public_input(&mut self, t: Target)
        requires
            old(self).wf(),
            t < old(self).gates@.len(),
        ensures
            final(self).gates@ == old(self).gates@,
            final(self).public_inputs@ == old(self).public_inputs@.push(t),
            final(self).wf(),
    {
        self.public_inputs.push(t);
        proof {
            assert forall|k: int| 0 <= k < self.public_inputs@.len() implies #[trigger] self.public_inputs@[k] < self.gates@.len() by {
                if k < old(self).public_inputs@.len() {
                    assert(old(self).public_inputs@[k] < old(self).gates@.len());
                }
            }
        }
    }
}

} // verus!
