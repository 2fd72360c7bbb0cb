//! Witness generation: binding the input wires and computing every other wire
//! from its gate, with the failures that must stop a proving run.
use crate::circuit::{gate_holds, gate_value, gate_wf, lemma_gate_value_local, prefix_satisfies, witness_satisfies, CircuitBuilder, Gate, Target};
use crate::field::{field_add, field_mul, field_sub, P};
use vstd::prelude::*;

verus! {

/// Why a witness cannot be produced.
#[derive(Clone, Copy, Debug, PartialEq, Eq, Structural)]
pub enum WitnessError {
    /// The value bound to the wire is not a canonical field element.
    NonCanonical(Target),
    /// The wire is bound to a value that its gate (or an earlier binding) contradicts.
    Conflict(Target),
    /// The input wire has no value.
    Unassigned(Target),
}

/// Values bound to wires before generation; unbound wires hold `None`.
pub struct PartialWitness {
    pub values: Vec<Option<u64>>,
}

/// Every bound value of `pw` agrees with `w`.
pub open spec fn agrees(w: Seq<u64>, pw: PartialWitness) -> bool {
    forall|i: int| 0 <= i < w.len() && (#[trigger] pw.get(i)) is Some ==> pw.get(i) == Some(w[i])
}

/// Every input wire of `gates` is bound in `pw` to its value in `w`.
pub open spec fn inputs_agree(gates: Seq<Gate>, w: Seq<u64>, pw: PartialWitness, n: int) -> bool {
    forall|i: int| 0 <= i < n && (#[trigger] gates[i]) is Input ==> pw.get(i) == Some(w[i])
}

impl PartialWitness {
    /// The value bound to wire `t`, if any.
    pub open spec fn get(&self, t: int) -> Option<u64> {
        if 0 <= t < self.values@.len() {
            self.values@[t]
        } else {
            None
        }
    }

    /// Every bound value is canonical.
    pub open spec fn wf(&self) -> bool {
        forall|t: int| 0 <= t < self.values@.len() && (#[trigger] self.values@[t]) is Some ==> self.values@[t]->0 < P
    }

    /// A witness with no wire bound.
    pub fn new() -> (r: Self)
        ensures
            r.wf(),
            r.values@.len() == 0,
            forall|t: int| r.get(t) is None,
    {
        PartialWitness { values: Vec::new() }
    }

    /// The value bound to wire `t`, if any.
    pub fn get_target(&self, t: Target) -> (r: Option<u64>)
        ensures
            r == self.get(t as int),
    {
        if t < self.values.len() {
            self.values[t]
        } else {
            None
        }
    }

    /// Binds wire `t` to `value`. Fails on a non-canonical value and on a
    /// wire already bound to another value; a failed call changes nothing.
    pub fn set_target(&mut self, t: Target, value: u64) -> (r: Result<(), WitnessError>)
        requires
            old(self).wf(),
            t < usize::MAX,
        ensures
            final(self).wf(),
            value >= P ==> r == Err::<(), WitnessError>(WitnessError::NonCanonical(t)),
            value < P && old(self).get(t as int) is Some && old(self).get(t as int) != Some(value)
                ==> r == Err::<(), WitnessError>(WitnessError::Conflict(t)),
            value < P && (old(self).get(t as int) is None || old(self).get(t as int) == Some(value)) ==> r is Ok,
            r is Ok ==> forall|i: int| #[trigger] final(self).get(i) == if i == t as int {
                Some(value)
            } else {
                old(self).get(i)
            },
            r is Err ==> forall|i: int| #[trigger] final(self).get(i) == old(self).get(i),
    {
        if value >= P {
            return Err(WitnessError::NonCanonical(t));
        }
        let cur = self.get_target(t);
        match cur {
            Some(x) => {
                if x != value {
                    return Err(WitnessError::Conflict(t));
                }
            },
            None => {},
        }
        while self.values.len() <= t
            invariant
                self.wf(),
                t < usize::MAX,
                old(self).values@.len() <= self.values@.len(),
                forall|i: int| #[trigger] self.get(i) == old(self).get(i),
            decreases t + 1 - self.values.len(),
        {
            let ghost prev = *self;
            self.values.push(None);
            proof {
                assert forall|i: int| #[trigger] self.get(i) == old(self).get(i) by {
                    assert(prev.get(i) == old(self).get(i));
                    if 0 <= i < prev.values@.len() {
                        assert(self.values@[i] == prev.values@[i]);
                    }
                }
            }
        }
        let ghost prev = *self;
        self.values.set(t, Some(value));
        proof {
            assert forall|i: int| #[trigger] self.get(i) == if i == t as int {
                Some(value)
            } else {
                old(self).get(i)
            } by {
                assert(prev.get(i) == old(self).get(i));
            }
        }
        Ok(())
    }
}


/// The value that a non-input gate defines for wire `i` from earlier wires.
fn eval_gate(g: Gate, vals: &Vec<u64>, i: usize) -> (r: u64)
    requires
        !(g is Input),
        gate_wf(g, i as int),
        i <= vals@.len(),
        forall|j: int| 0 <= j < i ==> #[trigger] vals@[j] < P,
    ensures
        r < P,
        r as int == gate_value(g, vals@),
{
    let ghost s = vals@;
    match g {
        Gate::Input => 0,
        Gate::Mul { a, b } => {
            assert(s[a as int] < P && s[b as int] < P);
            field_mul(vals[a], vals[b])
        },
        Gate::Sub { a, b } => {
            assert(s[a as int] < P && s[b as int] < P);
            field_sub(vals[a], vals[b])
        },
        Gate::Bit { src, index } => {
            let x = vals[src];
            let r = (x >> index) & 1;
            assert((x >> index) & 1 <= 1) by (bit_vector);
            r
        },
        Gate::Not { a } => {
            assert(s[a as int] < P);
            field_sub(1, vals[a])
        },
        Gate::And { a, b } => {
            assert(s[a as int] < P && s[b as int] < P);
            field_mul(vals[a], vals[b])
        },
        Gate::Select { cond, a, b } => {
            assert(s[cond as int] < P && s[a as int] < P && s[b as int] < P);
            let d = field_sub(vals[a], vals[b]);
            let m = field_mul(vals[cond], d);
            field_add(m, vals[b])
        },
    }
}

/// Computes the value of every wire: input wires take their bound values and
/// every other wire the value its gate defines. Fails on an unbound input
/// wire, and on a bound value that the gates contradict.
pub fn generate_witness(builder: &CircuitBuilder, pw: &PartialWitness) -> (r: Result<Vec<u64>, WitnessError>)
    requires
        builder.wf(),
        pw.wf(),
    ensures
        match r {
            Ok(w) => witness_satisfies(builder.gates@, w@) && agrees(w@, *pw),
            Err(WitnessError::Unassigned(i)) => i < builder.gates@.len() && builder.gates@[i as int] is Input
                && pw.get(i as int) is None,
            Err(WitnessError::Conflict(i)) => i < builder.gates@.len() && !(builder.gates@[i as int] is Input)
                && pw.get(i as int) is Some && forall|w: Seq<u64>|
                witness_satisfies(builder.gates@, w) && inputs_agree(builder.gates@, w, *pw, builder.gates@.len() as int)
                    ==> Some(#[trigger] w[i as int]) != pw.get(i as int),
            Err(WitnessError::NonCanonical(_)) => false,
        },
{
    let ghost g = builder.gates@;
    let n = builder.gates.len();
    let mut vals: Vec<u64> = Vec::new();
    let mut i: usize = 0;
    while i < n
        invariant
            n == g.len(),
            g == builder.gates@,
            builder.wf(),
            pw.wf(),
            i <= n,
            vals@.len() == i,
            prefix_satisfies(g, vals@, i as int),
            inputs_agree(g, vals@, *pw, i as int),
            forall|j: int| 0 <= j < i && (#[trigger] pw.get(j)) is Some ==> pw.get(j) == Some(vals@[j]),
        decreases n - i,
    {
        let gi = builder.gates[i];
        assert(gate_wf(g[i as int], i as int));
        let bound = pw.get_target(i);
        let ghost before = vals@;
        let v: u64;
        if matches!(gi, Gate::Input) {
            match bound {
                Some(x) => {
                    assert(pw.values@[i as int] is Some);
                    v = x;
                },
                None => {
                    return Err(WitnessError::Unassigned(i));
                },
            }
        } else {
            v = eval_gate(gi, &vals, i);
            proof {
                lemma_gate_value_local(gi, i as int, before, before.push(v));
            }
            match bound {
                Some(x) => {
                    if x != v {
                        proof {
                            let cand = before.push(v);
                            assert forall|w: Seq<u64>|
                                witness_satisfies(g, w) && inputs_agree(g, w, *pw, n as int)
                                    implies Some(#[trigger] w[i as int]) != pw.get(i as int) by {
                                assert(prefix_satisfies(g, w, i + 1));
                                lemma_prefix_local(g, before, cand, i as int);
                                assert(prefix_satisfies(g, cand, i + 1));
                                assert(inputs_agree(g, cand, *pw, i + 1));
                                assert(inputs_agree(g, w, *pw, i + 1));
                                lemma_prefix_determined(g, *pw, w, cand, i + 1);
                                assert(w[i as int] == cand[i as int]);
                            }
                        }
                        return Err(WitnessError::Conflict(i));
                    }
                },
                None => {},
            }
        }
        vals.push(v);
        proof {
            lemma_prefix_local(g, before, vals@, i as int);
            assert(prefix_satisfies(g, vals@, i + 1));
        }
        i = i + 1;
    }
    Ok(vals)
}

/// Checks values against every gate: each wire is canonical and satisfies
/// the relation that its gate enforces.
pub fn check_witness(builder: &CircuitBuilder, w: &Vec<u64>) -> (r: bool)
    requires
        builder.wf(),
    ensures
        r == witness_satisfies(builder.gates@, w@),
{
    let n = builder.gates.len();
    if w.len() != n {
        return false;
    }
    let mut i: usize = 0;
    while i < n
        invariant
            n == builder.gates@.len(),
            w@.len() == n,
            builder.wf(),
            i <= n,
            prefix_satisfies(builder.gates@, w@, i as int),
        decreases n - i,
    {
        let gi = builder.gates[i];
        assert(gate_wf(builder.gates@[i as int], i as int));
        if w[i] >= P {
            return false;
        }
        let ok = if matches!(gi, Gate::Input) {
            true
        } else {
            assert forall|j: int| 0 <= j < i implies #[trigger] w@[j] < P by {}
            w[i] == eval_gate(gi, w, i)
        };
        if !ok {
            return false;
        }
        i = i + 1;
    }
    true
}

/// Values that agree in the first `n` wires satisfy the first `n` gates alike.
proof fn lemma_prefix_local(gates: Seq<Gate>, w1: Seq<u64>, w2: Seq<u64>, n: int)
    requires
        n <= gates.len(),
        n <= w1.len(),
        n <= w2.len(),
        forall|j: int| 0 <= j < n ==> #[trigger] gate_wf(gates[j], j),
        forall|j: int| 0 <= j < n ==> #[trigger] w1[j] == w2[j],
        prefix_satisfies(gates, w1, n),
    ensures
        prefix_satisfies(gates, w2, n),
{
    assert forall|j: int| 0 <= j < n implies #[trigger] w2[j] < P && gate_holds(gates[j], j, w2) by {
        assert(gate_wf(gates[j], j));
        assert(w1[j] < P && gate_holds(gates[j], j, w1));
        lemma_gate_value_local(gates[j], j, w1, w2);
    }
}

/// Values that satisfy the first `n` gates and agree with the same input
/// bindings agree on the first `n` wires: each wire is a function of its inputs.
pub proof fn lemma_prefix_determined(gates: Seq<Gate>, pw: PartialWitness, w1: Seq<u64>, w2: Seq<u64>, n: int)
    requires
        0 <= n,
        forall|j: int| 0 <= j < n ==> #[trigger] gate_wf(gates[j], j),
        prefix_satisfies(gates, w1, n),
        prefix_satisfies(gates, w2, n),
        inputs_agree(gates, w1, pw, n),
        inputs_agree(gates, w2, pw, n),
    ensures
        forall|j: int| 0 <= j < n ==> #[trigger] w1[j] == w2[j],
    decreases n,
{
    if n > 0 {
        let m = n - 1;
        lemma_prefix_determined(gates, pw, w1, w2, m);
        assert(gate_wf(gates[m], m));
        assert(w1[m] < P && gate_holds(gates[m], m, w1));
        assert(w2[m] < P && gate_holds(gates[m], m, w2));
        lemma_gate_value_local(gates[m], m, w1, w2);
    }
}

} // verus!
