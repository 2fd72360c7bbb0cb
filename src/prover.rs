//! The price-difference predicate circuit: two squared prices, their absolute
//! difference, and whether it reaches the threshold.
use crate::chain_data::PriceDataProvingInputs;
use crate::circuit::{prefix_satisfies, witness_satisfies, BoolTarget, CircuitBuilder, Gate, Target};
use crate::comparison::{compare_gate_unsafe, compare_gates, lemma_compare_gates_value, lemma_compare_same_band, spec_compare_ge};
use crate::field::{add_mod, band_size, mul_mod, sub_mod, MAX_POSITIVE_AMOUNT, P};
use crate::witness::{generate_witness, inputs_agree, PartialWitness, WitnessError};
use vstd::prelude::*;

verus! {

/// Number of wires that `create_price_diff_circuit` declares.
pub const PRICE_CIRCUIT_WIRES: usize = 146;

/// The wires of the predicate circuit that the witness binds, and its result.
#[derive(Clone, Copy, Debug, PartialEq, Eq, Structural)]
pub struct PriceCircuitTargets {
    pub pool_1_sqrt_price_x96_target: Target,
    pub pool_2_sqrt_price_x96_target: Target,
    pub pool_1_block_number_target: Target,
    pub pool_2_block_number_target: Target,
    pub diff_threshold: Target,
    pub exceeds_threshold: BoolTarget,
}

/// The gates that the predicate circuit appends at wire `n`.
pub open spec fn price_diff_gates(n: int) -> Seq<Gate> {
    let s1 = n as usize;
    let s2 = (n + 1) as usize;
    let p1 = (n + 5) as usize;
    let p2 = (n + 6) as usize;
    seq![Gate::Input, Gate::Input, Gate::Input, Gate::Input, Gate::Input]
        + seq![Gate::Mul { a: s1, b: s1 }, Gate::Mul { a: s2, b: s2 }]
        + compare_gates(n + 7, p1, p2)
        + seq![
        Gate::Sub { a: p1, b: p2 },
        Gate::Sub { a: p2, b: p1 },
        Gate::Select { cond: (n + 74) as usize, a: (n + 75) as usize, b: (n + 76) as usize },
    ] + compare_gates(n + 78, (n + 77) as usize, (n + 4) as usize)
}

/// The public inputs that the predicate circuit appends, in order: both block
/// numbers, the threshold, and the result.
pub open spec fn price_public_inputs(n: int) -> Seq<Target> {
    seq![(n + 2) as usize, (n + 3) as usize, (n + 4) as usize, (n + 145) as usize]
}

/// `after` is `before` with the predicate circuit appended.
pub open spec fn builds_price_circuit(
    before_gates: Seq<Gate>,
    before_public: Seq<Target>,
    after_gates: Seq<Gate>,
    after_public: Seq<Target>,
) -> bool {
    &&& after_gates == before_gates + price_diff_gates(before_gates.len() as int)
    &&& after_public == before_public + price_public_inputs(before_gates.len() as int)
}

/// The result that the predicate circuit computes from the encoded square-root
/// prices `s1`, `s2` and the threshold `t`, gate by gate.
pub open spec fn spec_price_exceeds(s1: int, s2: int, t: int) -> bool {
    let p1 = mul_mod(s1, s1);
    let p2 = mul_mod(s2, s2);
    let diff = if spec_compare_ge(p1, p2) {
        sub_mod(p1, p2)
    } else {
        sub_mod(p2, p1)
    };
    spec_compare_ge(diff, t)
}

/// The absolute value of an integer.
pub open spec fn abs(x: int) -> int {
    if x >= 0 {
        x
    } else {
        -x
    }
}

/// The multiplexer yields its first operand on 1 and its second on 0.
pub proof fn lemma_select(c: int, a: int, b: int)
    requires
        c == 0 || c == 1,
        0 <= a < P,
        0 <= b < P,
    ensures
        add_mod(mul_mod(c, sub_mod(a, b)), b) == if c == 1 {
            a
        } else {
            b
        },
{
    let p = P as int;
    lemma_sub_mod_value(a, b);
    if c == 1 {
        assert(mul_mod(c, sub_mod(a, b)) == sub_mod(a, b)) by {
            vstd::arithmetic::div_mod::lemma_small_mod(sub_mod(a, b) as nat, p as nat);
        }
        if a >= b {
            vstd::arithmetic::div_mod::lemma_small_mod(a as nat, p as nat);
        } else {
            assert(sub_mod(a, b) + b == a + p);
            vstd::arithmetic::div_mod::lemma_mod_add_multiples_vanish(a, p);
            vstd::arithmetic::div_mod::lemma_small_mod(a as nat, p as nat);
        }
    } else {
        assert(mul_mod(c, sub_mod(a, b)) == 0);
        vstd::arithmetic::div_mod::lemma_small_mod(b as nat, p as nat);
    }
}

/// Field subtraction of canonical values, without the modulus.
pub proof fn lemma_sub_mod_value(a: int, b: int)
    requires
        0 <= a < P,
        0 <= b < P,
    ensures
        sub_mod(a, b) == if a >= b {
            a - b
        } else {
            a + P - b
        },
{
    let p = P as int;
    if a >= b {
        vstd::arithmetic::div_mod::lemma_mod_sub_multiples_vanish(a + p - b, p);
        vstd::arithmetic::div_mod::lemma_small_mod((a - b) as nat, p as nat);
    } else {
        vstd::arithmetic::div_mod::lemma_small_mod((a + p - b) as nat, p as nat);
    }
}

/// In any values that satisfy the predicate circuit appended at wire `n`, the
/// result wire holds 1 exactly when `spec_price_exceeds` holds of the inputs.
pub proof fn lemma_price_circuit_value(gates: Seq<Gate>, w: Seq<u64>, n: int)
    requires
        0 <= n,
        n + 146 <= gates.len(),
        n + 146 < usize::MAX,
        gates.subrange(n, n + 146) == price_diff_gates(n),
        prefix_satisfies(gates, w, n + 146),
    ensures
        w[n + 145] == if spec_price_exceeds(w[n] as int, w[n + 1] as int, w[n + 4] as int) {
            1u64
        } else {
            0u64
        },
{
    let pg = price_diff_gates(n);
    let p1 = (n + 5) as usize;
    let p2 = (n + 6) as usize;
    assert forall|k: int| 0 <= k < 146 implies #[trigger] gates[n + k] == pg[k] by {
        assert(gates.subrange(n, n + 146)[k] == gates[n + k]);
    }
    assert(gates.subrange(n + 7, n + 75) =~= compare_gates(n + 7, p1, p2)) by {
        assert forall|k: int| 0 <= k < 68 implies #[trigger] gates.subrange(n + 7, n + 75)[k] == compare_gates(n + 7, p1, p2)[k] by {
            assert(gates[n + (7 + k)] == pg[7 + k]);
        }
    }
    assert(gates.subrange(n + 78, n + 146) =~= compare_gates(n + 78, (n + 77) as usize, (n + 4) as usize)) by {
        assert forall|k: int| 0 <= k < 68 implies #[trigger] gates.subrange(n + 78, n + 146)[k] == compare_gates(n + 78, (n + 77) as usize, (n + 4) as usize)[k] by {
            assert(gates[n + (78 + k)] == pg[78 + k]);
        }
    }
    assert(prefix_satisfies(gates, w, n + 75));
    lemma_compare_gates_value(gates, w, n + 7, p1, p2);
    lemma_compare_gates_value(gates, w, n + 78, (n + 77) as usize, (n + 4) as usize);

    assert(gates[n + 5] == pg[5]);
    assert(gates[n + 6] == pg[6]);
    assert(gates[n + 75] == pg[75]);
    assert(gates[n + 76] == pg[76]);
    assert(gates[n + 77] == pg[77]);
    assert(w[n + 5] < P && gates[n + 5] == Gate::Mul { a: n as usize, b: n as usize });
    assert(w[n + 6] < P && gates[n + 6] == Gate::Mul { a: (n + 1) as usize, b: (n + 1) as usize });
    assert(w[n + 75] < P && w[n + 76] < P && w[n + 77] < P && w[n + 74] < P);
    assert(w[n + 5] as int == mul_mod(w[n] as int, w[n] as int));
    assert(w[n + 6] as int == mul_mod(w[n + 1] as int, w[n + 1] as int));
    assert(w[n + 75] as int == sub_mod(w[n + 5] as int, w[n + 6] as int));
    assert(w[n + 76] as int == sub_mod(w[n + 6] as int, w[n + 5] as int));
    lemma_select(w[n + 74] as int, w[n + 75] as int, w[n + 76] as int);
}

/// On inputs whose squares stay in the non-negative band, and a threshold in
/// that band, the circuit's result is whether the squares differ by at least
/// the threshold; a difference equal to the threshold counts.
pub proof fn lemma_divergence_predicate(a: int, b: int, t: int)
    requires
        0 <= a,
        0 <= b,
        a * a < band_size(),
        b * b < band_size(),
        0 <= t < band_size(),
    ensures
        spec_price_exceeds(a, b, t) == (abs(a * a - b * b) >= t),
{
    let p = P as int;
    vstd::arithmetic::div_mod::lemma_small_mod((a * a) as nat, p as nat);
    vstd::arithmetic::div_mod::lemma_small_mod((b * b) as nat, p as nat);
    let p1 = a * a;
    let p2 = b * b;
    assert(mul_mod(a, a) == p1);
    assert(mul_mod(b, b) == p2);
    lemma_compare_same_band(p1, p2);
    lemma_sub_mod_value(p1, p2);
    lemma_sub_mod_value(p2, p1);
    let diff = if p1 >= p2 { p1 - p2 } else { p2 - p1 };
    lemma_compare_same_band(diff, t);
}

/// Why a proving run stops before the backend.
#[derive(Clone, Copy, Debug, PartialEq, Eq, Structural)]
pub enum ProvingError {
    /// An input lies outside the non-negative band the circuit relies on.
    EncodingViolation,
    /// The witness could not be completed consistently.
    Witness(WitnessError),
}

/// The inputs fit the encoding: both squared prices and the threshold lie in
/// the non-negative band, and the block numbers are canonical field elements.
pub open spec fn inputs_encodable(inputs: PriceDataProvingInputs) -> bool {
    let s1 = inputs.price_proving_pis_1.sqrt_price_x96 as int;
    let s2 = inputs.price_proving_pis_2.sqrt_price_x96 as int;
    &&& s1 * s1 < band_size()
    &&& s2 * s2 < band_size()
    &&& (inputs.diff_threshold as int) < band_size()
    &&& inputs.price_proving_pis_1.block_number < P
    &&& inputs.price_proving_pis_2.block_number < P
}

/// Fixed shape and security parameters handed to the proof backend.
#[derive(Clone, Copy, Debug, PartialEq, Eq, Structural)]
pub struct CircuitConfig {
    pub num_wires: usize,
    pub num_routed_wires: usize,
    pub num_constants: usize,
    pub use_base_arithmetic_gate: bool,
    pub security_bits: usize,
    pub num_challenges: usize,
    pub zero_knowledge: bool,
    pub max_quotient_degree_factor: usize,
    pub fri_rate_bits: usize,
    pub fri_cap_height: u32,
    pub fri_proof_of_work_bits: u32,
    pub fri_reduction_arity_bits: usize,
    pub fri_reduction_final_poly_bits: usize,
    pub fri_num_query_rounds: usize,
}

/// The configuration used for every run, so that one verification key serves all.
pub fn standard_config() -> (r: CircuitConfig)
    ensures
        r == (CircuitConfig {
            num_wires: 170,
            num_routed_wires: 80,
            num_constants: 2,
            use_base_arithmetic_gate: true,
            security_bits: 100,
            num_challenges: 2,
            zero_knowledge: false,
            max_quotient_degree_factor: 8,
            fri_rate_bits: 3,
            fri_cap_height: 4,
            fri_proof_of_work_bits: 16,
            fri_reduction_arity_bits: 4,
            fri_reduction_final_poly_bits: 5,
            fri_num_query_rounds: 28,
        }),
{
    CircuitConfig {
        num_wires: 170,
        num_routed_wires: 80,
        num_constants: 2,
        use_base_arithmetic_gate: true,
        security_bits: 100,
        num_challenges: 2,
        zero_knowledge: false,
        max_quotient_degree_factor: 8,
        fri_rate_bits: 3,
        fri_cap_height: 4,
        fri_proof_of_work_bits: 16,
        fri_reduction_arity_bits: 4,
        fri_reduction_final_poly_bits: 5,
        fri_num_query_rounds: 28,
    }
}

/// Circuit construction depends on nothing but the builder it starts from:
/// two constructions from the same builder give the same gates and the same
/// public inputs in the same order.
pub proof fn lemma_construction_deterministic(
    gates: Seq<Gate>,
    public: Seq<Target>,
    gates_1: Seq<Gate>,
    public_1: Seq<Target>,
    gates_2: Seq<Gate>,
    public_2: Seq<Target>,
)
    requires
        builds_price_circuit(gates, public, gates_1, public_1),
        builds_price_circuit(gates, public, gates_2, public_2),
    ensures
        gates_1 == gates_2,
        public_1 == public_2,
{
}

/// Of the predicate circuit's wires, exactly the first five are inputs.
pub proof fn lemma_price_inputs(n: int)
    ensures
        price_diff_gates(n).len() == 146,
        forall|k: int| 0 <= k < 146 ==> ((#[trigger] price_diff_gates(n)[k]) is Input <==> k < 5),
{
    let p1 = (n + 5) as usize;
    let p2 = (n + 6) as usize;
    let c1 = compare_gates(n + 7, p1, p2);
    let c2 = compare_gates(n + 78, (n + 77) as usize, (n + 4) as usize);
    lemma_compare_no_inputs(n + 7, p1, p2);
    lemma_compare_no_inputs(n + 78, (n + 77) as usize, (n + 4) as usize);
    let a = seq![Gate::Input, Gate::Input, Gate::Input, Gate::Input, Gate::Input]
        + seq![Gate::Mul { a: n as usize, b: n as usize }, Gate::Mul { a: (n + 1) as usize, b: (n + 1) as usize }];
    let b = a + c1;
    let c = b + seq![
        Gate::Sub { a: p1, b: p2 },
        Gate::Sub { a: p2, b: p1 },
        Gate::Select { cond: (n + 74) as usize, a: (n + 75) as usize, b: (n + 76) as usize },
    ];
    assert(price_diff_gates(n) == c + c2);
    assert forall|k: int| 0 <= k < 146 implies ((#[trigger] price_diff_gates(n)[k]) is Input <==> k < 5) by {
        if k >= 78 {
            assert(price_diff_gates(n)[k] == c2[k - 78]);
        } else if k >= 75 {
            assert(price_diff_gates(n)[k] == c[k]);
        } else if k >= 7 {
            assert(price_diff_gates(n)[k] == b[k]);
            assert(b[k] == c1[k - 7]);
        } else {
            assert(price_diff_gates(n)[k] == a[k]);
        }
    }
}

/// The comparison fragment declares no input wire.
proof fn lemma_compare_no_inputs(n: int, x: Target, y: Target)
    ensures
        compare_gates(n, x, y).len() == 68,
        forall|k: int| 0 <= k < 68 ==> !((#[trigger] compare_gates(n, x, y)[k]) is Input),
{
    let bits = Seq::new(64, |k: int| Gate::Bit { src: n as usize, index: k as u64 });
    let head = seq![Gate::Sub { a: x, b: y }] + bits;
    assert forall|k: int| 0 <= k < 68 implies !((#[trigger] compare_gates(n, x, y)[k]) is Input) by {
        if 1 <= k < 65 {
            assert(compare_gates(n, x, y)[k] == head[k]);
            assert(head[k] == bits[k - 1]);
        }
    }
}

impl PriceCircuitTargets {
    /// Appends the predicate circuit: it squares both square-root prices,
    /// takes the magnitude of their difference through a multiplexer, compares
    /// it with the threshold, and publishes both block numbers, the threshold
    /// and the result. The shape depends on the builder's size alone.
    pub fn create_price_diff_circuit(builder: &mut CircuitBuilder) -> (r: Self)
        requires
            old(builder).wf(),
            old(builder).gates@.len() + 1000 < usize::MAX,
        ensures
            final(builder).wf(),
            builds_price_circuit(old(builder).gates@, old(builder).public_inputs@, final(builder).gates@, final(builder).public_inputs@),
            r.pool_1_sqrt_price_x96_target == old(builder).gates@.len(),
            r.pool_2_sqrt_price_x96_target == old(builder).gates@.len() + 1,
            r.pool_1_block_number_target == old(builder).gates@.len() + 2,
            r.pool_2_block_number_target == old(builder).gates@.len() + 3,
            r.diff_threshold == old(builder).gates@.len() + 4,
            r.exceeds_threshold.target == old(builder).gates@.len() + 145,
    {
        let ghost g0 = builder.gates@;
        let ghost n = g0.len() as int;
        let pool_1_sqrt_price_x96_target = builder.add_virtual_target();
        let pool_2_sqrt_price_x96_target = builder.add_virtual_target();
        let pool_1_block_number_target = builder.add_virtual_target();
        let pool_2_block_number_target = builder.add_virtual_target();
        let diff_threshold = builder.add_virtual_target();

        let price_1_target = builder.mul(pool_1_sqrt_price_x96_target, pool_1_sqrt_price_x96_target);
        let price_2_target = builder.mul(pool_2_sqrt_price_x96_target, pool_2_sqrt_price_x96_target);
        let ghost g1 = builder.gates@;

        // Both operands are squares of non-negative-band values, so they share
        // the non-negative band whenever the squares stay below 2^62.
        let is_first_price_greater_than_second = compare_gate_unsafe(builder, price_1_target, price_2_target);
        let ghost g2 = builder.gates@;

        let price_diff_1_then_2_target = builder.sub(price_1_target, price_2_target);
        let price_diff_2_then_1_target = builder.sub(price_2_target, price_1_target);
        let price_diff_target = builder.select(
            is_first_price_greater_than_second,
            price_diff_1_then_2_target,
            price_diff_2_then_1_target,
        );
        let ghost g3 = builder.gates@;

        // The magnitude is non-negative, as is the encoded threshold.
        let is_price_diff_more_than_threshold = compare_gate_unsafe(builder, price_diff_target, diff_threshold);

        builder.register_public_input(pool_1_block_number_target);
        builder.register_public_input(pool_2_block_number_target);
        builder.register_public_input(diff_threshold);
        builder.register_public_input(is_price_diff_more_than_threshold.target);

        proof {
            assert(g1 =~= g0 + seq![Gate::Input, Gate::Input, Gate::Input, Gate::Input, Gate::Input]
                + seq![Gate::Mul { a: n as usize, b: n as usize }, Gate::Mul { a: (n + 1) as usize, b: (n + 1) as usize }]);
            assert(builder.gates@ =~= g0 + price_diff_gates(n));
            assert(builder.public_inputs@ =~= old(builder).public_inputs@ + price_public_inputs(n));
        }

        PriceCircuitTargets {
            pool_1_sqrt_price_x96_target,
            pool_2_sqrt_price_x96_target,
            pool_1_block_number_target,
            pool_2_block_number_target,
            diff_threshold,
            exceeds_threshold: is_price_diff_more_than_threshold,
        }
    }

    /// The five input wires are distinct.
    pub open spec fn inputs_distinct(&self) -> bool {
        let t = seq![
            self.pool_1_sqrt_price_x96_target,
            self.pool_2_sqrt_price_x96_target,
            self.pool_1_block_number_target,
            self.pool_2_block_number_target,
            self.diff_threshold,
        ];
        &&& forall|i: int, j: int| 0 <= i < j < 5 ==> t[i] != t[j]
        &&& forall|i: int| 0 <= i < 5 ==> t[i] < usize::MAX
    }

    /// What `set_price_diff_circuit` binds to wire `i`, on top of `pw`.
    pub open spec fn bound_value(&self, inputs: PriceDataProvingInputs, pw: PartialWitness, i: int) -> Option<u64> {
        if i == self.pool_1_sqrt_price_x96_target as int {
            Some(inputs.price_proving_pis_1.sqrt_price_x96)
        } else if i == self.pool_2_sqrt_price_x96_target as int {
            Some(inputs.price_proving_pis_2.sqrt_price_x96)
        } else if i == self.pool_1_block_number_target as int {
            Some(inputs.price_proving_pis_1.block_number)
        } else if i == self.pool_2_block_number_target as int {
            Some(inputs.price_proving_pis_2.block_number)
        } else if i == self.diff_threshold as int {
            Some(inputs.diff_threshold)
        } else {
            pw.get(i)
        }
    }

    /// None of the five input wires is bound in `pw`.
    pub open spec fn inputs_unbound(&self, pw: PartialWitness) -> bool {
        &&& pw.get(self.pool_1_sqrt_price_x96_target as int) is None
        &&& pw.get(self.pool_2_sqrt_price_x96_target as int) is None
        &&& pw.get(self.pool_1_block_number_target as int) is None
        &&& pw.get(self.pool_2_block_number_target as int) is None
        &&& pw.get(self.diff_threshold as int) is None
    }

    /// Binds both snapshots and the encoded threshold to the input wires.
    /// Inputs outside the encoding are refused before anything is bound.
    pub fn set_price_diff_circuit(&self, pw: &mut PartialWitness, proving_inputs: &PriceDataProvingInputs) -> (r: Result<(), ProvingError>)
        requires
            old(pw).wf(),
            self.inputs_distinct(),
        ensures
            final(pw).wf(),
            !inputs_encodable(*proving_inputs) ==> r == Err::<(), ProvingError>(ProvingError::EncodingViolation)
                && forall|i: int| #[trigger] final(pw).get(i) == old(pw).get(i),
            inputs_encodable(*proving_inputs) && self.inputs_unbound(*old(pw)) ==> r is Ok,
            r is Ok ==> forall|i: int| #[trigger] final(pw).get(i) == self.bound_value(*proving_inputs, *old(pw), i),
    {
        let s1 = proving_inputs.price_proving_pis_1.sqrt_price_x96;
        let s2 = proving_inputs.price_proving_pis_2.sqrt_price_x96;
        let b1 = proving_inputs.price_proving_pis_1.block_number;
        let b2 = proving_inputs.price_proving_pis_2.block_number;
        let t = proving_inputs.diff_threshold;
        proof {
            assert((s1 as int) * (s1 as int) <= 0xFFFF_FFFF_FFFF_FFFFint * 0xFFFF_FFFF_FFFF_FFFFint) by (nonlinear_arith)
                requires s1 <= 0xFFFF_FFFF_FFFF_FFFFu64;
            assert((s2 as int) * (s2 as int) <= 0xFFFF_FFFF_FFFF_FFFFint * 0xFFFF_FFFF_FFFF_FFFFint) by (nonlinear_arith)
                requires s2 <= 0xFFFF_FFFF_FFFF_FFFFu64;
        }
        let sq1: u128 = s1 as u128 * s1 as u128;
        let sq2: u128 = s2 as u128 * s2 as u128;
        if sq1 > MAX_POSITIVE_AMOUNT as u128 || sq2 > MAX_POSITIVE_AMOUNT as u128 || t > MAX_POSITIVE_AMOUNT || b1 >= P || b2 >= P {
            return Err(ProvingError::EncodingViolation);
        }
        proof {
            let ghost t5 = seq![
                self.pool_1_sqrt_price_x96_target,
                self.pool_2_sqrt_price_x96_target,
                self.pool_1_block_number_target,
                self.pool_2_block_number_target,
                self.diff_threshold,
            ];
            assert(t5[0] != t5[1] && t5[0] != t5[2] && t5[0] != t5[3] && t5[0] != t5[4]);
            assert(t5[1] != t5[2] && t5[1] != t5[3] && t5[1] != t5[4]);
            assert(t5[2] != t5[3] && t5[2] != t5[4] && t5[3] != t5[4]);
            assert(t5[0] < usize::MAX && t5[1] < usize::MAX && t5[2] < usize::MAX && t5[3] < usize::MAX && t5[4] < usize::MAX);
            assert(s1 < P) by (nonlinear_arith)
                requires (s1 as int) * (s1 as int) < 0x4000_0000_0000_0000int, P == 0xFFFF_FFFF_0000_0001u64;
            assert(s2 < P) by (nonlinear_arith)
                requires (s2 as int) * (s2 as int) < 0x4000_0000_0000_0000int, P == 0xFFFF_FFFF_0000_0001u64;
        }
        match pw.set_target(self.pool_1_sqrt_price_x96_target, s1) {
            Ok(()) => {},
            Err(e) => { return Err(ProvingError::Witness(e)); },
        }
        match pw.set_target(self.pool_2_sqrt_price_x96_target, s2) {
            Ok(()) => {},
            Err(e) => { return Err(ProvingError::Witness(e)); },
        }
        match pw.set_target(self.pool_1_block_number_target, b1) {
            Ok(()) => {},
            Err(e) => { return Err(ProvingError::Witness(e)); },
        }
        match pw.set_target(self.pool_2_block_number_target, b2) {
            Ok(()) => {},
            Err(e) => { return Err(ProvingError::Witness(e)); },
        }
        match pw.set_target(self.diff_threshold, t) {
            Ok(()) => {},
            Err(e) => { return Err(ProvingError::Witness(e)); },
        }
        Ok(())
    }
}

/// Owns the circuit being built and the witness being bound for one run.
pub struct Prover {
    pub config: CircuitConfig,
    pub builder: CircuitBuilder,
    pub pw: PartialWitness,
}

/// The expected result wire: 1 when the squared prices differ by at least the threshold.
pub open spec fn expected_exceeds(inputs: PriceDataProvingInputs) -> u64 {
    let s1 = inputs.price_proving_pis_1.sqrt_price_x96 as int;
    let s2 = inputs.price_proving_pis_2.sqrt_price_x96 as int;
    if abs(s1 * s1 - s2 * s2) >= inputs.diff_threshold as int {
        1
    } else {
        0
    }
}

/// The values of the public inputs, in order, that a witness publishes.
pub fn public_input_values(builder: &CircuitBuilder, w: &Vec<u64>) -> (r: Vec<u64>)
    requires
        builder.wf(),
        w@.len() == builder.gates@.len(),
    ensures
        r@.len() == builder.public_inputs@.len(),
        forall|k: int| 0 <= k < r@.len() ==> #[trigger] r@[k] == w@[builder.public_inputs@[k] as int],
{
    let mut r: Vec<u64> = Vec::new();
    let mut k: usize = 0;
    while k < builder.public_inputs.len()
        invariant
            builder.wf(),
            w@.len() == builder.gates@.len(),
            k <= builder.public_inputs@.len(),
            r@.len() == k,
            forall|j: int| 0 <= j < k ==> #[trigger] r@[j] == w@[builder.public_inputs@[j] as int],
        decreases builder.public_inputs@.len() - k,
    {
        let t = builder.public_inputs[k];
        assert(builder.public_inputs@[k as int] < builder.gates@.len());
        r.push(w[t]);
        k = k + 1;
    }
    r
}

impl Prover {
    /// A prover with an empty circuit and an empty witness.
    pub fn new(config: CircuitConfig) -> (r: Self)
        ensures
            r.config == config,
            r.builder.gates@.len() == 0,
            r.builder.public_inputs@.len() == 0,
            r.pw.values@.len() == 0,
    {
        Prover { config, builder: CircuitBuilder::new(), pw: PartialWitness::new() }
    }

    /// Builds the predicate circuit, binds the inputs and completes the
    /// witness. On success the witness satisfies every gate, the input wires
    /// hold the inputs, and the result wire holds 1 exactly when the squared
    /// prices differ by at least the threshold. It fails exactly on inputs
    /// outside the encoding.
    pub fn prove(&mut self, proving_inputs: &PriceDataProvingInputs) -> (r: Result<Vec<u64>, ProvingError>)
        requires
            old(self).builder.gates@.len() == 0,
            old(self).builder.public_inputs@.len() == 0,
            old(self).pw.values@.len() == 0,
        ensures
            final(self).builder.wf(),
            final(self).config == old(self).config,
            builds_price_circuit(seq![], seq![], final(self).builder.gates@, final(self).builder.public_inputs@),
            r is Ok <==> inputs_encodable(*proving_inputs),
            r is Err ==> r == Err::<Vec<u64>, ProvingError>(ProvingError::EncodingViolation),
            match r {
                Ok(w) => {
                    &&& witness_satisfies(final(self).builder.gates@, w@)
                    &&& w@[0] == proving_inputs.price_proving_pis_1.sqrt_price_x96
                    &&& w@[1] == proving_inputs.price_proving_pis_2.sqrt_price_x96
                    &&& w@[2] == proving_inputs.price_proving_pis_1.block_number
                    &&& w@[3] == proving_inputs.price_proving_pis_2.block_number
                    &&& w@[4] == proving_inputs.diff_threshold
                    &&& w@[145] == expected_exceeds(*proving_inputs)
                },
                Err(_) => true,
            },
    {
        let ghost g0 = self.builder.gates@;
        let ghost p0 = self.builder.public_inputs@;
        assert(g0 =~= seq![]);
        assert(p0 =~= seq![]);
        let price_targets = PriceCircuitTargets::create_price_diff_circuit(&mut self.builder);
        let ghost g = self.builder.gates@;
        proof {
            lemma_price_inputs(0);
            assert(g =~= price_diff_gates(0));
        }
        match price_targets.set_price_diff_circuit(&mut self.pw, proving_inputs) {
            Ok(()) => {},
            Err(e) => {
                return Err(e);
            },
        }
        let ghost pw = self.pw;
        proof {
            assert forall|i: int| pw.get(i) is Some implies 0 <= i < 5 by {
                assert(price_targets.bound_value(*proving_inputs, old(self).pw, i) == pw.get(i));
            }
            assert forall|i: int| 0 <= i < 5 implies (#[trigger] pw.get(i)) is Some by {
                assert(price_targets.bound_value(*proving_inputs, old(self).pw, i) == pw.get(i));
            }
        }
        match generate_witness(&self.builder, &self.pw) {
            Ok(w) => {
                proof {
                    let s1 = proving_inputs.price_proving_pis_1.sqrt_price_x96;
                    let s2 = proving_inputs.price_proving_pis_2.sqrt_price_x96;
                    let t = proving_inputs.diff_threshold;
                    assert(pw.get(0) == Some(s1));
                    assert(pw.get(1) == Some(s2));
                    assert(pw.get(2) == Some(proving_inputs.price_proving_pis_1.block_number));
                    assert(pw.get(3) == Some(proving_inputs.price_proving_pis_2.block_number));
                    assert(pw.get(4) == Some(t));
                    assert(g.subrange(0, 146) =~= price_diff_gates(0));
                    lemma_price_circuit_value(g, w@, 0);
                    lemma_divergence_predicate(s1 as int, s2 as int, t as int);
                }
                Ok(w)
            },
            Err(e) => {
                proof {
                    match e {
                        WitnessError::Unassigned(i) => {
                            assert(g[i as int] is Input);
                        },
                        WitnessError::Conflict(i) => {
                            assert(pw.get(i as int) is Some);
                        },
                        WitnessError::NonCanonical(_) => {},
                    }
                }
                Err(ProvingError::Witness(e))
            },
        }
    }
}

} // verus!
