//! The signed comparison fragment over the two-band encoding.
//!
//! `compare_gate_unsafe` trusts its caller: it is sound only for operands that
//! lie in the same band. Operands of different bands yield a wrong boolean that
//! no constraint detects.
use crate::circuit::{bit_of, gate_holds, prefix_satisfies, BoolTarget, CircuitBuilder, Gate, Target};
use crate::field::{band_size, field_sub, in_negative_band, in_positive_band, same_band, signed_value, sub_mod, P};
use vstd::prelude::*;

verus! {

/// Both top bits of a 64-bit decomposition are clear.
pub open spec fn spec_is_nonneg(bit_62: bool, bit_63: bool) -> bool {
    !bit_62 && !bit_63
}

/// The comparison fragment decides `x >= y` by the band of `x - y`.
pub open spec fn spec_compare_ge(x: int, y: int) -> bool {
    sub_mod(x, y) < band_size()
}

/// The gates that `compare_gate_unsafe` appends at wire `n`: the difference,
/// its 64 bits, the two negated top bits and their conjunction.
pub open spec fn compare_gates(n: int, x: Target, y: Target) -> Seq<Gate> {
    seq![Gate::Sub { a: x, b: y }] + Seq::new(64, |k: int| Gate::Bit { src: n as usize, index: k as u64 })
        + seq![
        Gate::Not { a: (n + 64) as usize },
        Gate::Not { a: (n + 63) as usize },
        Gate::And { a: (n + 65) as usize, b: (n + 66) as usize },
    ]
}

/// A value is non-negative under the encoding iff both top bits are clear.
pub fn is_nonneg(bit_62: bool, bit_63: bool) -> (r: bool)
    ensures
        r == spec_is_nonneg(bit_62, bit_63),
{
    !bit_62 && !bit_63
}

/// Decides `x >= y` for operands of the same band, by the band of `x - y`.
pub fn compare_ge_same_sign(x: u64, y: u64) -> (r: bool)
    requires
        x < P,
        y < P,
    ensures
        r == spec_compare_ge(x as int, y as int),
        same_band(x as int, y as int) ==> (r <==> signed_value(x as int) >= signed_value(y as int)),
{
    let diff = field_sub(x, y);
    let b62 = (diff >> 62u64) & 1 == 1;
    let b63 = (diff >> 63u64) & 1 == 1;
    proof {
        lemma_top_bits(diff);
        lemma_compare_same_band(x as int, y as int);
    }
    is_nonneg(b62, b63)
}

/// Appends the negation of both bits and their conjunction.
pub fn is_positive(builder: &mut CircuitBuilder, msb_x_64: BoolTarget, msb_x_63: BoolTarget) -> (r: BoolTarget)
    requires
        old(builder).wf(),
        msb_x_64.target < old(builder).gates@.len(),
        msb_x_63.target < old(builder).gates@.len(),
        old(builder).gates@.len() + 3 < usize::MAX,
    ensures
        final(builder).gates@ == old(builder).gates@ + seq![
            Gate::Not { a: msb_x_64.target },
            Gate::Not { a: msb_x_63.target },
            Gate::And { a: old(builder).gates@.len() as usize, b: (old(builder).gates@.len() + 1) as usize },
        ],
        final(builder).public_inputs@ == old(builder).public_inputs@,
        final(builder).wf(),
        r.target == old(builder).gates@.len() + 2,
{
    let not_msb_x_64 = builder.not(msb_x_64);
    let not_msb_x_63 = builder.not(msb_x_63);
    let r = builder.and(not_msb_x_64, not_msb_x_63);
    assert(builder.gates@ =~= old(builder).gates@ + seq![
        Gate::Not { a: msb_x_64.target },
        Gate::Not { a: msb_x_63.target },
        Gate::And { a: old(builder).gates@.len() as usize, b: (old(builder).gates@.len() + 1) as usize },
    ]);
    r
}

/// Appends the comparison `x >= y`, trusting that `x` and `y` lie in the same band.
pub fn compare_gate_unsafe(builder: &mut CircuitBuilder, x: Target, y: Target) -> (r: BoolTarget)
    requires
        old(builder).wf(),
        x < old(builder).gates@.len(),
        y < old(builder).gates@.len(),
        old(builder).gates@.len() + 100 < usize::MAX,
    ensures
        final(builder).gates@ == old(builder).gates@ + compare_gates(old(builder).gates@.len() as int, x, y),
        final(builder).public_inputs@ == old(builder).public_inputs@,
        final(builder).wf(),
        r.target == old(builder).gates@.len() + 67,
{
    let diff: Target = builder.sub(x, y);
    let diff_bits: Vec<BoolTarget> = builder.split_le(diff, 64);
    let r = is_positive(builder, diff_bits[63], diff_bits[62]);
    assert(builder.gates@ =~= old(builder).gates@ + compare_gates(diff as int, x, y));
    r
}

/// Below 2^64, a value is under 2^62 exactly when its two top bits are clear.
pub proof fn lemma_top_bits(d: u64)
    ensures
        (bit_of(d, 62) == 0 && bit_of(d, 63) == 0) <==> (d as int) < band_size(),
        bit_of(d, 62) <= 1,
        bit_of(d, 63) <= 1,
{
    assert(((d >> 62u64) & 1 == 0 && (d >> 63u64) & 1 == 0) <==> d < 0x4000_0000_0000_0000u64) by (bit_vector);
    assert((d >> 62u64) & 1 <= 1) by (bit_vector);
    assert((d >> 63u64) & 1 <= 1) by (bit_vector);
}

/// For operands of the same band, the comparison decides the order of the
/// signed values they represent; equal operands compare as greater or equal.
pub proof fn lemma_compare_same_band(x: int, y: int)
    requires
        0 <= x < P,
        0 <= y < P,
    ensures
        same_band(x, y) ==> (spec_compare_ge(x, y) <==> signed_value(x) >= signed_value(y)),
        x == y ==> spec_compare_ge(x, y),
{
    let p = P as int;
    if x >= y {
        assert(sub_mod(x, y) == x - y) by {
            assert(0 <= (x + p - y) - p < p);
            vstd::arithmetic::div_mod::lemma_mod_sub_multiples_vanish(x + p - y, p);
            vstd::arithmetic::div_mod::lemma_small_mod((x - y) as nat, p as nat);
        }
    } else {
        assert(sub_mod(x, y) == x + p - y) by {
            vstd::arithmetic::div_mod::lemma_small_mod((x + p - y) as nat, p as nat);
        }
    }
}

/// Every non-negative-band value reads as non-negative from its top bits, and
/// every negative-band value as negative.
pub proof fn lemma_is_nonneg_bands(x: u64)
    ensures
        in_positive_band(x as int) ==> spec_is_nonneg(bit_of(x, 62) == 1, bit_of(x, 63) == 1),
        in_negative_band(x as int) ==> !spec_is_nonneg(bit_of(x, 62) == 1, bit_of(x, 63) == 1),
{
    lemma_top_bits(x);
}

/// In any values that satisfy the comparison gates appended at wire `n`, the
/// result wire holds 1 when `spec_compare_ge` holds of the operands and 0 otherwise.
pub proof fn lemma_compare_gates_value(gates: Seq<Gate>, w: Seq<u64>, n: int, x: Target, y: Target)
    requires
        0 <= n,
        x < n,
        y < n,
        n + 68 <= gates.len(),
        n + 68 < usize::MAX,
        gates.subrange(n, n + 68) == compare_gates(n, x, y),
        prefix_satisfies(gates, w, n + 68),
    ensures
        w[n + 67] == (if spec_compare_ge(w[x as int] as int, w[y as int] as int) { 1u64 } else { 0u64 }),
{
    let g = compare_gates(n, x, y);
    let bits = Seq::new(64, |k: int| Gate::Bit { src: n as usize, index: k as u64 });
    let head = seq![Gate::Sub { a: x, b: y }] + bits;
    assert(head[63] == bits[62]);
    assert(head[64] == bits[63]);
    assert(g[63] == Gate::Bit { src: n as usize, index: 62 });
    assert(g[64] == Gate::Bit { src: n as usize, index: 63 });
    assert(gates[n] == g[0]);
    assert(gates[n + 63] == g[63]);
    assert(gates[n + 64] == g[64]);
    assert(gates[n + 65] == g[65]);
    assert(gates[n + 66] == g[66]);
    assert(gates[n + 67] == g[67]);
    assert(w[n] < P && gate_holds(gates[n], n, w));
    assert(w[n + 63] < P && gate_holds(gates[n + 63], n + 63, w));
    assert(w[n + 64] < P && gate_holds(gates[n + 64], n + 64, w));
    assert(w[n + 65] < P && gate_holds(gates[n + 65], n + 65, w));
    assert(w[n + 66] < P && gate_holds(gates[n + 66], n + 66, w));
    assert(w[n + 67] < P && gate_holds(gates[n + 67], n + 67, w));
    let d = w[n];
    lemma_top_bits(d);
    let b63 = w[n + 64];
    let b62 = w[n + 63];
    assert(b63 == bit_of(d, 63));
    assert(b62 == bit_of(d, 62));
    let p = P as int;
    assert(w[n + 65] == 1 - b63) by {
        vstd::arithmetic::div_mod::lemma_small_mod((1 - b63) as nat, p as nat);
        vstd::arithmetic::div_mod::lemma_mod_sub_multiples_vanish(1 + p - b63, p);
    }
    assert(w[n + 66] == 1 - b62) by {
        vstd::arithmetic::div_mod::lemma_small_mod((1 - b62) as nat, p as nat);
        vstd::arithmetic::div_mod::lemma_mod_sub_multiples_vanish(1 + p - b62, p);
    }
    assert(w[n + 67] as int == (w[n + 65] as int * w[n + 66] as int) % p);
    let u = w[n + 65] as int;
    let v = w[n + 66] as int;
    assert(u == 1 - b63 as int && v == 1 - b62 as int);
    assert(b62 <= 1 && b63 <= 1);
    assert(u * v == (if b62 == 0 && b63 == 0 { 1int } else { 0int })) by (nonlinear_arith)
        requires
            u == 1 - b63 as int,
            v == 1 - b62 as int,
            b62 <= 1,
            b63 <= 1,
    ;
    assert(w[n + 67] == (if b62 == 0 && b63 == 0 { 1u64 } else { 0u64 })) by {
        vstd::arithmetic::div_mod::lemma_small_mod((u * v) as nat, p as nat);
    }
}

} // verus!
