//! The Goldilocks prime field and the two-band signed encoding over it.
use vstd::prelude::*;

verus! {

/// The field modulus, 2^64 - 2^32 + 1.
pub const P: u64 = 0xFFFF_FFFF_0000_0001;

/// Number of bits of magnitude available to each band of the signed encoding.
pub const MAX_POSITIVE_AMOUNT_LOG: u64 = 62;

/// Largest value of the non-negative band, 2^62 - 1.
pub const MAX_POSITIVE_AMOUNT: u64 = 0x3FFF_FFFF_FFFF_FFFF;

/// Size of each band, 2^62.
pub open spec fn band_size() -> int {
    0x4000_0000_0000_0000
}

/// A canonical field element: an integer in [0, P).
pub open spec fn is_canonical(x: int) -> bool {
    0 <= x < P as int
}

/// Sum in the field.
pub open spec fn add_mod(x: int, y: int) -> int {
    (x + y) % (P as int)
}

/// Difference in the field (for canonical operands).
pub open spec fn sub_mod(x: int, y: int) -> int {
    (x + P as int - y) % (P as int)
}

/// Product in the field.
pub open spec fn mul_mod(x: int, y: int) -> int {
    (x * y) % (P as int)
}

/// The value lies in the non-negative band [0, 2^62 - 1].
pub open spec fn in_positive_band(x: int) -> bool {
    0 <= x < band_size()
}

/// The value lies in the negative band [P - 2^62, P - 1].
pub open spec fn in_negative_band(x: int) -> bool {
    P as int - band_size() <= x < P as int
}

/// Both values lie in the same band.
pub open spec fn same_band(x: int, y: int) -> bool {
    (in_positive_band(x) && in_positive_band(y)) || (in_negative_band(x) && in_negative_band(y))
}

/// The signed integer that an in-band field element represents.
pub open spec fn signed_value(x: int) -> int {
    if in_positive_band(x) {
        x
    } else {
        x - P as int
    }
}

/// Field addition on canonical representatives.
pub fn field_add(a: u64, b: u64) -> (r: u64)
    requires
        a < P,
        b < P,
    ensures
        r as int == add_mod(a as int, b as int),
        r < P,
{
    let s: u128 = a as u128 + b as u128;
    (s % (P as u128)) as u64
}

/// Field subtraction on canonical representatives.
pub fn field_sub(a: u64, b: u64) -> (r: u64)
    requires
        a < P,
        b < P,
    ensures
        r as int == sub_mod(a as int, b as int),
        r < P,
{
    let s: u128 = a as u128 + P as u128 - b as u128;
    (s % (P as u128)) as u64
}

/// Field multiplication on canonical representatives.
pub fn field_mul(a: u64, b: u64) -> (r: u64)
    requires
        a < P,
        b < P,
    ensures
        r as int == mul_mod(a as int, b as int),
        r < P,
{
    proof {
        assert((a as int) * (b as int) <= (P as int) * (P as int)) by (nonlinear_arith)
            requires
                a < P,
                b < P,
        ;
    }
    let m: u128 = a as u128 * b as u128;
    (m % (P as u128)) as u64
}

} // verus!
