//! Inverses of field elements.
use vstd::arithmetic::div_mod::{
    lemma_mul_mod_noop_left, lemma_mul_mod_noop_right, lemma_small_mod,
};
use vstd::prelude::*;

use crate::felt::{Felt, MODULUS, lemma_felt_ext};

verus! {

/// Whether `b` is the inverse of `a`, where zero counts as its own inverse.
pub open spec fn is_inverse(a: int, b: int) -> bool {
    &&& 0 <= b < MODULUS
    &&& a == 0 ==> b == 0
    &&& a != 0 ==> (a * b) % (MODULUS as int) == 1
}

/// The inverse of an element, or zero for zero.
pub open spec fn inverse_of(element: Felt) -> Felt {
    choose|inverse: Felt| is_inverse(element@, #[trigger] inverse@)
}

/// The canonical representatives of elements.
pub fn representatives(elements: &Vec<Felt>) -> (r: Vec<u64>)
    ensures
        r@.len() == elements@.len(),
        forall|i: int|
            0 <= i < r@.len() ==> #[trigger] r@[i] == elements@[i]@ && r@[i] < MODULUS,
{
    let mut values: Vec<u64> = Vec::new();
    for k in 0..elements.len()
        invariant
            values@.len() == k,
            forall|i: int|
                0 <= i < k ==> #[trigger] values@[i] == elements@[i]@ && values@[i] < MODULUS,
    {
        values.push(elements[k].as_int());
    }
    values
}

/// The inverses of a column's elements.
pub fn invert_column(column: &Vec<Felt>) -> (r: Vec<Felt>)
    ensures
        r@ == column@.map_values(|element: Felt| inverse_of(element)),
        forall|i: int| 0 <= i < r@.len() ==> is_inverse(column@[i]@, (#[trigger] r@[i])@),
{
    let inverses = invert_all(representatives(column));
    let mut elements: Vec<Felt> = Vec::new();
    for k in 0..inverses.len()
        invariant
            inverses@.len() == column@.len(),
            elements@.len() == k,
            forall|i: int|
                0 <= i < column@.len() ==> is_inverse(column@[i]@, #[trigger] inverses@[i] as int),
            forall|i: int| 0 <= i < k ==> (#[trigger] elements@[i])@ == inverses@[i],
    {
        elements.push(Felt::new(inverses[k]));
    }
    assert forall|i: int| 0 <= i < elements@.len() implies #[trigger] elements@[i] == inverse_of(
        column@[i],
    ) by {
        let inverse = inverse_of(column@[i]);
        assert(is_inverse(column@[i]@, elements@[i]@));
        law_inverses_are_unique(column@[i]@, inverse@, elements@[i]@);
        lemma_felt_ext(inverse, elements@[i]);
    }
    elements
}

/// Calls `winter_prover::math::batch_inversion`. Claimed of it: each value but zero is replaced by
/// its multiplicative inverse modulo the order of the field, and zero by zero.
#[verifier::external_body]
fn invert_all(values: Vec<u64>) -> (r: Vec<u64>)
    requires
        forall|i: int| 0 <= i < values@.len() ==> #[trigger] values@[i] < MODULUS,
    ensures
        r@.len() == values@.len(),
        forall|i: int|
            0 <= i < values@.len() ==> is_inverse(values@[i] as int, #[trigger] r@[i] as int),
{
    let elements: Vec<miden_core::Felt> =
        values.into_iter().map(|value| miden_core::Felt::new(value)).collect();
    let inverses = winter_prover::math::batch_inversion(&elements);
    inverses.into_iter().map(|inverse| inverse.as_int()).collect()
}

/// An element has one inverse only.
pub proof fn law_inverses_are_unique(a: int, b: int, c: int)
    requires
        is_inverse(a, b),
        is_inverse(a, c),
    ensures
        b == c,
{
    let m = MODULUS as int;
    if a != 0 {
        // b = b * (a * c) = (a * b) * c = c
        lemma_mul_mod_noop_right(b, a * c, m);
        lemma_mul_mod_noop_left(a * b, c, m);
        assert(b * (a * c) == (a * b) * c) by (nonlinear_arith);
        lemma_small_mod(b as nat, m as nat);
        lemma_small_mod(c as nat, m as nat);
    }
}

} // verus!
