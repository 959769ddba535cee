//! Rounding up to powers of two.
use vstd::arithmetic::power2::{lemma_pow2_pos, lemma_pow2_unfold, pow2};
use vstd::prelude::*;

verus! {

/// The smallest power of two that is not below `n`.
pub open spec fn next_power(n: nat) -> nat
    decreases n,
{
    if n <= 1 {
        1
    } else {
        2 * next_power(((n + 1) / 2) as nat)
    }
}

/// Rounds `n` up to a power of two, if the result can be represented.
pub fn checked_next_power_of_two(n: usize) -> (r: Option<usize>)
    ensures
        match r {
            Some(power) => power == next_power(n as nat),
            None => next_power(n as nat) > usize::MAX,
        },
    decreases n,
{
    if n <= 1 {
        Some(1)
    } else {
        let half: usize = (n - 1) / 2 + 1;
        assert(half == (n + 1) / 2);
        match checked_next_power_of_two(half) {
            Some(power) if power <= usize::MAX / 2 => Some(2 * power),
            _ => None,
        }
    }
}

/// Rounds `n` up to a power of two.
pub fn next_power_of_two(n: usize) -> (r: usize)
    requires
        next_power(n as nat) <= usize::MAX,
    ensures
        r == next_power(n as nat),
{
    checked_next_power_of_two(n).unwrap()
}

/// `next_power(n)` is a power of two, it is not below `n`, and every power of two that is not
/// below `n` is not below it.
pub proof fn lemma_next_power_is_least(n: nat)
    ensures
        exists|k: nat| next_power(n) == #[trigger] pow2(k),
        next_power(n) >= n,
        forall|k: nat| #[trigger] pow2(k) >= n ==> pow2(k) >= next_power(n),
        n >= 1 ==> next_power(n) < 2 * n,
    decreases n,
{
    if n <= 1 {
        vstd::arithmetic::power2::lemma2_to64();
        assert(next_power(n) == pow2(0));
        assert forall|k: nat| #[trigger] pow2(k) >= n implies pow2(k) >= next_power(n) by {
            lemma_pow2_pos(k);
        }
    } else {
        let half = ((n + 1) / 2) as nat;
        lemma_next_power_is_least(half);
        let j = choose|k: nat| next_power(half) == #[trigger] pow2(k);
        lemma_pow2_unfold((j + 1) as nat);
        assert(next_power(n) == pow2((j + 1) as nat));
        assert forall|k: nat| #[trigger] pow2(k) >= n implies pow2(k) >= next_power(n) by {
            vstd::arithmetic::power2::lemma2_to64();
            if k > 0 {
                lemma_pow2_unfold(k);
                assert(pow2((k - 1) as nat) >= half);
            }
        }
    }
}

/// Rounding up a number of operation groups.
pub proof fn lemma_next_power_small(n: nat)
    requires
        n <= 8,
    ensures
        1 <= next_power(n) <= 8,
        next_power(n) >= n,
{
    reveal_with_fuel(next_power, 5);
}

} // verus!
