//! Elements drawn from a pseudo-random generator.
use miden_core::crypto::random::RpoRandomCoin;
use vstd::prelude::*;

use crate::felt::{Felt, MODULUS, Word, felt};

verus! {

/// The generator of `miden_core::crypto::random`.
#[verifier::external_type_specification]
#[verifier::external_body]
pub struct ExRpoRandomCoin(RpoRandomCoin);

/// The elements that will be drawn from a coin, by their canonical representatives.
pub uninterp spec fn pending_draws(coin: RpoRandomCoin) -> Map<int, u64>;

/// The elements that are drawn from a new coin with the given seed.
pub uninterp spec fn rpo_draws(seed: Seq<u64>) -> Map<int, u64>;

/// The canonical representatives of a word.
pub open spec fn word_values(word: Word) -> Seq<u64> {
    Seq::new(4, |i: int| word@[i]@ as u64)
}

/// The first elements that are drawn from a coin that is seeded with a word.
pub open spec fn drawn_elements(seed: Word, n: nat) -> Seq<Felt> {
    Seq::new(n, |k: int| felt(rpo_draws(word_values(seed))[k] as int))
}

/// Calls `RpoRandomCoin::new`. Claimed of it: what will be drawn depends on the seed alone.
#[verifier::external_body]
fn new_coin(seed: [u64; 4]) -> (r: RpoRandomCoin)
    ensures
        pending_draws(r) == rpo_draws(seed@),
{
    let [a, b, c, d] = seed.map(|value| miden_core::Felt::new(value));
    RpoRandomCoin::new([a, b, c, d].into())
}

/// Calls `RandomCoin::draw` of `RpoRandomCoin` for an element of the base field, which always
/// succeeds. Claimed of it: it returns the next of the elements to draw, which are then one fewer.
#[verifier::external_body]
fn draw(coin: &mut RpoRandomCoin) -> (r: u64)
    ensures
        r == pending_draws(*old(coin))[0],
        r < MODULUS,
        forall|k: int|
            k >= 0 ==> #[trigger] pending_draws(*final(coin))[k] == pending_draws(*old(coin))[k
                + 1],
{
    let element: miden_core::Felt =
        winter_prover::crypto::RandomCoin::draw(coin).expect("failed to draw a random value");
    element.as_int()
}

/// Draws elements from a coin that is seeded with a word.
pub fn draw_elements(seed: Word, n: usize) -> (r: Vec<Felt>)
    ensures
        r@ == drawn_elements(seed, n as nat),
{
    let values: [u64; 4] = [
        seed[0].as_int(),
        seed[1].as_int(),
        seed[2].as_int(),
        seed[3].as_int(),
    ];
    assert(values@ =~= word_values(seed));
    let mut coin = new_coin(values);
    let mut elements: Vec<Felt> = Vec::new();
    for i in 0..n
        invariant
            elements@ == drawn_elements(seed, i as nat),
            forall|k: int|
                k >= 0 ==> #[trigger] pending_draws(coin)[k] == rpo_draws(word_values(seed))[k + i],
    {
        elements.push(Felt::new(draw(&mut coin)));
        assert(elements@ =~= drawn_elements(seed, (i + 1) as nat));
    }
    elements
}

} // verus!
