use core_trace::felt::{Felt, MODULUS};
use core_trace::inversion::{invert_column, representatives};
use core_trace::random_coin::draw_elements;
use winter_prover::crypto::RandomCoin;

#[test]
fn values_are_reduced() {
    assert_eq!(Felt::new(MODULUS).as_int(), 0);
    assert_eq!(Felt::new(MODULUS + 5).as_int(), 5);
    assert_eq!(Felt::new(7).as_int(), 7);
    assert_eq!(Felt::new(u64::MAX).as_int(), 0xffff_fffe);
}

#[test]
fn differences_wrap_around() {
    assert_eq!(Felt::new(9).sub(Felt::new(4)).as_int(), 5);
    assert_eq!(Felt::zero().sub(Felt::one()).as_int(), MODULUS - 1);
}

#[test]
fn products_are_reduced() {
    assert_eq!(Felt::new(6).mul(Felt::new(7)).as_int(), 42);
    // 2^32 * 2^32 = 2^64 = 2^32 - 1
    assert_eq!(Felt::new(1 << 32).mul(Felt::new(1 << 32)).as_int(), 0xffff_ffff);
    assert_eq!(Felt::new(MODULUS - 1).mul(Felt::new(MODULUS - 1)), Felt::one());
}

#[test]
fn columns_are_inverted() {
    let column =
        vec![Felt::new(2), Felt::zero(), Felt::one(), Felt::new(MODULUS - 1), Felt::new(12345)];
    let inverses = invert_column(&column);
    assert_eq!(inverses.len(), 5);
    assert_eq!(inverses[0].as_int(), (MODULUS + 1) / 2);
    assert_eq!(inverses[1], Felt::zero());
    assert_eq!(inverses[2], Felt::one());
    assert_eq!(inverses[3].as_int(), MODULUS - 1);
    assert_eq!(inverses[4].mul(column[4]), Felt::one());
    assert_eq!(invert_column(&inverses), column);
    assert_eq!(invert_column(&Vec::new()), Vec::<Felt>::new());
}

#[test]
fn representatives_are_canonical() {
    assert_eq!(representatives(&vec![Felt::new(MODULUS), Felt::new(3)]), vec![0, 3]);
}

#[test]
fn draws_depend_on_the_seed_alone() {
    let seed = [Felt::new(1), Felt::new(2), Felt::new(3), Felt::new(4)];
    let first = draw_elements(seed, 20);
    assert_eq!(first.len(), 20);
    assert_eq!(draw_elements(seed, 20), first);
    // drawing fewer elements gives the first of them
    assert_eq!(draw_elements(seed, 3)[..], first[..3]);
    let other = [Felt::new(1), Felt::new(2), Felt::new(3), Felt::new(5)];
    assert_ne!(draw_elements(other, 20), first);
}

#[test]
fn draws_are_those_of_the_coin() {
    let seed = [5u64, 6, 7, 8];
    let felts = seed.map(miden_core::Felt::new);
    let mut coin = miden_core::crypto::random::RpoRandomCoin::new(felts.into());
    let drawn = draw_elements(seed.map(Felt::new), 12);
    for element in drawn {
        let expected: miden_core::Felt = coin.draw().unwrap();
        assert_eq!(element.as_int(), expected.as_int());
    }
}
