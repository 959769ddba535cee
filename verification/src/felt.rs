//! Elements of the 64-bit prime field over which the execution trace is defined.
use vstd::prelude::*;

verus! {

/// The order of the field, `2^64 - 2^32 + 1`.
pub const MODULUS: u64 = 0xffff_ffff_0000_0001;

/// Number of field elements in a word.
pub const WORD_SIZE: usize = 4;

/// A field element, held by its canonical representative.
#[derive(Clone, Copy, Debug, PartialEq, Eq, Structural)]
pub struct Felt {
    value: u64,
}

/// A group of four field elements; digests and memory words have this shape.
pub type Word = [Felt; 4];

/// The field element that an integer stands for.
pub closed spec fn felt(n: int) -> Felt {
    Felt { value: (n % (MODULUS as int)) as u64 }
}

impl View for Felt {
    type V = int;

    /// The canonical representative.
    closed spec fn view(&self) -> int {
        self.value as int
    }
}

impl Felt {
    #[verifier::type_invariant]
    spec fn canonical(self) -> bool {
        self.value < MODULUS
    }

    /// The field element that `value` stands for; values from the field's order on are reduced.
    pub fn new(value: u64) -> (r: Felt)
        ensures
            r == felt(value as int),
            value < MODULUS ==> r@ == value,
    {
        Felt { value: reduce(value) }
    }

    /// The additive identity.
    pub fn zero() -> (r: Felt)
        ensures
            r == felt(0),
    {
        Felt { value: 0 }
    }

    /// The multiplicative identity.
    pub fn one() -> (r: Felt)
        ensures
            r == felt(1),
    {
        Felt { value: 1 }
    }

    /// Canonical integer representation of this element.
    pub fn as_int(&self) -> (r: u64)
        ensures
            r == self@,
            r < MODULUS,
            *self == felt(r as int),
    {
        proof {
            use_type_invariant(self);
        }
        self.value
    }

    /// Difference of two elements.
    pub fn sub(self, rhs: Felt) -> (r: Felt)
        ensures
            r == felt(self@ - rhs@),
    {
        proof {
            use_type_invariant(&self);
            use_type_invariant(&rhs);
        }
        Felt { value: subtract(self.value, rhs.value) }
    }

    /// Product of two elements.
    pub fn mul(self, rhs: Felt) -> (r: Felt)
        ensures
            r == felt(self@ * rhs@),
    {
        proof {
            use_type_invariant(&self);
            use_type_invariant(&rhs);
        }
        Felt { value: multiply(self.value, rhs.value) }
    }
}

/// The element that an integer stands for is represented by the integer's residue.
pub broadcast proof fn lemma_felt_view(n: int)
    ensures
        #[trigger] felt(n)@ == n % (MODULUS as int),
        0 <= felt(n)@ < MODULUS,
{
}

/// An element is the one that its canonical representative stands for.
pub proof fn lemma_felt_of_view(a: Felt)
    requires
        a@ < MODULUS,
    ensures
        felt(a@) == a,
        0 <= a@,
{
}

/// Elements with the same representative are the same element.
pub broadcast proof fn lemma_felt_ext(a: Felt, b: Felt)
    requires
        #[trigger] a@ == #[trigger] b@,
    ensures
        a == b,
{
}

/// Calls `miden_core::Felt::new` and reads the element back with `as_int`. Claimed of it: a value
/// is reduced modulo the order of the field, and the result is the canonical representative.
#[verifier::external_body]
fn reduce(value: u64) -> (r: u64)
    ensures
        r == value % MODULUS,
{
    miden_core::Felt::new(value).as_int()
}

/// Calls the subtraction of `miden_core::Felt`. Claimed of it: the result represents the
/// difference modulo the order of the field.
#[verifier::external_body]
fn subtract(a: u64, b: u64) -> (r: u64)
    requires
        a < MODULUS,
        b < MODULUS,
    ensures
        r == (a - b) % (MODULUS as int),
{
    (miden_core::Felt::new(a) - miden_core::Felt::new(b)).as_int()
}

/// Calls the multiplication of `miden_core::Felt`. Claimed of it: the result represents the
/// product modulo the order of the field.
#[verifier::external_body]
fn multiply(a: u64, b: u64) -> (r: u64)
    requires
        a < MODULUS,
        b < MODULUS,
    ensures
        r == (a * b) % (MODULUS as int),
{
    (miden_core::Felt::new(a) * miden_core::Felt::new(b)).as_int()
}

} // verus!
