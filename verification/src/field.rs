//! The field-arithmetic interface that coefficients of a linear combination
//! must offer, and one small prime field implementing it.
//!
//! Concrete proving systems bring their own field types; this crate only
//! relies on the interface below. The laws it carries (commutativity and
//! associativity of addition) are what make merging linear combinations
//! order-insensitive.

use vstd::prelude::*;
use vstd::arithmetic::div_mod::{lemma_add_mod_noop, lemma_mod_twice, lemma_small_mod};

verus! {

/// A type offering field arithmetic: additive and multiplicative identities,
/// addition, multiplication and negation, each pinned to a specification-level
/// function, together with the laws of addition that the linear-combination
/// algorithms depend on.
pub trait Field: Sized + Copy {
    /// The sum of two field elements, at the specification level.
    spec fn spec_add(a: Self, b: Self) -> Self;

    /// The product of two field elements, at the specification level.
    spec fn spec_mul(a: Self, b: Self) -> Self;

    /// The additive inverse, at the specification level.
    spec fn spec_neg(a: Self) -> Self;

    /// The additive identity, at the specification level.
    spec fn spec_zero() -> Self;

    /// The multiplicative identity, at the specification level.
    spec fn spec_one() -> Self;

    /// Field addition is commutative.
    proof fn add_commutes(a: Self, b: Self)
        ensures
            Self::spec_add(a, b) == Self::spec_add(b, a),
    ;

    /// Field addition is associative.
    proof fn add_associates(a: Self, b: Self, c: Self)
        ensures
            Self::spec_add(Self::spec_add(a, b), c) == Self::spec_add(a, Self::spec_add(b, c)),
    ;

    /// Adds two field elements.
    fn add(self, other: Self) -> (r: Self)
        ensures
            r == Self::spec_add(self, other),
    ;

    /// Multiplies two field elements.
    fn mul(self, other: Self) -> (r: Self)
        ensures
            r == Self::spec_mul(self, other),
    ;

    /// Negates a field element.
    fn neg(self) -> (r: Self)
        ensures
            r == Self::spec_neg(self),
    ;

    /// Returns the additive identity.
    fn zero() -> (r: Self)
        ensures
            r == Self::spec_zero(),
    ;

    /// Returns the multiplicative identity.
    fn one() -> (r: Self)
        ensures
            r == Self::spec_one(),
    ;
}

/// The modulus of the sample field: the Mersenne prime 2^31 - 1.
pub const FP_MODULUS: u64 = 0x7fff_ffff;

/// An element of the prime field of order `FP_MODULUS`. Every operation
/// reduces its operands, so any `u64` is an acceptable representative;
/// `new` produces the canonical one.
#[derive(Copy, Clone, PartialEq, Eq, Structural, Debug, Hash)]
pub struct Fp {
    /// A representative of the residue class; operations reduce it.
    pub value: u64,
}

impl Fp {
    /// The canonical element representing `n` modulo `FP_MODULUS`.
    pub fn new(n: u64) -> (r: Fp)
        ensures
            r.value == n % FP_MODULUS,
    {
        Fp { value: n % FP_MODULUS }
    }
}

impl Field for Fp {
    open spec fn spec_add(a: Fp, b: Fp) -> Fp {
        Fp { value: (((a.value % FP_MODULUS) + (b.value % FP_MODULUS)) % (FP_MODULUS as int)) as u64 }
    }

    open spec fn spec_mul(a: Fp, b: Fp) -> Fp {
        Fp { value: (((a.value % FP_MODULUS) * (b.value % FP_MODULUS)) % (FP_MODULUS as int)) as u64 }
    }

    open spec fn spec_neg(a: Fp) -> Fp {
        Fp { value: ((FP_MODULUS - (a.value % FP_MODULUS)) % (FP_MODULUS as int)) as u64 }
    }

    open spec fn spec_zero() -> Fp {
        Fp { value: 0 }
    }

    open spec fn spec_one() -> Fp {
        Fp { value: 1 }
    }

    proof fn add_commutes(a: Fp, b: Fp) {
    }

    proof fn add_associates(a: Fp, b: Fp, c: Fp) {
        let x = a.value % FP_MODULUS;
        let y = b.value % FP_MODULUS;
        let z = c.value % FP_MODULUS;
        lemma_mod_twice((x + y) as int, FP_MODULUS as int);
        lemma_mod_twice((y + z) as int, FP_MODULUS as int);
        lemma_small_mod(x as nat, FP_MODULUS as nat);
        lemma_small_mod(z as nat, FP_MODULUS as nat);
        lemma_add_mod_noop((x + y) as int, z as int, FP_MODULUS as int);
        lemma_add_mod_noop(x as int, (y + z) as int, FP_MODULUS as int);
    }

    fn add(self, other: Fp) -> (r: Fp) {
        let a: u64 = self.value % FP_MODULUS;
        let b: u64 = other.value % FP_MODULUS;
        Fp { value: (a + b) % FP_MODULUS }
    }

    fn mul(self, other: Fp) -> (r: Fp) {
        let a: u64 = self.value % FP_MODULUS;
        let b: u64 = other.value % FP_MODULUS;
        proof {
            assert(a * b <= (FP_MODULUS - 1) * (FP_MODULUS - 1)) by (nonlinear_arith)
                requires
                    a < FP_MODULUS,
                    b < FP_MODULUS,
            ;
        }
        Fp { value: (a * b) % FP_MODULUS }
    }

    fn neg(self) -> (r: Fp) {
        let a: u64 = self.value % FP_MODULUS;
        Fp { value: (FP_MODULUS - a) % FP_MODULUS }
    }

    fn zero() -> (r: Fp) {
        Fp { value: 0 }
    }

    fn one() -> (r: Fp) {
        Fp { value: 1 }
    }
}

} // verus!
