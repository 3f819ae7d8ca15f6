//! Elements of the scalar field of BLS12-377, the field over which the
//! constraint system is built.
//!
//! An element is held as its canonical residue, so that equality, zero and one
//! are plain comparisons; sums, products and the decimal rendering come from
//! `snarkvm_curves::bls12_377::Fr`.

use snarkvm_curves::bls12_377::Fr;
use snarkvm_fields::PrimeField;
use snarkvm_utilities::biginteger::BigInteger256;
use vstd::arithmetic::div_mod::{
    lemma_fundamental_div_mod, lemma_fundamental_div_mod_converse, lemma_small_mod,
};
use vstd::prelude::*;

verus! {

/// The natural number that four 64-bit limbs stand for, least significant first.
pub open spec fn limbs_value(l0: u64, l1: u64, l2: u64, l3: u64) -> nat {
    (l0 as nat) + 0x1_0000_0000_0000_0000 * ((l1 as nat) + 0x1_0000_0000_0000_0000 * ((l2 as nat)
        + 0x1_0000_0000_0000_0000 * (l3 as nat)))
}

/// The field's modulus, the prime
/// 8444461749428370424248824938781546531375899335154063827935233455917409239041.
pub open spec fn modulus() -> nat {
    limbs_value(MODULUS_0, MODULUS_1, MODULUS_2, MODULUS_3)
}

/// The decimal digit for a number below ten.
pub open spec fn digit(d: nat) -> char {
    if d == 0 {
        '0'
    } else if d == 1 {
        '1'
    } else if d == 2 {
        '2'
    } else if d == 3 {
        '3'
    } else if d == 4 {
        '4'
    } else if d == 5 {
        '5'
    } else if d == 6 {
        '6'
    } else if d == 7 {
        '7'
    } else if d == 8 {
        '8'
    } else {
        '9'
    }
}

/// The decimal numeral of a natural number: no leading zeros, and `0` for zero.
pub open spec fn decimal(n: nat) -> Seq<char>
    decreases n,
{
    if n < 10 {
        seq![digit(n)]
    } else {
        decimal(n / 10).push(digit(n % 10))
    }
}

/// The limbs of the modulus, least significant first.
pub const MODULUS_0: u64 = 725501752471715841;

pub const MODULUS_1: u64 = 6461107452199829505;

pub const MODULUS_2: u64 = 6968279316240510977;

pub const MODULUS_3: u64 = 1345280370688173398;

/// A field element, held as its canonical residue in four 64-bit limbs.
#[derive(Clone, Copy, Debug, PartialEq, Eq, Structural)]
pub struct Field {
    l0: u64,
    l1: u64,
    l2: u64,
    l3: u64,
}

impl Field {
    /// The residue that this element stands for.
    pub closed spec fn value(&self) -> nat {
        limbs_value(self.l0, self.l1, self.l2, self.l3)
    }

    /// The residue lies below the modulus. Every element that executable code
    /// can hold is canonical.
    #[verifier::type_invariant]
    pub closed spec fn canonical(&self) -> bool {
        self.value() < modulus()
    }

    /// The element whose residue is `v`, for `v` below the modulus.
    pub closed spec fn from_residue(v: nat) -> Field {
        Field {
            l0: (v % 0x1_0000_0000_0000_0000) as u64,
            l1: ((v / 0x1_0000_0000_0000_0000) % 0x1_0000_0000_0000_0000) as u64,
            l2: ((v / 0x1_0000_0000_0000_0000 / 0x1_0000_0000_0000_0000)
                % 0x1_0000_0000_0000_0000) as u64,
            l3: ((v / 0x1_0000_0000_0000_0000 / 0x1_0000_0000_0000_0000
                / 0x1_0000_0000_0000_0000) % 0x1_0000_0000_0000_0000) as u64,
        }
    }

    /// The sum of two elements.
    pub open spec fn spec_add(self, other: Field) -> Field {
        Field::from_residue((self.value() + other.value()) % modulus())
    }

    /// The product of two elements.
    pub open spec fn spec_mul(self, other: Field) -> Field {
        Field::from_residue((self.value() * other.value()) % modulus())
    }

    /// The additive identity.
    pub fn zero() -> (r: Field)
        ensures
            r == Field::from_residue(0),
            r.value() == 0,
    {
        Field { l0: 0, l1: 0, l2: 0, l3: 0 }
    }

    /// The multiplicative identity.
    pub fn one() -> (r: Field)
        ensures
            r == Field::from_residue(1),
            r.value() == 1,
    {
        Field { l0: 1, l1: 0, l2: 0, l3: 0 }
    }

    /// The element of a small number.
    pub fn from_u64(x: u64) -> (r: Field)
        ensures
            r == Field::from_residue(x as nat),
            r.value() == x,
    {
        Field { l0: x, l1: 0, l2: 0, l3: 0 }
    }

    /// The element whose residue the limbs spell, least significant first, if
    /// that number lies below the modulus.
    pub fn from_limbs(limbs: [u64; 4]) -> (r: Option<Field>)
        ensures
            r is Some <==> limbs_value(limbs[0], limbs[1], limbs[2], limbs[3]) < modulus(),
            r matches Some(f) ==> f.value() == limbs_value(limbs[0], limbs[1], limbs[2], limbs[3])
                && f == Field::from_residue(f.value()),
    {
        let l0: u64 = limbs[0];
        let l1: u64 = limbs[1];
        let l2: u64 = limbs[2];
        let l3: u64 = limbs[3];
        let below = l3 < MODULUS_3 || (l3 == MODULUS_3 && (l2 < MODULUS_2 || (l2 == MODULUS_2 && (l1
            < MODULUS_1 || (l1 == MODULUS_1 && l0 < MODULUS_0)))));
        if below {
            let f = Field { l0, l1, l2, l3 };
            proof {
                Field::lemma_residue_round_trip(f);
            }
            Some(f)
        } else {
            None
        }
    }

    /// The residue's limbs, least significant first.
    pub fn to_limbs(&self) -> (r: [u64; 4])
        ensures
            limbs_value(r[0], r[1], r[2], r[3]) == self.value(),
    {
        [self.l0, self.l1, self.l2, self.l3]
    }

    /// Whether this is the additive identity.
    pub fn is_zero(&self) -> (r: bool)
        ensures
            r == (self.value() == 0),
    {
        self.l0 == 0 && self.l1 == 0 && self.l2 == 0 && self.l3 == 0
    }

    /// Whether this is the multiplicative identity.
    pub fn is_one(&self) -> (r: bool)
        ensures
            r == (self.value() == 1),
    {
        self.l0 == 1 && self.l1 == 0 && self.l2 == 0 && self.l3 == 0
    }

    /// The sum of two elements.
    pub fn add(&self, other: &Field) -> (r: Field)
        ensures
            r == self.spec_add(*other),
            r.value() == (self.value() + other.value()) % modulus(),
    {
        proof {
            use_type_invariant(self);
            use_type_invariant(other);
        }
        let r = sum(self, other);
        proof {
            Field::lemma_residue_round_trip(r);
        }
        r
    }

    /// The product of two elements.
    pub fn mul(&self, other: &Field) -> (r: Field)
        ensures
            r == self.spec_mul(*other),
            r.value() == (self.value() * other.value()) % modulus(),
    {
        proof {
            use_type_invariant(self);
            use_type_invariant(other);
        }
        let r = product(self, other);
        proof {
            Field::lemma_residue_round_trip(r);
        }
        r
    }

    /// The residue as a decimal numeral.
    pub fn to_decimal(&self) -> (r: String)
        ensures
            r@ == decimal(self.value()),
    {
        proof {
            use_type_invariant(self);
        }
        decimal_text(self)
    }

    /// A canonical element's residue lies below the modulus.
    pub proof fn lemma_bound(f: Field)
        requires
            f.canonical(),
        ensures
            f.value() < modulus(),
    {
    }

    /// A canonical element is the one that `from_residue` gives for its residue.
    pub proof fn lemma_residue_round_trip(f: Field)
        requires
            f.canonical(),
        ensures
            Field::from_residue(f.value()) == f,
    {
        let b: int = 0x1_0000_0000_0000_0000;
        let x2: int = f.l2 as int + b * (f.l3 as int);
        let x1: int = f.l1 as int + b * x2;
        let v: int = f.l0 as int + b * x1;
        assert(v == f.value());
        lemma_fundamental_div_mod_converse(v, b, x1, f.l0 as int);
        lemma_fundamental_div_mod_converse(x1, b, x2, f.l1 as int);
        lemma_fundamental_div_mod_converse(x2, b, f.l3 as int, f.l2 as int);
        lemma_small_mod(f.l3 as nat, b as nat);
    }

    /// `from_residue` gives a canonical element with the residue asked for.
    pub proof fn lemma_from_residue(v: nat)
        requires
            v < modulus(),
        ensures
            Field::from_residue(v).canonical(),
            Field::from_residue(v).value() == v,
    {
        let b: int = 0x1_0000_0000_0000_0000;
        let x1: int = v as int / b;
        let x2: int = x1 / b;
        let x3: int = x2 / b;
        lemma_fundamental_div_mod(v as int, b);
        lemma_fundamental_div_mod(x1, b);
        lemma_fundamental_div_mod(x2, b);
        assert(x3 < b);
        lemma_small_mod(x3 as nat, b as nat);
    }

    /// Two canonical elements with one residue are one element.
    pub proof fn lemma_value_injective(a: Field, b: Field)
        requires
            a.canonical(),
            b.canonical(),
            a.value() == b.value(),
        ensures
            a == b,
    {
        Field::lemma_residue_round_trip(a);
        Field::lemma_residue_round_trip(b);
    }

    /// Zero is neutral in sums and one in products.
    pub proof fn lemma_identities(a: Field)
        requires
            a.canonical(),
        ensures
            a.spec_add(Field::from_residue(0)) == a,
            a.spec_mul(Field::from_residue(1)) == a,
            Field::from_residue(0).value() == 0,
            Field::from_residue(1).value() == 1,
    {
        Field::lemma_from_residue(0);
        Field::lemma_from_residue(1);
        Field::lemma_residue_round_trip(a);
        lemma_small_mod(a.value(), modulus());
        assert(a.value() * 1 == a.value());
    }

    /// Sums and products of canonical elements are canonical, with the residues
    /// of modular arithmetic.
    pub proof fn lemma_arithmetic(a: Field, b: Field)
        requires
            a.canonical(),
            b.canonical(),
        ensures
            a.spec_add(b).canonical(),
            a.spec_add(b).value() == (a.value() + b.value()) % modulus(),
            a.spec_mul(b).canonical(),
            a.spec_mul(b).value() == (a.value() * b.value()) % modulus(),
    {
        Field::lemma_from_residue((a.value() + b.value()) % modulus());
        Field::lemma_from_residue((a.value() * b.value()) % modulus());
    }
}

/// `Fp256`'s `Add`, between `PrimeField::from_bigint` and `PrimeField::to_bigint`:
/// the canonical residue of the sum of the two residues.
#[verifier::external_body]
fn sum(a: &Field, b: &Field) -> (r: Field)
    requires
        a.canonical(),
        b.canonical(),
    ensures
        r.canonical(),
        r.value() == (a.value() + b.value()) % modulus(),
{
    let x = Fr::from_bigint(BigInteger256([a.l0, a.l1, a.l2, a.l3])).unwrap();
    let y = Fr::from_bigint(BigInteger256([b.l0, b.l1, b.l2, b.l3])).unwrap();
    let z = (x + y).to_bigint().0;
    Field { l0: z[0], l1: z[1], l2: z[2], l3: z[3] }
}

/// `Fp256`'s `Mul`, between `PrimeField::from_bigint` and `PrimeField::to_bigint`:
/// the canonical residue of the product of the two residues.
#[verifier::external_body]
fn product(a: &Field, b: &Field) -> (r: Field)
    requires
        a.canonical(),
        b.canonical(),
    ensures
        r.canonical(),
        r.value() == (a.value() * b.value()) % modulus(),
{
    let x = Fr::from_bigint(BigInteger256([a.l0, a.l1, a.l2, a.l3])).unwrap();
    let y = Fr::from_bigint(BigInteger256([b.l0, b.l1, b.l2, b.l3])).unwrap();
    let z = (x * y).to_bigint().0;
    Field { l0: z[0], l1: z[1], l2: z[2], l3: z[3] }
}

/// `Fp256`'s `Display`, after `PrimeField::from_bigint`: the canonical residue
/// in decimal, without leading zeros.
#[verifier::external_body]
fn decimal_text(a: &Field) -> (r: String)
    requires
        a.canonical(),
    ensures
        r@ == decimal(a.value()),
{
    Fr::from_bigint(BigInteger256([a.l0, a.l1, a.l2, a.l3])).unwrap().to_string()
}

} // verus!
