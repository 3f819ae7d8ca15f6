use constraint_system::field::{Field, MODULUS_0, MODULUS_1, MODULUS_2, MODULUS_3};
use snarkvm_curves::bls12_377::Fr;
use snarkvm_fields::{One, PrimeField, Zero};
use snarkvm_utilities::biginteger::BigInteger256;

fn minus(k: u64) -> Field {
    Field::from_limbs([MODULUS_0 - k, MODULUS_1, MODULUS_2, MODULUS_3]).unwrap()
}

#[test]
fn modulus_is_that_of_the_scalar_field() {
    assert_eq!(Fr::modulus().0, [MODULUS_0, MODULUS_1, MODULUS_2, MODULUS_3]);
}

#[test]
fn zero_and_one_are_those_of_the_scalar_field() {
    assert_eq!(Field::zero().to_limbs(), Fr::zero().to_bigint().0);
    assert_eq!(Field::one().to_limbs(), Fr::one().to_bigint().0);
}

#[test]
fn zero_and_one() {
    assert!(Field::zero().is_zero());
    assert!(!Field::zero().is_one());
    assert!(Field::one().is_one());
    assert!(!Field::one().is_zero());
    assert_eq!(Field::zero().to_limbs(), [0, 0, 0, 0]);
    assert_eq!(Field::one().to_limbs(), [1, 0, 0, 0]);
    assert_eq!(Field::from_u64(1), Field::one());
    assert_eq!(Field::from_u64(0), Field::zero());
}

#[test]
fn from_u64_keeps_the_number() {
    assert_eq!(Field::from_u64(35).to_limbs(), [35, 0, 0, 0]);
    assert_eq!(Field::from_u64(u64::MAX).to_limbs(), [u64::MAX, 0, 0, 0]);
}

#[test]
fn from_limbs_accepts_residues_only() {
    assert_eq!(Field::from_limbs([7, 0, 0, 0]), Some(Field::from_u64(7)));
    assert!(Field::from_limbs([MODULUS_0 - 1, MODULUS_1, MODULUS_2, MODULUS_3]).is_some());
    assert_eq!(Field::from_limbs([MODULUS_0, MODULUS_1, MODULUS_2, MODULUS_3]), None);
    assert_eq!(Field::from_limbs([MODULUS_0 + 1, MODULUS_1, MODULUS_2, MODULUS_3]), None);
    assert_eq!(Field::from_limbs([0, 0, 0, MODULUS_3 + 1]), None);
    assert_eq!(Field::from_limbs([u64::MAX, u64::MAX, u64::MAX, u64::MAX]), None);
    assert!(Field::from_limbs([u64::MAX, u64::MAX, u64::MAX, MODULUS_3 - 1]).is_some());
    assert!(Field::from_limbs([u64::MAX, u64::MAX, MODULUS_2 - 1, MODULUS_3]).is_some());
    assert_eq!(Field::from_limbs([0, MODULUS_1 + 1, MODULUS_2, MODULUS_3]), None);
}

#[test]
fn limbs_round_trip() {
    let limbs = [11, 22, 33, 44];
    assert_eq!(Field::from_limbs(limbs).unwrap().to_limbs(), limbs);
}

#[test]
fn sums() {
    assert_eq!(Field::from_u64(5).add(&Field::from_u64(7)), Field::from_u64(12));
    assert_eq!(Field::from_u64(5).add(&Field::zero()), Field::from_u64(5));
    assert_eq!(
        Field::from_u64(u64::MAX).add(&Field::one()).to_limbs(),
        [0, 1, 0, 0]
    );
}

#[test]
fn sums_wrap_at_the_modulus() {
    assert_eq!(minus(1).add(&Field::one()), Field::zero());
    assert_eq!(minus(1).add(&Field::from_u64(3)), Field::from_u64(2));
    assert_eq!(minus(1).add(&minus(2)), minus(3));
}

#[test]
fn products() {
    assert_eq!(Field::from_u64(5).mul(&Field::from_u64(7)), Field::from_u64(35));
    assert_eq!(Field::from_u64(5).mul(&Field::one()), Field::from_u64(5));
    assert_eq!(Field::from_u64(5).mul(&Field::zero()), Field::zero());
    assert_eq!(
        Field::from_u64(1 << 63).mul(&Field::from_u64(4)).to_limbs(),
        [0, 2, 0, 0]
    );
}

#[test]
fn products_wrap_at_the_modulus() {
    assert_eq!(minus(1).mul(&minus(1)), Field::one());
    assert_eq!(minus(1).mul(&minus(2)), Field::from_u64(2));
    assert_eq!(minus(1).mul(&Field::from_u64(2)), minus(2));
}

#[test]
fn arithmetic_agrees_with_the_curve_library() {
    let a = [0x0123_4567_89ab_cdef, 0xfedc_ba98_7654_3210, 0x0f1e_2d3c_4b5a_6978, 0x0123_4567];
    let b = [0xdead_beef_0bad_f00d, 0x1234_5678_9abc_def0, 0x0fed_cba9_8765_4321, 0x1111_2222];
    let x = Fr::from_bigint(BigInteger256(a)).unwrap();
    let y = Fr::from_bigint(BigInteger256(b)).unwrap();
    let fa = Field::from_limbs(a).unwrap();
    let fb = Field::from_limbs(b).unwrap();
    assert_eq!(fa.add(&fb).to_limbs(), (x + y).to_bigint().0);
    assert_eq!(fa.mul(&fb).to_limbs(), (x * y).to_bigint().0);
    assert_ne!(fa.mul(&fb), fa);
    assert_ne!(fa.add(&fb), fa);
}

#[test]
fn decimal_numerals() {
    assert_eq!(Field::zero().to_decimal(), "0");
    assert_eq!(Field::one().to_decimal(), "1");
    assert_eq!(Field::from_u64(35).to_decimal(), "35");
    assert_eq!(Field::from_u64(1000).to_decimal(), "1000");
    assert_eq!(Field::from_u64(u64::MAX).to_decimal(), "18446744073709551615");
    assert_eq!(
        minus(1).to_decimal(),
        "8444461749428370424248824938781546531375899335154063827935233455917409239040"
    );
}

#[test]
fn equality_is_that_of_residues() {
    assert_eq!(Field::from_u64(9), Field::from_limbs([9, 0, 0, 0]).unwrap());
    assert_ne!(Field::from_u64(9), Field::from_u64(10));
    assert_ne!(Field::from_limbs([0, 1, 0, 0]).unwrap(), Field::from_limbs([0, 0, 1, 0]).unwrap());
}
