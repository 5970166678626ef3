//! The scalar field: canonical limbs, arithmetic by the backend's field, and
//! the base-4 decomposition behind the range constraints.

use bid_circuits::decompose::{decompose, recompose_expression, LIMBS};
use bid_circuits::field::{Scalar, MODULUS_L0, MODULUS_L1, MODULUS_L2, MODULUS_L3};
use bid_circuits::plonk::{Column, ColumnKind, Expression};
use halo2curves::bn256::Fr;

fn to_fr(s: &Scalar) -> Fr {
    Fr::from_raw(s.to_limbs())
}

fn minus_one() -> Scalar {
    Scalar::from_limbs(MODULUS_L0 - 1, MODULUS_L1, MODULUS_L2, MODULUS_L3).unwrap()
}

#[test]
fn native_integers_embed() {
    assert_eq!(Scalar::from_u64(0), Scalar::zero());
    assert_eq!(Scalar::from_u64(1), Scalar::one());
    assert_eq!(Scalar::from_u64(50).to_limbs(), [50, 0, 0, 0]);
    assert_eq!(Scalar::from_u64(u64::MAX).to_u64(), Some(u64::MAX));
    assert_eq!(Scalar::from_u64(77).low_u64(), 77);
    assert!(Scalar::zero().is_zero());
    assert!(!Scalar::one().is_zero());
    assert_eq!(to_fr(&Scalar::from_u64(123)), Fr::from(123));
}

#[test]
fn limbs_at_or_above_the_modulus_are_refused() {
    assert_eq!(Scalar::from_limbs(MODULUS_L0, MODULUS_L1, MODULUS_L2, MODULUS_L3), None);
    assert_eq!(Scalar::from_limbs(MODULUS_L0 + 1, MODULUS_L1, MODULUS_L2, MODULUS_L3), None);
    assert_eq!(Scalar::from_limbs(0, 0, 0, MODULUS_L3 + 1), None);
    assert_eq!(Scalar::from_limbs(u64::MAX, u64::MAX, u64::MAX, u64::MAX), None);
    assert!(Scalar::from_limbs(MODULUS_L0 - 1, MODULUS_L1, MODULUS_L2, MODULUS_L3).is_some());
    assert!(Scalar::from_limbs(u64::MAX, u64::MAX, u64::MAX, MODULUS_L3 - 1).is_some());
    assert!(Scalar::from_limbs(u64::MAX, MODULUS_L1 - 1, MODULUS_L2, MODULUS_L3).is_some());
    assert_eq!(Scalar::from_limbs(0, MODULUS_L1 + 1, MODULUS_L2, MODULUS_L3), None);
    assert_eq!(Scalar::from_limbs(7, 8, 9, 10).unwrap().to_limbs(), [7, 8, 9, 10]);
}

#[test]
fn values_above_64_bits_do_not_fit_a_native_integer() {
    let big = Scalar::from_limbs(5, 1, 0, 0).unwrap();
    assert_eq!(big.to_u64(), None);
    assert_eq!(big.low_u64(), 5);
    assert!(!big.is_zero());
    assert_eq!(minus_one().to_u64(), None);
}

#[test]
fn subtraction_is_the_field_difference() {
    assert_eq!(Scalar::from_u64(50).sub(&Scalar::from_u64(10)), Scalar::from_u64(40));
    assert_eq!(Scalar::from_u64(10).sub(&Scalar::from_u64(10)), Scalar::zero());
    // 5 - 10 wraps around the modulus: p - 5
    let wrapped = Scalar::from_u64(5).sub(&Scalar::from_u64(10));
    assert_eq!(
        wrapped,
        Scalar::from_limbs(MODULUS_L0 - 5, MODULUS_L1, MODULUS_L2, MODULUS_L3).unwrap()
    );
    assert_eq!(to_fr(&wrapped), Fr::from(5) - Fr::from(10));
    assert_eq!(Scalar::zero().sub(&Scalar::one()), minus_one());
    // the difference is neither of its arguments
    assert_ne!(Scalar::from_u64(50).sub(&Scalar::from_u64(10)), Scalar::from_u64(50));
    assert_ne!(Scalar::from_u64(50).sub(&Scalar::from_u64(10)), Scalar::from_u64(10));
}

#[test]
fn multiplication_is_the_field_product() {
    assert_eq!(Scalar::from_u64(7).mul(&Scalar::from_u64(11)), Scalar::from_u64(77));
    assert_eq!(Scalar::from_u64(7).mul(&Scalar::zero()), Scalar::zero());
    assert_eq!(Scalar::from_u64(7).mul(&Scalar::one()), Scalar::from_u64(7));
    // (p - 1)^2 = 1
    assert_eq!(minus_one().mul(&minus_one()), Scalar::one());
    // 2^64 * 2^64 = 2^128
    let two_64 = Scalar::from_limbs(0, 1, 0, 0).unwrap();
    assert_eq!(two_64.mul(&two_64), Scalar::from_limbs(0, 0, 1, 0).unwrap());
    let a = Scalar::from_limbs(3, 5, 7, 11).unwrap();
    let b = Scalar::from_limbs(13, 17, 19, 23).unwrap();
    assert_eq!(to_fr(&a.mul(&b)), to_fr(&a) * to_fr(&b));
    assert_eq!(to_fr(&a.sub(&b)), to_fr(&a) - to_fr(&b));
}

#[test]
fn bytes_are_little_endian() {
    let mut bytes = [0u8; 32];
    bytes[0] = 0x39;
    bytes[1] = 0x30;
    assert_eq!(Scalar::from_bytes_le(&bytes), Some(Scalar::from_u64(12345)));
    bytes[8] = 1;
    assert_eq!(Scalar::from_bytes_le(&bytes), Scalar::from_limbs(12345, 1, 0, 0));
    assert_eq!(Scalar::from_bytes_le(&[0xff; 32]), None);
    let f = Fr::from(987654321);
    assert_eq!(Scalar::from_bytes_le(&f.to_bytes()), Some(Scalar::from_u64(987654321)));
    let g = -Fr::from(1);
    assert_eq!(Scalar::from_bytes_le(&g.to_bytes()), Some(minus_one()));
}

#[test]
fn decomposition_in_base_four() {
    // 40 = 0 + 2*4 + 2*16
    let limbs = decompose(40);
    assert_eq!(limbs.len(), LIMBS);
    assert_eq!(&limbs[..4], &[0, 2, 2, 0]);
    assert!(limbs[4..].iter().all(|l| *l == 0));
    assert!(decompose(0).iter().all(|l| *l == 0));
    assert!(decompose(u64::MAX).iter().all(|l| *l == 3));
    for d in [1u64, 3, 4, 255, 1 << 62, u64::MAX - 1, 0x0123_4567_89ab_cdef] {
        let limbs = decompose(d);
        let mut sum = 0u128;
        for (j, l) in limbs.iter().enumerate() {
            assert!(*l < 4);
            sum += (*l as u128) << (2 * j);
        }
        assert_eq!(sum, d as u128);
    }
}

#[test]
fn recomposition_weights_are_powers_of_four() {
    let columns: Vec<Column> =
        (0..LIMBS).map(|index| Column { kind: ColumnKind::Advice, index }).collect();
    let mut e = recompose_expression(&columns);
    // the outermost term is the last limb times 4^31
    for j in (0..LIMBS).rev() {
        match e {
            Expression::Sum(rest, term) => {
                match *term {
                    Expression::Product(limb, weight) => {
                        assert!(matches!(*limb, Expression::Query(c, 0) if c == columns[j]));
                        assert!(
                            matches!(*weight, Expression::Constant(w) if w == Scalar::from_u64(1u64 << (2 * j)))
                        );
                    }
                    _ => panic!("a term is a product"),
                }
                e = *rest;
            }
            _ => panic!("the recomposition is a sum"),
        }
    }
    assert!(matches!(e, Expression::Constant(z) if z == Scalar::zero()));
}
