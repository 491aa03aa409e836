use kimchi_fuzz::fe::{
    fe_add_mod, fe_and, fe_from_u64, fe_le, fe_lt_pow2, fe_mask, fe_neg_one, fe_neg_two, fe_sub,
    fe_xor, fe_zero, modulus_fe, Fe, FieldId,
};
use num_bigint::BigUint;

fn fe_to_big(a: Fe) -> BigUint {
    (BigUint::from(a.l3) << 192u32)
        | (BigUint::from(a.l2) << 128u32)
        | (BigUint::from(a.l1) << 64u32)
        | BigUint::from(a.l0)
}

fn big_to_fe(v: &BigUint) -> Fe {
    let mask = (BigUint::from(1u64) << 64u32) - BigUint::from(1u64);
    let limb = |k: u32| -> u64 {
        let part = (v >> (64 * k)) & mask.clone();
        let digits = part.to_u64_digits();
        if digits.is_empty() {
            0
        } else {
            digits[0]
        }
    };
    Fe {
        l0: limb(0),
        l1: limb(1),
        l2: limb(2),
        l3: limb(3),
    }
}

fn modulus_big(f: FieldId) -> BigUint {
    fe_to_big(modulus_fe(f))
}

#[test]
fn add_mod_wraps_to_one() {
    let r = fe_add_mod(FieldId::Fp, fe_neg_one(FieldId::Fp), fe_from_u64(2));
    assert_eq!(r, fe_from_u64(1));
    let r = fe_add_mod(FieldId::Fq, fe_neg_one(FieldId::Fq), fe_from_u64(2));
    assert_eq!(r, fe_from_u64(1));
}

#[test]
fn add_mod_matches_bignum() {
    let p = modulus_big(FieldId::Fp);
    let a = &p - BigUint::from(123456789u64);
    let b = &p - BigUint::from(987654321u64);
    let expect = (&a + &b) % &p;
    let r = fe_add_mod(FieldId::Fp, big_to_fe(&a), big_to_fe(&b));
    assert_eq!(fe_to_big(r), expect);
    let small = fe_add_mod(FieldId::Fp, fe_from_u64(41), fe_from_u64(1));
    assert_eq!(small, fe_from_u64(42));
}

#[test]
fn neg_constants_match_modulus() {
    for f in [FieldId::Fp, FieldId::Fq] {
        let p = modulus_big(f);
        assert_eq!(fe_to_big(fe_neg_one(f)), &p - BigUint::from(1u64));
        assert_eq!(fe_to_big(fe_neg_two(f)), &p - BigUint::from(2u64));
    }
}

#[test]
fn sub_matches_bignum() {
    let a = BigUint::parse_bytes(b"fffddccbbaa998877665544332211009", 16).unwrap();
    let b = BigUint::parse_bytes(b"123456789abcdef0", 16).unwrap();
    let r = fe_sub(big_to_fe(&a), big_to_fe(&b));
    assert_eq!(fe_to_big(r), &a - &b);
}

#[test]
fn bitwise_ops_match_bignum() {
    let a = BigUint::parse_bytes(b"deadbeefcafebabe0123456789abcdef00ff00ff00ff00ff", 16).unwrap();
    let b = BigUint::parse_bytes(b"0f0f0f0f0f0f0f0ff0f0f0f0f0f0f0f0aa55aa55aa55aa55", 16).unwrap();
    let fa = big_to_fe(&a);
    let fb = big_to_fe(&b);
    assert_eq!(fe_to_big(fe_and(fa, fb)), &a & &b);
    assert_eq!(fe_to_big(fe_xor(fa, fb)), &a ^ &b);
}

#[test]
fn mask_and_range_checks() {
    assert_eq!(fe_mask(8), fe_from_u64(255));
    assert_eq!(fe_mask(0), fe_zero());
    let m64 = fe_mask(64);
    assert_eq!(m64.l0, u64::MAX);
    assert_eq!(m64.l1, 0);
    let m100 = fe_mask(100);
    assert_eq!(m100.l0, u64::MAX);
    assert_eq!(m100.l1, (1u64 << 36) - 1);
    assert!(fe_lt_pow2(fe_from_u64(255), 8));
    assert!(!fe_lt_pow2(fe_from_u64(256), 8));
    assert!(fe_lt_pow2(fe_from_u64(256), 9));
    assert!(fe_lt_pow2(
        Fe { l0: 0, l1: 0, l2: 0, l3: u64::MAX },
        256
    ));
    assert!(fe_le(fe_from_u64(3), fe_from_u64(3)));
    assert!(fe_le(fe_from_u64(2), fe_from_u64(3)));
    assert!(!fe_le(fe_from_u64(4), fe_from_u64(3)));
    assert!(fe_le(
        Fe { l0: 9, l1: 0, l2: 0, l3: 1 },
        Fe { l0: 0, l1: 0, l2: 0, l3: 2 }
    ));
}
