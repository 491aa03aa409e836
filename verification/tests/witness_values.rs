use kimchi_fuzz::fe::{fe_from_u64, Fe, FieldId};
use kimchi_fuzz::gadgets::{extend_and, num_xor_rows, num_xors, RotMode};
use kimchi_fuzz::gate::Gate;
use kimchi_fuzz::witness::{
    create_and_witness, create_and_witness_checked, create_not_witness, create_rot_witness,
    create_xor_witness,
};
use num_bigint::BigUint;

fn fe_to_big(a: Fe) -> BigUint {
    (BigUint::from(a.l3) << 192u32)
        | (BigUint::from(a.l2) << 128u32)
        | (BigUint::from(a.l1) << 64u32)
        | BigUint::from(a.l0)
}

fn big_to_fe(v: &BigUint) -> Fe {
    let mask = (BigUint::from(1u64) << 64u32) - BigUint::from(1u64);
    let limb = |k: u32| -> u64 {
        let digits = ((v >> (64 * k)) & mask.clone()).to_u64_digits();
        if digits.is_empty() {
            0
        } else {
            digits[0]
        }
    };
    Fe {
        l0: limb(0),
        l1: limb(1),
        l2: limb(2),
        l3: limb(3),
    }
}

#[test]
fn and_scenario_eight_bits() {
    // bit_width 8: one byte. x = 0b10110011, y = 0b01100110.
    let x = fe_from_u64(0b10110011);
    let y = fe_from_u64(0b01100110);
    let w = create_and_witness(FieldId::Fp, x, y, 1);
    let and_row = num_xors(8) + 1;
    assert_eq!(w.cols[5][and_row], fe_from_u64(0b00100010));
    assert_eq!(w.cols[5][and_row], fe_from_u64(34));
    assert_eq!(w.cols[4][and_row], fe_from_u64(0b11010101));
    assert_eq!(w.cols[4][and_row], fe_from_u64(213));
    assert_eq!(w.cols[2][and_row], fe_from_u64(0b10110011 + 0b01100110));
    assert_eq!(w.cols[0][and_row], x);
    assert_eq!(w.cols[1][and_row], y);
    // The circuit of the same scenario has exactly num_xor_rows(8) + 1 rows.
    let mut gates: Vec<Gate> = Vec::new();
    extend_and(&mut gates, FieldId::Fp, 1);
    assert_eq!(gates.len(), num_xor_rows(8) + 1);
}

#[test]
fn and_witness_matches_bignum_across_widths() {
    // byte widths 8, 64 and 512; operands capped at the field size.
    for bytes in [8usize, 64, 512] {
        let bits = (bytes * 8).min(200) as u32;
        let a = (BigUint::from(0x9e3779b97f4a7c15u64) << (bits - 64)) | BigUint::from(0x42u64);
        let b = (BigUint::from(0x5851f42d4c957f2du64) << (bits - 64)) | BigUint::from(0x77u64);
        let w = create_and_witness(FieldId::Fq, big_to_fe(&a), big_to_fe(&b), bytes);
        let and_row = num_xors(bytes * 8) + 1;
        assert_eq!(fe_to_big(w.cols[5][and_row]), &a & &b);
        assert_eq!(fe_to_big(w.cols[4][and_row]), &a ^ &b);
        assert_eq!(w.cols[0].len(), num_xors(bytes * 8) + 2);
    }
}

#[test]
fn and_witness_checked_rejects_wide_operands() {
    let big = Fe { l0: 0, l1: 0, l2: 1, l3: 0 };
    assert!(create_and_witness_checked(FieldId::Fp, big, fe_from_u64(1), 8).is_none());
    assert!(create_and_witness_checked(FieldId::Fp, fe_from_u64(300), fe_from_u64(1), 1).is_none());
    assert!(create_and_witness_checked(FieldId::Fp, fe_from_u64(255), fe_from_u64(1), 1).is_some());
    assert!(create_and_witness_checked(FieldId::Fp, fe_from_u64(1), fe_from_u64(1), 0).is_none());
}

#[test]
fn xor_witness_decomposition() {
    let x = fe_from_u64(0xabcdef0123456789);
    let y = fe_from_u64(0x1122334455667788);
    let w = create_xor_witness(x, y, 64);
    assert_eq!(w.cols[0].len(), num_xors(64) + 1);
    assert_eq!(
        fe_to_big(w.cols[2][0]),
        BigUint::from(0xabcdef0123456789u64 ^ 0x1122334455667788u64)
    );
    // Second chunk row carries the operands shifted right by 16 bits.
    assert_eq!(w.cols[0][1], fe_from_u64(0xabcdef0123456789u64 >> 16));
    // First row, first 4-bit slice of the first operand.
    assert_eq!(w.cols[3][0], fe_from_u64(0x9));
    assert_eq!(w.cols[4][0], fe_from_u64(0x8));
    // Terminating row is all zero.
    for c in 0..15 {
        assert_eq!(w.cols[c][num_xors(64)], fe_from_u64(0));
    }
}

#[test]
fn not_witness_complements() {
    let x = fe_from_u64(0b10110011);
    let w = create_not_witness(x, 8);
    assert_eq!(w.cols[0][0], fe_from_u64(255));
    assert_eq!(w.cols[2][1], fe_from_u64(255 - 0b10110011));
    let wide = create_not_witness(fe_from_u64(1), 254);
    let expect = (BigUint::from(1u64) << 254u32) - BigUint::from(2u64);
    assert_eq!(fe_to_big(wide.cols[2][1]), expect);
}

#[test]
fn rot_witness_all_amounts() {
    let word = 0xdeadbeef12345678u64;
    for rot in [0u32, 1, 8, 63] {
        let wl = create_rot_witness(word, rot, RotMode::Left);
        assert_eq!(wl.cols[1][1], fe_from_u64(word.rotate_left(rot)));
        assert_eq!(wl.cols[0][1], fe_from_u64(word));
        let wr = create_rot_witness(word, rot, RotMode::Right);
        assert_eq!(wr.cols[1][1], fe_from_u64(word.rotate_right(rot)));
    }
    // The shifted and bound cells are copied into the range-check rows.
    let w = create_rot_witness(word, 8, RotMode::Left);
    assert_eq!(w.cols[3][1], w.cols[0][2]);
    assert_eq!(w.cols[4][1], w.cols[0][3]);
    for c in 0..15 {
        assert_eq!(w.cols[c][0], fe_from_u64(0));
    }
}
