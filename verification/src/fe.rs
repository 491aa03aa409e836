//! Field elements of the two Pasta scalar fields, held as four 64-bit limbs
//! in little-endian order.
//!
//! The proving stack this harness drives works over the Pallas and Vesta
//! curves, whose scalar fields are prime fields of 255-bit moduli. A witness
//! cell is one such element. The bitwise gadgets read an element as the
//! integer its limbs encode, so every operation here carries a contract over
//! `fe_val`, the mathematical value of the limbs.

use vstd::prelude::*;

verus! {

use vstd::arithmetic::power2::{
    pow2,
    lemma_pow2_adds,
    lemma_pow2_pos,
    lemma_pow2_strictly_increases,
    lemma2_to64,
};
use vstd::arithmetic::div_mod::{
    lemma_fundamental_div_mod,
    lemma_fundamental_div_mod_converse,
    lemma_small_mod,
    lemma_mod_multiples_vanish,
};
use vstd::bits::{
    lemma_u64_shr_is_div,
    lemma_u64_shl_is_mul,
    lemma_u64_low_bits_mask_is_mod,
    lemma_low_bits_mask_values,
};
use crate::bitwise::{
    nat_and,
    nat_xor,
    lemma_u64_and_is_nat_and,
    lemma_u64_xor_is_nat_xor,
    lemma_nat_and_split,
    lemma_nat_xor_split,
};

/// One element of a 255-bit prime field, as four little-endian 64-bit limbs.
#[derive(Clone, Copy, PartialEq, Eq, Structural, Debug)]
pub struct Fe {
    pub l0: u64,
    pub l1: u64,
    pub l2: u64,
    pub l3: u64,
}

/// The integer a limb vector encodes.
pub open spec fn fe_val(a: Fe) -> nat {
    a.l0 as nat + a.l1 as nat * 0x10000000000000000nat + a.l2 as nat
        * 0x100000000000000000000000000000000nat + a.l3 as nat
        * 0x1000000000000000000000000000000000000000000000000nat
}

/// The two scalar fields the harness supports: `Fp` is the scalar field of
/// the Vesta curve, `Fq` the scalar field of the Pallas curve.
#[derive(Clone, Copy, PartialEq, Eq, Structural, Debug)]
pub enum FieldId {
    Fp,
    Fq,
}

/// The modulus of the chosen field.
pub open spec fn field_modulus(f: FieldId) -> nat {
    match f {
        FieldId::Fp => 0x40000000000000000000000000000000224698fc094cf91b992d30ed00000001nat,
        FieldId::Fq => 0x40000000000000000000000000000000224698fc0994a8dd8c46eb2100000001nat,
    }
}

/// A limb vector is a canonical element of `f` when its value is reduced.
pub open spec fn fe_is_canonical(f: FieldId, a: Fe) -> bool {
    fe_val(a) < field_modulus(f)
}

/// The modulus of `f`, as limbs.
pub fn modulus_fe(f: FieldId) -> (r: Fe)
    ensures
        fe_val(r) == field_modulus(f),
{
    match f {
        FieldId::Fp => Fe {
            l0: 0x992d30ed00000001,
            l1: 0x224698fc094cf91b,
            l2: 0,
            l3: 0x4000000000000000,
        },
        FieldId::Fq => Fe {
            l0: 0x8c46eb2100000001,
            l1: 0x224698fc0994a8dd,
            l2: 0,
            l3: 0x4000000000000000,
        },
    }
}

/// The zero element.
pub fn fe_zero() -> (r: Fe)
    ensures
        fe_val(r) == 0,
{
    Fe { l0: 0, l1: 0, l2: 0, l3: 0 }
}

/// Embeds a machine word.
pub fn fe_from_u64(x: u64) -> (r: Fe)
    ensures
        fe_val(r) == x,
{
    Fe { l0: x, l1: 0, l2: 0, l3: 0 }
}

/// Every limb vector encodes a value below `2^256`.
pub proof fn lemma_fe_val_bound(a: Fe)
    ensures
        fe_val(a) < 0x10000000000000000000000000000000000000000000000000000000000000000nat,
{
}

/// The upper limbs of `a`, i.e. `fe_val(a)` shifted right by 64 bits.
pub open spec fn fe_hi1(a: Fe) -> nat {
    a.l1 as nat + a.l2 as nat * 0x10000000000000000nat + a.l3 as nat
        * 0x100000000000000000000000000000000nat
}

/// The upper limbs of `a` above bit 128.
pub open spec fn fe_hi2(a: Fe) -> nat {
    a.l2 as nat + a.l3 as nat * 0x10000000000000000nat
}

/// `fe_val` splits at every limb boundary.
pub proof fn lemma_fe_val_split(a: Fe)
    ensures
        fe_val(a) == a.l0 as nat + 0x10000000000000000nat * fe_hi1(a),
        fe_hi1(a) == a.l1 as nat + 0x10000000000000000nat * fe_hi2(a),
        fe_hi2(a) == a.l2 as nat + 0x10000000000000000nat * a.l3 as nat,
        fe_val(a) % 0x10000000000000000nat == a.l0 as nat,
        fe_val(a) / 0x10000000000000000nat == fe_hi1(a),
{
    lemma_fundamental_div_mod_converse(
        fe_val(a) as int,
        0x10000000000000000,
        fe_hi1(a) as int,
        a.l0 as int,
    );
}

/// Limbwise AND computes `nat_and` of the values.
pub fn fe_and(a: Fe, b: Fe) -> (r: Fe)
    ensures
        fe_val(r) == nat_and(fe_val(a), fe_val(b)),
{
    let r = Fe { l0: a.l0 & b.l0, l1: a.l1 & b.l1, l2: a.l2 & b.l2, l3: a.l3 & b.l3 };
    proof {
        lemma2_to64();
        lemma_fe_val_split(a);
        lemma_fe_val_split(b);
        lemma_nat_and_split(a.l0 as nat, fe_hi1(a), b.l0 as nat, fe_hi1(b), 64);
        lemma_nat_and_split(a.l1 as nat, fe_hi2(a), b.l1 as nat, fe_hi2(b), 64);
        lemma_nat_and_split(a.l2 as nat, a.l3 as nat, b.l2 as nat, b.l3 as nat, 64);
        lemma_u64_and_is_nat_and(a.l0, b.l0);
        lemma_u64_and_is_nat_and(a.l1, b.l1);
        lemma_u64_and_is_nat_and(a.l2, b.l2);
        lemma_u64_and_is_nat_and(a.l3, b.l3);
    }
    r
}

/// Limbwise XOR computes `nat_xor` of the values.
pub fn fe_xor(a: Fe, b: Fe) -> (r: Fe)
    ensures
        fe_val(r) == nat_xor(fe_val(a), fe_val(b)),
{
    let r = Fe { l0: a.l0 ^ b.l0, l1: a.l1 ^ b.l1, l2: a.l2 ^ b.l2, l3: a.l3 ^ b.l3 };
    proof {
        lemma2_to64();
        lemma_fe_val_split(a);
        lemma_fe_val_split(b);
        lemma_nat_xor_split(a.l0 as nat, fe_hi1(a), b.l0 as nat, fe_hi1(b), 64);
        lemma_nat_xor_split(a.l1 as nat, fe_hi2(a), b.l1 as nat, fe_hi2(b), 64);
        lemma_nat_xor_split(a.l2 as nat, a.l3 as nat, b.l2 as nat, b.l3 as nat, 64);
        lemma_u64_xor_is_nat_xor(a.l0, b.l0);
        lemma_u64_xor_is_nat_xor(a.l1, b.l1);
        lemma_u64_xor_is_nat_xor(a.l2, b.l2);
        lemma_u64_xor_is_nat_xor(a.l3, b.l3);
    }
    r
}

/// Whether `fe_val(a) <= fe_val(b)`, decided limb by limb from the top.
pub fn fe_le(a: Fe, b: Fe) -> (r: bool)
    ensures
        r == (fe_val(a) <= fe_val(b)),
{
    if a.l3 != b.l3 {
        a.l3 < b.l3
    } else if a.l2 != b.l2 {
        a.l2 < b.l2
    } else if a.l1 != b.l1 {
        a.l1 < b.l1
    } else {
        a.l0 <= b.l0
    }
}

/// The limb vector of value `pow2(n) - 1`: the mask of the low `n` bits.
pub fn fe_mask(n: usize) -> (r: Fe)
    requires
        n <= 256,
    ensures
        fe_val(r) == pow2(n as nat) - 1,
{
    let q: usize = n / 64;
    let rem: usize = n % 64;
    let part: u64 = if rem == 0 {
        0u64
    } else {
        proof {
            lemma2_to64();
            lemma_pow2_pos(rem as nat);
            lemma_pow2_strictly_increases(rem as nat, 64);
            lemma_u64_shl_is_mul(1u64, rem as u64);
        }
        (1u64 << (rem as u64)) - 1
    };
    let full: u64 = u64::MAX;
    let m = Fe {
        l0: if q > 0 {
            full
        } else {
            part
        },
        l1: if q > 1 {
            full
        } else if q == 1 {
            part
        } else {
            0
        },
        l2: if q > 2 {
            full
        } else if q == 2 {
            part
        } else {
            0
        },
        l3: if q > 3 {
            full
        } else if q == 3 {
            part
        } else {
            0
        },
    };
    proof {
        lemma2_to64();
        if rem == 0 {
            assert(part as nat == pow2(rem as nat) - 1);
        } else {
            lemma_pow2_pos(rem as nat);
            lemma_pow2_strictly_increases(rem as nat, 64);
            lemma_u64_shl_is_mul(1u64, rem as u64);
            assert((1u64 << (rem as u64)) as nat == pow2(rem as nat));
            assert(part as nat == pow2(rem as nat) - 1);
        }
        assert(n == 64 * q + rem);
        lemma_pow2_adds(64, 64);
        lemma_pow2_adds(128, 64);
        lemma_pow2_adds(192, 64);
        assert(pow2(128) == 0x100000000000000000000000000000000nat);
        assert(pow2(192) == 0x1000000000000000000000000000000000000000000000000nat);
        if q == 0 {
            assert(fe_val(m) == pow2(rem as nat) - 1);
        } else if q == 1 {
            lemma_pow2_adds(64, rem as nat);
            assert(fe_val(m) == 0xffffffffffffffffnat + (pow2(rem as nat) - 1)
                * 0x10000000000000000nat);
            assert(pow2(n as nat) == 0x10000000000000000nat * pow2(rem as nat));
        } else if q == 2 {
            lemma_pow2_adds(128, rem as nat);
            assert(fe_val(m) == 0xffffffffffffffffffffffffffffffffnat + (pow2(rem as nat) - 1)
                * 0x100000000000000000000000000000000nat);
            assert(pow2(n as nat) == 0x100000000000000000000000000000000nat * pow2(rem as nat));
        } else if q == 3 {
            lemma_pow2_adds(192, rem as nat);
            assert(fe_val(m) == 0xffffffffffffffffffffffffffffffffffffffffffffffffnat + (pow2(
                rem as nat,
            ) - 1) * 0x1000000000000000000000000000000000000000000000000nat);
            assert(pow2(n as nat) == 0x1000000000000000000000000000000000000000000000000nat * pow2(
                rem as nat,
            ));
        } else {
            assert(q == 4 && rem == 0);
            assert(pow2(256) == 0x10000000000000000000000000000000000000000000000000000000000000000nat);
        }
    }
    m
}

/// Whether the value fits in `n` bits.
pub fn fe_lt_pow2(a: Fe, n: usize) -> (r: bool)
    ensures
        r == (fe_val(a) < pow2(n as nat)),
{
    if n >= 256 {
        proof {
            lemma_fe_val_bound(a);
            lemma2_to64();
            lemma_pow2_adds(64, 64);
            lemma_pow2_adds(128, 64);
            lemma_pow2_adds(192, 64);
            if n > 256 {
                lemma_pow2_strictly_increases(256, n as nat);
            }
        }
        true
    } else {
        proof {
            lemma_pow2_pos(n as nat);
        }
        fe_le(a, fe_mask(n))
    }
}

/// Shifts the value right by 16 bits: each row of the XOR gadget consumes
/// one 16-bit slice of its operands, and the next row carries the rest.
pub fn fe_shr16(a: Fe) -> (r: Fe)
    ensures
        fe_val(r) == fe_val(a) / 0x10000nat,
{
    let a0: u64 = a.l0;
    let a1: u64 = a.l1;
    let a2: u64 = a.l2;
    let a3: u64 = a.l3;
    let r0: u64 = (a0 >> 16) | (a1 << 48);
    let r1: u64 = (a1 >> 16) | (a2 << 48);
    let r2: u64 = (a2 >> 16) | (a3 << 48);
    let r = Fe { l0: r0, l1: r1, l2: r2, l3: a3 >> 16 };
    proof {
        lemma2_to64();
        lemma_low_bits_mask_values();
        assert(r0 as u128 == ((a0 >> 16) as u128) + ((a1 & 0xffff) as u128) * 0x1000000000000)
            by (bit_vector)
            requires
                r0 == (a0 >> 16) | (a1 << 48),
        ;
        assert(r1 as u128 == ((a1 >> 16) as u128) + ((a2 & 0xffff) as u128) * 0x1000000000000)
            by (bit_vector)
            requires
                r1 == (a1 >> 16) | (a2 << 48),
        ;
        assert(r2 as u128 == ((a2 >> 16) as u128) + ((a3 & 0xffff) as u128) * 0x1000000000000)
            by (bit_vector)
            requires
                r2 == (a2 >> 16) | (a3 << 48),
        ;
        lemma_u64_shr_is_div(a.l0, 16);
        lemma_u64_shr_is_div(a.l1, 16);
        lemma_u64_shr_is_div(a.l2, 16);
        lemma_u64_shr_is_div(a.l3, 16);
        lemma_u64_low_bits_mask_is_mod(a.l1, 16);
        lemma_u64_low_bits_mask_is_mod(a.l2, 16);
        lemma_u64_low_bits_mask_is_mod(a.l3, 16);
        lemma_fundamental_div_mod(a.l0 as int, 0x10000);
        lemma_fundamental_div_mod(a.l1 as int, 0x10000);
        lemma_fundamental_div_mod(a.l2 as int, 0x10000);
        lemma_fundamental_div_mod(a.l3 as int, 0x10000);
        lemma_fundamental_div_mod_converse(
            fe_val(a) as int,
            0x10000,
            fe_val(r) as int,
            (a.l0 % 0x10000) as int,
        );
    }
    r
}

/// The `j`-th 4-bit slice of the value, for `j` within the low machine word:
/// the XOR table operates on 4-bit chunks, four to a 16-bit row.
pub fn fe_nibble(a: Fe, j: usize) -> (r: u64)
    requires
        j < 4,
    ensures
        r as nat == (fe_val(a) / pow2((4 * j) as nat)) % 16,
        r < 16,
{
    proof {
        lemma2_to64();
        lemma_low_bits_mask_values();
        lemma_fe_val_split(a);
    }
    if j == 0 {
        let r = a.l0 & 0xf;
        proof {
            lemma_u64_low_bits_mask_is_mod(a.l0, 4);
            assert(fe_val(a) == 16 * (0x1000000000000000 * fe_hi1(a) + a.l0 as nat / 16) + (
            a.l0 as nat % 16)) by {
                lemma_fundamental_div_mod(a.l0 as int, 16);
            }
            lemma_fundamental_div_mod_converse(
                fe_val(a) as int,
                16,
                (0x1000000000000000 * fe_hi1(a) + a.l0 as nat / 16) as int,
                (a.l0 as nat % 16) as int,
            );
            assert(fe_val(a) / pow2(0) == fe_val(a)) by {
                lemma_fundamental_div_mod_converse(fe_val(a) as int, 1, fe_val(a) as int, 0);
            }
            lemma_mod_multiples_vanish(
                (0x100000000000000 * fe_hi1(a)) as int,
                (a.l0 as nat / 16) as int,
                16,
            );
            assert(16 * (0x100000000000000 * fe_hi1(a)) == 0x1000000000000000 * fe_hi1(a));
        }
        r
    } else if j == 1 {
        let r = (a.l0 >> 4) & 0xf;
        proof {
            lemma_u64_shr_is_div(a.l0, 4);
            lemma_u64_low_bits_mask_is_mod(a.l0 >> 4, 4);
            assert(fe_val(a) == 16 * (0x1000000000000000 * fe_hi1(a) + a.l0 as nat / 16) + (
            a.l0 as nat % 16)) by {
                lemma_fundamental_div_mod(a.l0 as int, 16);
            }
            lemma_fundamental_div_mod_converse(
                fe_val(a) as int,
                16,
                (0x1000000000000000 * fe_hi1(a) + a.l0 as nat / 16) as int,
                (a.l0 as nat % 16) as int,
            );
            lemma_mod_multiples_vanish(
                (0x100000000000000 * fe_hi1(a)) as int,
                (a.l0 as nat / 16) as int,
                16,
            );
            assert(16 * (0x100000000000000 * fe_hi1(a)) == 0x1000000000000000 * fe_hi1(a));
        }
        r
    } else if j == 2 {
        let r = (a.l0 >> 8) & 0xf;
        proof {
            lemma_u64_shr_is_div(a.l0, 8);
            lemma_u64_low_bits_mask_is_mod(a.l0 >> 8, 4);
            assert(fe_val(a) == 256 * (0x100000000000000 * fe_hi1(a) + a.l0 as nat / 256) + (
            a.l0 as nat % 256)) by {
                lemma_fundamental_div_mod(a.l0 as int, 256);
            }
            lemma_fundamental_div_mod_converse(
                fe_val(a) as int,
                256,
                (0x100000000000000 * fe_hi1(a) + a.l0 as nat / 256) as int,
                (a.l0 as nat % 256) as int,
            );
            lemma_mod_multiples_vanish(
                (0x10000000000000 * fe_hi1(a)) as int,
                (a.l0 as nat / 256) as int,
                16,
            );
            assert(16 * (0x10000000000000 * fe_hi1(a)) == 0x100000000000000 * fe_hi1(a));
        }
        r
    } else {
        let r = (a.l0 >> 12) & 0xf;
        proof {
            lemma_u64_shr_is_div(a.l0, 12);
            lemma_u64_low_bits_mask_is_mod(a.l0 >> 12, 4);
            assert(fe_val(a) == 4096 * (0x10000000000000 * fe_hi1(a) + a.l0 as nat / 4096) + (
            a.l0 as nat % 4096)) by {
                lemma_fundamental_div_mod(a.l0 as int, 4096);
            }
            lemma_fundamental_div_mod_converse(
                fe_val(a) as int,
                4096,
                (0x10000000000000 * fe_hi1(a) + a.l0 as nat / 4096) as int,
                (a.l0 as nat % 4096) as int,
            );
            lemma_mod_multiples_vanish(
                (0x1000000000000 * fe_hi1(a)) as int,
                (a.l0 as nat / 4096) as int,
                16,
            );
            assert(16 * (0x1000000000000 * fe_hi1(a)) == 0x10000000000000 * fe_hi1(a));
        }
        r
    }
}

/// Limb subtraction with borrow propagation.
pub fn fe_sub(a: Fe, b: Fe) -> (r: Fe)
    requires
        fe_val(b) <= fe_val(a),
    ensures
        fe_val(r) == fe_val(a) - fe_val(b),
{
    let d0: u128 = 0x10000000000000000u128 + a.l0 as u128 - b.l0 as u128;
    let r0: u64 = (d0 % 0x10000000000000000u128) as u64;
    let h0: u128 = d0 / 0x10000000000000000u128;
    let d1: u128 = 0xffffffffffffffffu128 + h0 + a.l1 as u128 - b.l1 as u128;
    let r1: u64 = (d1 % 0x10000000000000000u128) as u64;
    let h1: u128 = d1 / 0x10000000000000000u128;
    let d2: u128 = 0xffffffffffffffffu128 + h1 + a.l2 as u128 - b.l2 as u128;
    let r2: u64 = (d2 % 0x10000000000000000u128) as u64;
    let h2: u128 = d2 / 0x10000000000000000u128;
    let d3: u128 = 0xffffffffffffffffu128 + h2 + a.l3 as u128 - b.l3 as u128;
    let r3: u64 = (d3 % 0x10000000000000000u128) as u64;
    let h3: u128 = d3 / 0x10000000000000000u128;
    let r = Fe { l0: r0, l1: r1, l2: r2, l3: r3 };
    proof {
        lemma_fundamental_div_mod(d0 as int, 0x10000000000000000);
        lemma_fundamental_div_mod(d1 as int, 0x10000000000000000);
        lemma_fundamental_div_mod(d2 as int, 0x10000000000000000);
        lemma_fundamental_div_mod(d3 as int, 0x10000000000000000);
        assert(h0 <= 1 && h1 <= 1 && h2 <= 1 && h3 <= 1);
        assert(fe_val(r) + fe_val(b) + 0x10000000000000000000000000000000000000000000000000000000000000000nat
            == fe_val(a) + h3 as nat
            * 0x10000000000000000000000000000000000000000000000000000000000000000nat);
        lemma_fe_val_bound(r);
        lemma_fe_val_bound(a);
        assert(h3 == 1);
    }
    r
}

/// Whether `fe_val(a) >= fe_val(b)`.
pub fn fe_ge(a: Fe, b: Fe) -> (r: bool)
    ensures
        r == (fe_val(a) >= fe_val(b)),
{
    fe_le(b, a)
}

/// Addition in the field `f`: the sum of two canonical elements, reduced.
pub fn fe_add_mod(f: FieldId, a: Fe, b: Fe) -> (r: Fe)
    requires
        fe_is_canonical(f, a),
        fe_is_canonical(f, b),
    ensures
        fe_val(r) == (fe_val(a) + fe_val(b)) % field_modulus(f),
        fe_is_canonical(f, r),
{
    let s0: u128 = a.l0 as u128 + b.l0 as u128;
    let t0: u64 = (s0 % 0x10000000000000000u128) as u64;
    let c0: u128 = s0 / 0x10000000000000000u128;
    let s1: u128 = a.l1 as u128 + b.l1 as u128 + c0;
    let t1: u64 = (s1 % 0x10000000000000000u128) as u64;
    let c1: u128 = s1 / 0x10000000000000000u128;
    let s2: u128 = a.l2 as u128 + b.l2 as u128 + c1;
    let t2: u64 = (s2 % 0x10000000000000000u128) as u64;
    let c2: u128 = s2 / 0x10000000000000000u128;
    let s3: u128 = a.l3 as u128 + b.l3 as u128 + c2;
    let t3: u64 = (s3 % 0x10000000000000000u128) as u64;
    let c3: u128 = s3 / 0x10000000000000000u128;
    let t = Fe { l0: t0, l1: t1, l2: t2, l3: t3 };
    proof {
        lemma_fundamental_div_mod(s0 as int, 0x10000000000000000);
        lemma_fundamental_div_mod(s1 as int, 0x10000000000000000);
        lemma_fundamental_div_mod(s2 as int, 0x10000000000000000);
        lemma_fundamental_div_mod(s3 as int, 0x10000000000000000);
        assert(c0 <= 1 && c1 <= 1 && c2 <= 1 && c3 <= 1);
        assert(fe_val(t) + c3 as nat
            * 0x10000000000000000000000000000000000000000000000000000000000000000 == fe_val(a)
            + fe_val(b));
        assert(c3 == 0);
    }
    let p = modulus_fe(f);
    if fe_ge(t, p) {
        let r = fe_sub(t, p);
        proof {
            lemma_mod_multiples_vanish(
                -1,
                (fe_val(a) + fe_val(b)) as int,
                field_modulus(f) as int,
            );
            lemma_small_mod((fe_val(a) + fe_val(b) - field_modulus(f)) as nat, field_modulus(f));
        }
        r
    } else {
        proof {
            lemma_small_mod((fe_val(a) + fe_val(b)) as nat, field_modulus(f));
        }
        t
    }
}

/// `-1` in the field `f`: the public constant of the NOT gadget's generic
/// rows uses it as a coefficient.
pub fn fe_neg_one(f: FieldId) -> (r: Fe)
    ensures
        fe_val(r) == field_modulus(f) - 1,
{
    fe_sub(modulus_fe(f), fe_from_u64(1))
}

/// `-2` in the field `f`.
pub fn fe_neg_two(f: FieldId) -> (r: Fe)
    ensures
        fe_val(r) == field_modulus(f) - 2,
{
    fe_sub(modulus_fe(f), fe_from_u64(2))
}

} // verus!
verus! {

/// Two limb vectors of one value are the same vector: the encoding is
/// injective.
pub proof fn lemma_fe_val_injective(a: Fe, b: Fe)
    requires
        fe_val(a) == fe_val(b),
    ensures
        a == b,
{
    lemma_fe_val_split(a);
    lemma_fe_val_split(b);
    assert(a.l0 == b.l0);
    assert(fe_hi1(a) == fe_hi1(b));
    lemma_fundamental_div_mod_converse(
        fe_hi1(a) as int,
        0x10000000000000000,
        fe_hi2(a) as int,
        a.l1 as int,
    );
    lemma_fundamental_div_mod_converse(
        fe_hi1(b) as int,
        0x10000000000000000,
        fe_hi2(b) as int,
        b.l1 as int,
    );
    assert(a.l1 == b.l1);
    assert(fe_hi2(a) == fe_hi2(b));
    lemma_fundamental_div_mod_converse(
        fe_hi2(a) as int,
        0x10000000000000000,
        a.l3 as int,
        a.l2 as int,
    );
    lemma_fundamental_div_mod_converse(
        fe_hi2(b) as int,
        0x10000000000000000,
        b.l3 as int,
        b.l2 as int,
    );
    assert(a.l2 == b.l2 && a.l3 == b.l3);
}

} // verus!
