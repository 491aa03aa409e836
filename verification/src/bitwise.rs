//! Bitwise AND and XOR on unbounded naturals, and the lemmas that connect
//! them to the machine-level `u64` operators.
//!
//! The gadget and witness layers state every bitwise result over these spec
//! functions, so that a synthesized witness column is pinned to a definition
//! that is independent of the limb-level code computing it.

use vstd::prelude::*;

verus! {

use vstd::arithmetic::power2::{
    pow2,
    lemma_pow2_pos,
    lemma_pow2_unfold,
    lemma2_to64,
};
use vstd::bits::lemma_u64_shr_is_div;

/// Bitwise AND of two naturals, defined bit by bit from the low end.
pub open spec fn nat_and(x: nat, y: nat) -> nat
    decreases x + y,
{
    if x == 0 || y == 0 {
        0
    } else {
        (x % 2) * (y % 2) + 2 * nat_and(x / 2, y / 2)
    }
}

/// Bitwise XOR of two naturals, defined bit by bit from the low end.
pub open spec fn nat_xor(x: nat, y: nat) -> nat
    decreases x + y,
{
    if x == 0 && y == 0 {
        0
    } else {
        (if x % 2 == y % 2 {
            0nat
        } else {
            1nat
        }) + 2 * nat_xor(x / 2, y / 2)
    }
}

/// The defining recurrence of `nat_and` holds unconditionally.
pub proof fn lemma_nat_and_unfold(x: nat, y: nat)
    ensures
        nat_and(x, y) == (x % 2) * (y % 2) + 2 * nat_and(x / 2, y / 2),
{
    if x == 0 || y == 0 {
        assert(x / 2 == 0 || y / 2 == 0);
        assert(nat_and(x / 2, y / 2) == 0);
        assert(x % 2 == 0 || y % 2 == 0);
        lemma_zero_product(x % 2, y % 2);
    }
}

/// A product with a zero factor is zero.
pub proof fn lemma_zero_product(a: nat, b: nat)
    requires
        a == 0 || b == 0,
    ensures
        a * b == 0,
{
    assert(a * b == 0) by (nonlinear_arith)
        requires
            a == 0 || b == 0,
    ;
}

/// Doubling one factor doubles the product.
proof fn lemma_twice(p: nat, a: nat)
    ensures
        (2 * p) * a == 2 * (p * a),
{
    assert((2 * p) * a == 2 * (p * a)) by (nonlinear_arith);
}

/// Multiplying by one on the left leaves a value alone.
pub proof fn lemma_mul_one_left(a: nat, b: nat)
    requires
        a == 1,
    ensures
        a * b == b,
{
    assert(a * b == b) by (nonlinear_arith)
        requires
            a == 1,
    ;
}

/// Multiplying by one on the right leaves a value alone.
pub proof fn lemma_mul_one_right(a: nat, b: nat)
    requires
        b == 1,
    ensures
        a * b == a,
{
    assert(a * b == a) by (nonlinear_arith)
        requires
            b == 1,
    ;
}

/// Halving an even factor while doubling the other keeps a product.
pub proof fn lemma_shift_factor(p: nat, x: nat)
    requires
        x % 2 == 0,
    ensures
        (2 * p) * (x / 2) == p * x,
{
    assert(x == 2 * (x / 2));
    assert((2 * p) * (x / 2) == p * (2 * (x / 2))) by (nonlinear_arith);
}

/// A factor of at least one cannot shrink a product.
pub proof fn lemma_mul_lower(a: nat, b: nat)
    requires
        1 <= b,
    ensures
        a <= a * b,
{
    assert(a <= a * b) by (nonlinear_arith)
        requires
            1 <= b,
    ;
}

/// A product of two bits is at most either bit.
proof fn lemma_bit_product(a: nat, b: nat)
    requires
        a <= 1,
        b <= 1,
    ensures
        a * b <= a,
        a * b <= b,
        a * b == (if a == 1 && b == 1 {
            1nat
        } else {
            0nat
        }),
{
    assert(a * b <= a && a * b <= b && a * b == (if a == 1 && b == 1 {
        1nat
    } else {
        0nat
    })) by (nonlinear_arith)
        requires
            a <= 1,
            b <= 1,
    ;
}

/// The defining recurrence of `nat_xor` holds unconditionally.
pub proof fn lemma_nat_xor_unfold(x: nat, y: nat)
    ensures
        nat_xor(x, y) == (if x % 2 == y % 2 {
            0nat
        } else {
            1nat
        }) + 2 * nat_xor(x / 2, y / 2),
{
    if x == 0 && y == 0 {
        assert(nat_xor(x / 2, y / 2) == 0);
    }
}

/// The low bit of a `u64` AND, phrased arithmetically.
proof fn lemma_u64_low_bit_and(x: u64, y: u64)
    ensures
        ((x & y) % 2) as nat == ((x % 2) * (y % 2)) as nat,
{
    assert((x & y) % 2 == (x % 2) * (y % 2)) by (bit_vector);
}

/// A `u64` AND agrees with `nat_and`.
pub proof fn lemma_u64_and_is_nat_and(x: u64, y: u64)
    ensures
        (x & y) as nat == nat_and(x as nat, y as nat),
    decreases x,
{
    if x == 0 || y == 0 {
        assert(x == 0 || y == 0 ==> (x & y) == 0) by (bit_vector);
    } else {
        let xh = x >> 1;
        let yh = y >> 1;
        assert((x & y) as u128 == 2 * ((xh & yh) as u128) + (((x & y) % 2) as u128))
            by (bit_vector)
            requires
                xh == x >> 1,
                yh == y >> 1,
        ;
        lemma_u64_shr_is_div(x, 1);
        lemma_u64_shr_is_div(y, 1);
        assert(pow2(1) == 2) by {
            lemma2_to64();
        }
        assert(xh as nat == x as nat / 2);
        assert(xh < x);
        lemma_u64_and_is_nat_and(xh, yh);
        lemma_u64_low_bit_and(x, y);
        lemma_nat_and_unfold(x as nat, y as nat);
    }
}

/// A `u64` XOR agrees with `nat_xor`.
pub proof fn lemma_u64_xor_is_nat_xor(x: u64, y: u64)
    ensures
        (x ^ y) as nat == nat_xor(x as nat, y as nat),
    decreases x + y,
{
    if x == 0 && y == 0 {
        assert((0u64 ^ 0u64) == 0) by (bit_vector);
    } else {
        let xh = x >> 1;
        let yh = y >> 1;
        assert((x ^ y) as u128 == 2 * ((xh ^ yh) as u128) + (((x ^ y) % 2) as u128))
            by (bit_vector)
            requires
                xh == x >> 1,
                yh == y >> 1,
        ;
        assert((x ^ y) % 2 == (if x % 2 == y % 2 {
            0u64
        } else {
            1u64
        })) by (bit_vector);
        lemma_u64_shr_is_div(x, 1);
        lemma_u64_shr_is_div(y, 1);
        assert(pow2(1) == 2) by {
            lemma2_to64();
        }
        assert(xh as nat == x as nat / 2);
        assert(yh as nat == y as nat / 2);
        lemma_u64_xor_is_nat_xor(xh, yh);
        lemma_nat_xor_unfold(x as nat, y as nat);
    }
}

/// Splitting both operands at bit `k` splits the AND at bit `k`.
pub proof fn lemma_nat_and_split(xl: nat, xh: nat, yl: nat, yh: nat, k: nat)
    requires
        xl < pow2(k),
        yl < pow2(k),
    ensures
        nat_and(xl + pow2(k) * xh, yl + pow2(k) * yh)
            == nat_and(xl, yl) + pow2(k) * nat_and(xh, yh),
    decreases k,
{
    if k == 0 {
        assert(pow2(0) == 1) by {
            lemma2_to64();
        }
    } else {
        lemma_pow2_unfold(k);
        lemma_pow2_pos((k - 1) as nat);
        let p1 = pow2((k - 1) as nat);
        let x = xl + pow2(k) * xh;
        let y = yl + pow2(k) * yh;
        lemma_twice(p1, xh);
        lemma_twice(p1, yh);
        assert(x == xl + 2 * (p1 * xh));
        assert(x % 2 == xl % 2 && x / 2 == xl / 2 + p1 * xh) by {
            assert(xl == 2 * (xl / 2) + xl % 2);
            assert(x == 2 * (xl / 2 + p1 * xh) + xl % 2);
            vstd::arithmetic::div_mod::lemma_fundamental_div_mod_converse(
                x as int,
                2,
                (xl / 2 + p1 * xh) as int,
                (xl % 2) as int,
            );
        }
        assert(y % 2 == yl % 2 && y / 2 == yl / 2 + p1 * yh) by {
            assert(yl == 2 * (yl / 2) + yl % 2);
            assert(y == 2 * (yl / 2 + p1 * yh) + yl % 2);
            vstd::arithmetic::div_mod::lemma_fundamental_div_mod_converse(
                y as int,
                2,
                (yl / 2 + p1 * yh) as int,
                (yl % 2) as int,
            );
        }
        assert(xl / 2 < p1 && yl / 2 < p1) by {
            assert(xl < 2 * p1 && yl < 2 * p1);
        }
        lemma_nat_and_split(xl / 2, xh, yl / 2, yh, (k - 1) as nat);
        lemma_nat_and_unfold(x, y);
        lemma_nat_and_unfold(xl, yl);
        assert(nat_and(x, y) == (xl % 2) * (yl % 2) + 2 * (nat_and(xl / 2, yl / 2) + p1
            * nat_and(xh, yh)));
        assert(2 * (nat_and(xl / 2, yl / 2) + p1 * nat_and(xh, yh)) == 2 * nat_and(
            xl / 2,
            yl / 2,
        ) + pow2(k) * nat_and(xh, yh)) by {
            assert(2 * (p1 * nat_and(xh, yh)) == (2 * p1) * nat_and(xh, yh))
                by (nonlinear_arith);
        }
    }
}

/// Splitting both operands at bit `k` splits the XOR at bit `k`.
pub proof fn lemma_nat_xor_split(xl: nat, xh: nat, yl: nat, yh: nat, k: nat)
    requires
        xl < pow2(k),
        yl < pow2(k),
    ensures
        nat_xor(xl + pow2(k) * xh, yl + pow2(k) * yh)
            == nat_xor(xl, yl) + pow2(k) * nat_xor(xh, yh),
    decreases k,
{
    if k == 0 {
        assert(pow2(0) == 1) by {
            lemma2_to64();
        }
    } else {
        lemma_pow2_unfold(k);
        lemma_pow2_pos((k - 1) as nat);
        let p1 = pow2((k - 1) as nat);
        let x = xl + pow2(k) * xh;
        let y = yl + pow2(k) * yh;
        lemma_twice(p1, xh);
        lemma_twice(p1, yh);
        assert(x % 2 == xl % 2 && x / 2 == xl / 2 + p1 * xh) by {
            assert(xl == 2 * (xl / 2) + xl % 2);
            assert(x == 2 * (xl / 2 + p1 * xh) + xl % 2);
            vstd::arithmetic::div_mod::lemma_fundamental_div_mod_converse(
                x as int,
                2,
                (xl / 2 + p1 * xh) as int,
                (xl % 2) as int,
            );
        }
        assert(y % 2 == yl % 2 && y / 2 == yl / 2 + p1 * yh) by {
            assert(yl == 2 * (yl / 2) + yl % 2);
            assert(y == 2 * (yl / 2 + p1 * yh) + yl % 2);
            vstd::arithmetic::div_mod::lemma_fundamental_div_mod_converse(
                y as int,
                2,
                (yl / 2 + p1 * yh) as int,
                (yl % 2) as int,
            );
        }
        assert(xl / 2 < p1 && yl / 2 < p1) by {
            assert(xl < 2 * p1 && yl < 2 * p1);
        }
        lemma_nat_xor_split(xl / 2, xh, yl / 2, yh, (k - 1) as nat);
        lemma_nat_xor_unfold(x, y);
        lemma_nat_xor_unfold(xl, yl);
        let bit: nat = if xl % 2 == yl % 2 {
            0
        } else {
            1
        };
        assert(nat_xor(x, y) == bit + 2 * (nat_xor(xl / 2, yl / 2) + p1 * nat_xor(xh, yh)));
        assert(2 * (nat_xor(xl / 2, yl / 2) + p1 * nat_xor(xh, yh)) == 2 * nat_xor(
            xl / 2,
            yl / 2,
        ) + pow2(k) * nat_xor(xh, yh)) by {
            assert(2 * (p1 * nat_xor(xh, yh)) == (2 * p1) * nat_xor(xh, yh))
                by (nonlinear_arith);
        }
    }
}

/// XOR against the all-ones word of `n` bits is subtraction from it:
/// the arithmetic form of bitwise NOT on an `n`-bit value.
pub proof fn lemma_nat_xor_all_ones(x: nat, n: nat)
    requires
        x < pow2(n),
    ensures
        nat_xor(x, (pow2(n) - 1) as nat) == pow2(n) - 1 - x,
    decreases n,
{
    if n == 0 {
        assert(pow2(0) == 1) by {
            lemma2_to64();
        }
    } else {
        lemma_pow2_unfold(n);
        lemma_pow2_pos((n - 1) as nat);
        let m: nat = (pow2(n) - 1) as nat;
        assert(m == 2 * (pow2((n - 1) as nat) - 1) + 1);
        assert(m % 2 == 1 && m / 2 == pow2((n - 1) as nat) - 1) by {
            vstd::arithmetic::div_mod::lemma_fundamental_div_mod_converse(
                m as int,
                2,
                pow2((n - 1) as nat) as int - 1,
                1,
            );
        }
        assert(x / 2 < pow2((n - 1) as nat)) by {
            assert(x < 2 * pow2((n - 1) as nat));
        }
        lemma_nat_xor_all_ones(x / 2, (n - 1) as nat);
        lemma_nat_xor_unfold(x, m);
        assert(x == 2 * (x / 2) + x % 2);
    }
}

/// AND with the low-`n`-bits mask keeps exactly the value modulo `pow2(n)`.
pub proof fn lemma_nat_and_low_mask(x: nat, n: nat)
    ensures
        nat_and(x, (pow2(n) - 1) as nat) == x % pow2(n),
    decreases n,
{
    lemma_pow2_pos(n);
    if n == 0 {
        assert(pow2(0) == 1) by {
            lemma2_to64();
        }
        assert(nat_and(x, 0) == 0);
        assert(x % 1 == 0) by (nonlinear_arith);
    } else {
        lemma_pow2_unfold(n);
        lemma_pow2_pos((n - 1) as nat);
        let m: nat = (pow2(n) - 1) as nat;
        assert(m % 2 == 1 && m / 2 == pow2((n - 1) as nat) - 1) by {
            assert(m == 2 * (pow2((n - 1) as nat) - 1) + 1);
            vstd::arithmetic::div_mod::lemma_fundamental_div_mod_converse(
                m as int,
                2,
                pow2((n - 1) as nat) as int - 1,
                1,
            );
        }
        lemma_nat_and_low_mask(x / 2, (n - 1) as nat);
        lemma_nat_and_unfold(x, m);
        assert(nat_and(x, m) == (x % 2) * 1 + 2 * ((x / 2) % pow2((n - 1) as nat)));
        vstd::arithmetic::div_mod::lemma_mod_breakdown(x as int, 2, pow2((n - 1) as nat) as int);
        assert(x % (2 * pow2((n - 1) as nat)) == 2 * ((x / 2) % pow2((n - 1) as nat)) + x % 2);
    }
}

} // verus!
verus! {

/// The identity the AND gadget's generic row enforces: for all operands,
/// the sum of two naturals is twice their bitwise AND plus their bitwise
/// XOR, so the AND is recoverable as `(x + y - (x ^ y)) / 2`.
pub proof fn lemma_and_xor_sum(x: nat, y: nat)
    ensures
        x + y == 2 * nat_and(x, y) + nat_xor(x, y),
    decreases x + y,
{
    if x == 0 && y == 0 {
    } else {
        lemma_and_xor_sum(x / 2, y / 2);
        lemma_nat_and_unfold(x, y);
        lemma_nat_xor_unfold(x, y);
        lemma_bit_product(x % 2, y % 2);
        assert(x == 2 * (x / 2) + x % 2);
        assert(y == 2 * (y / 2) + y % 2);
    }
}

} // verus!
