//! Gadget builders: pure functions that append a deterministic sequence of
//! typed gates with explicit internal wiring to a gate list and return the
//! next free row. Builders lay out structure only; the matching witness
//! synthesizers fill in values at the same row offsets.

use vstd::prelude::*;

verus! {

use vstd::arithmetic::power2::{pow2, lemma_pow2_strictly_increases, lemma2_to64};
use vstd::bits::lemma_u64_shl_is_mul;
use crate::fe::{Fe, FieldId, field_modulus, fe_from_u64, fe_zero, fe_neg_one, fe_neg_two, fe_val};
use crate::gate::{
    Gate,
    GateKind,
    PERMUTS,
    wires_ok,
    self_wired,
    targets,
    wires_for_row,
    lemma_push_self_wired,
    connect_cell_pair,
};

/// A bound on circuit sizes, far above anything a proving domain holds,
/// under which row arithmetic cannot overflow a machine word.
pub const MAX_ROWS: usize = 0x1000000;

/// Which way a 64-bit word is rotated.
#[derive(Clone, Copy, PartialEq, Eq, Structural, Debug)]
pub enum RotMode {
    Left,
    Right,
}

/// The equivalent left-rotation amount of a rotation: a right rotation by
/// `rot` of a 64-bit word is a left rotation by `64 - rot`.
pub open spec fn rot_left_amount(rot: nat, side: RotMode) -> nat {
    if side == RotMode::Left {
        rot
    } else if rot == 0 {
        0
    } else {
        (64 - rot) as nat
    }
}

/// Computes `rot_left_amount`.
pub fn effective_left_rot(rot: u32, side: RotMode) -> (r: u32)
    requires
        rot < 64,
    ensures
        r == rot_left_amount(rot as nat, side),
        r < 64,
{
    match side {
        RotMode::Left => rot,
        RotMode::Right => if rot == 0 {
            0
        } else {
            64 - rot
        },
    }
}

/// Number of 16-bit chunk rows the XOR gadget lays out for `bits` bits.
pub open spec fn spec_num_xors(bits: nat) -> nat {
    (bits + 15) / 16
}

/// Number of chunk rows of the XOR gadget: one per 16-bit slice.
pub fn num_xors(bits: usize) -> (r: usize)
    requires
        bits <= MAX_ROWS,
    ensures
        r == spec_num_xors(bits as nat),
{
    (bits + 15) / 16
}

/// Total rows of the XOR gadget: its chunk rows plus the terminating
/// zero row.
pub fn num_xor_rows(bits: usize) -> (r: usize)
    requires
        bits <= MAX_ROWS,
    ensures
        r == spec_num_xors(bits as nat) + 1,
{
    num_xors(bits) + 1
}

/// Appends one self-wired gate of the given kind.
fn push_gate(gates: &mut Vec<Gate>, kind: GateKind, coeffs: Vec<Fe>)
    requires
        wires_ok(old(gates)@),
        old(gates)@.len() < usize::MAX,
    ensures
        wires_ok(final(gates)@),
        final(gates)@.len() == old(gates)@.len() + 1,
        forall|i: int| 0 <= i < old(gates)@.len() ==> final(gates)@[i] == old(gates)@[i],
        final(gates)@.last().kind == kind,
        final(gates)@.last().coeffs == coeffs,
        self_wired(final(gates)@.last(), old(gates)@.len() as int),
{
    let row = gates.len();
    let wires = wires_for_row(row);
    let g = Gate { kind, wires, coeffs };
    proof {
        lemma_push_self_wired(gates@, g);
    }
    gates.push(g);
}

/// Appends the XOR gadget for `bits` bits: `spec_num_xors(bits)` Xor16 rows,
/// each enforcing one 16-bit slice of the relation, then a Zero row that
/// terminates the chain once the remaining width is exhausted. Returns the
/// next free row.
pub fn extend_xor_gadget(gates: &mut Vec<Gate>, bits: usize) -> (next_row: usize)
    requires
        wires_ok(old(gates)@),
        1 <= bits <= MAX_ROWS,
        old(gates)@.len() <= MAX_ROWS,
    ensures
        wires_ok(final(gates)@),
        final(gates)@.len() == old(gates)@.len() + spec_num_xors(bits as nat) + 1,
        next_row == final(gates)@.len(),
        forall|i: int| 0 <= i < old(gates)@.len() ==> final(gates)@[i] == old(gates)@[i],
        forall|i: int|
            old(gates)@.len() <= i < final(gates)@.len() - 1 ==> (#[trigger] final(gates)@[i]).kind
                == GateKind::Xor16 && self_wired(final(gates)@[i], i),
        final(gates)@.last().kind == GateKind::Zero,
        self_wired(final(gates)@.last(), final(gates)@.len() - 1),
{
    let nx = num_xors(bits);
    let ghost start = gates@.len();
    let mut i: usize = 0;
    while i < nx
        invariant
            wires_ok(gates@),
            gates@.len() == start + i,
            i <= nx,
            start + nx + 1 <= usize::MAX,
            forall|k: int| 0 <= k < start ==> gates@[k] == old(gates)@[k],
            forall|k: int|
                start <= k < gates@.len() ==> (#[trigger] gates@[k]).kind == GateKind::Xor16
                    && self_wired(gates@[k], k),
        decreases nx - i,
    {
        push_gate(gates, GateKind::Xor16, Vec::new());
        i += 1;
    }
    push_gate(gates, GateKind::Zero, Vec::new());
    gates.len()
}

/// Appends the AND gadget for operands of `bytes` bytes: the XOR sub-gadget
/// over `8 * bytes` bits followed by one double generic row that recovers
/// the AND result through the relation `2 * and = (x + y) - (x xor y)`.
///
/// The generic row's witness layout is `[x, y, sum, sum, xor, and]`; its
/// first half enforces `x + y - sum = 0`, its second `sum - xor - 2 and
/// = 0`. The row's inputs and the XOR output are copy-constrained to the
/// sub-gadget's first row. Returns the next free row.
pub fn extend_and(gates: &mut Vec<Gate>, f: FieldId, bytes: usize) -> (next_row: usize)
    requires
        wires_ok(old(gates)@),
        1 <= bytes,
        bytes * 8 <= MAX_ROWS,
        old(gates)@.len() <= MAX_ROWS,
    ensures
        wires_ok(final(gates)@),
        final(gates)@.len() == old(gates)@.len() + spec_num_xors((bytes * 8) as nat) + 2,
        next_row == final(gates)@.len(),
        forall|i: int| 0 <= i < old(gates)@.len() ==> final(gates)@[i] == old(gates)@[i],
        final(gates)@.last().kind == GateKind::Generic,
        and_coeffs_ok(f, final(gates)@.last().coeffs@),
        forall|i: int|
            old(gates)@.len() <= i < final(gates)@.len() - 2 ==> (#[trigger] final(gates)@[i]).kind
                == GateKind::Xor16,
        final(gates)@[final(gates)@.len() - 2].kind == GateKind::Zero,
        targets(
            final(gates)@,
            old(gates)@.len() as int,
            0,
            final(gates)@.len() - 1,
            0,
        ),
        targets(
            final(gates)@,
            old(gates)@.len() as int,
            1,
            final(gates)@.len() - 1,
            1,
        ),
        targets(
            final(gates)@,
            old(gates)@.len() as int,
            2,
            final(gates)@.len() - 1,
            4,
        ),
        targets(final(gates)@, final(gates)@.len() - 1, 2, final(gates)@.len() - 1, 3),
        targets(final(gates)@, final(gates)@.len() - 1, 3, final(gates)@.len() - 1, 2),
        targets(final(gates)@, final(gates)@.len() - 1, 5, final(gates)@.len() - 1, 5),
        targets(final(gates)@, final(gates)@.len() - 1, 6, final(gates)@.len() - 1, 6),
        forall|c: int|
            3 <= c < PERMUTS ==> targets(
                final(gates)@,
                old(gates)@.len() as int,
                c,
                old(gates)@.len() as int,
                c,
            ),
        forall|r: int, c: int|
            old(gates)@.len() < r < final(gates)@.len() - 1 && 0 <= c < PERMUTS ==> targets(
                final(gates)@,
                r,
                c,
                r,
                c,
            ),
{
    let xor_row = gates.len();
    let and_row = extend_xor_gadget(gates, bytes * 8);
    let mut coeffs: Vec<Fe> = Vec::new();
    coeffs.push(fe_from_u64(1));
    coeffs.push(fe_from_u64(1));
    coeffs.push(fe_neg_one(f));
    coeffs.push(fe_zero());
    coeffs.push(fe_zero());
    coeffs.push(fe_from_u64(1));
    coeffs.push(fe_neg_one(f));
    coeffs.push(fe_neg_two(f));
    coeffs.push(fe_zero());
    coeffs.push(fe_zero());
    push_gate(gates, GateKind::Generic, coeffs);
    let ghost gp = gates@;
    connect_cell_pair(gates, xor_row, 0, and_row, 0);
    connect_cell_pair(gates, xor_row, 1, and_row, 1);
    connect_cell_pair(gates, xor_row, 2, and_row, 4);
    connect_cell_pair(gates, and_row, 2, and_row, 3);
    proof {
        let gf = gates@;
        assert forall|r: int, c: int|
            xor_row <= r < gf.len() && 0 <= c < PERMUTS && !(r == xor_row && c < 3) && !(r
                == and_row && (c == 0 || c == 1 || c == 2 || c == 3 || c == 4)) implies targets(
            gf,
            r,
            c,
            r,
            c,
        ) by {
            assert(gf[r].wires[c] == gp[r].wires[c]);
            if r < and_row {
                assert(self_wired(gp[r], r));
            } else {
                assert(self_wired(gp[r], r));
            }
        }
    }
    gates.len()
}

/// The coefficient layout of the AND gadget's double generic row, over the
/// field `f`: `x + y - sum = 0` and `sum - xor - 2 and = 0`.
pub open spec fn and_coeffs_ok(f: FieldId, cs: Seq<Fe>) -> bool {
    &&& cs.len() == 10
    &&& fe_val(cs[0]) == 1
    &&& fe_val(cs[1]) == 1
    &&& fe_val(cs[2]) == field_modulus(f) - 1
    &&& fe_val(cs[3]) == 0
    &&& fe_val(cs[4]) == 0
    &&& fe_val(cs[5]) == 1
    &&& fe_val(cs[6]) == field_modulus(f) - 1
    &&& fe_val(cs[7]) == field_modulus(f) - 2
    &&& fe_val(cs[8]) == 0
    &&& fe_val(cs[9]) == 0
}

/// Appends the NOT gadget for `bits` bits: an XOR sub-gadget whose second
/// input is copy-constrained to a caller-supplied public row holding the
/// constant `2^bits - 1`, so that the XOR output is the bitwise complement
/// of the first input. `bits` beyond 254 cannot represent that constant in
/// the field and are refused by contract. Returns the next free row.
pub fn extend_not(gates: &mut Vec<Gate>, pub_row: usize, bits: usize) -> (next_row: usize)
    requires
        wires_ok(old(gates)@),
        pub_row < old(gates)@.len(),
        targets(old(gates)@, pub_row as int, 0, pub_row as int, 0),
        1 <= bits <= 254,
        old(gates)@.len() <= MAX_ROWS,
    ensures
        wires_ok(final(gates)@),
        final(gates)@.len() == old(gates)@.len() + spec_num_xors(bits as nat) + 1,
        next_row == final(gates)@.len(),
        targets(final(gates)@, old(gates)@.len() as int, 1, pub_row as int, 0),
        targets(final(gates)@, pub_row as int, 0, old(gates)@.len() as int, 1),
        forall|i: int|
            old(gates)@.len() <= i < final(gates)@.len() - 1 ==> (#[trigger] final(gates)@[i]).kind
                == GateKind::Xor16,
        final(gates)@.last().kind == GateKind::Zero,
        forall|r: int, c: int|
            0 <= r < old(gates)@.len() && 0 <= c < PERMUTS && !(r == pub_row && c == 0)
                ==> #[trigger] final(gates)@[r].wires[c] == old(gates)@[r].wires[c],
        forall|c: int|
            0 <= c < PERMUTS && c != 1 ==> targets(
                final(gates)@,
                old(gates)@.len() as int,
                c,
                old(gates)@.len() as int,
                c,
            ),
        forall|r: int, c: int|
            old(gates)@.len() < r < final(gates)@.len() && 0 <= c < PERMUTS ==> targets(
                final(gates)@,
                r,
                c,
                r,
                c,
            ),
{
    let first = gates.len();
    let next = extend_xor_gadget(gates, bits);
    let ghost gp = gates@;
    connect_cell_pair(gates, first, 1, pub_row, 0);
    proof {
        let gf = gates@;
        assert forall|r: int, c: int|
            first <= r < gf.len() && 0 <= c < PERMUTS && !(r == first && c == 1) implies targets(
            gf,
            r,
            c,
            r,
            c,
        ) by {
            assert(gf[r].wires[c] == gp[r].wires[c]);
            assert(self_wired(gp[r], r));
        }
    }
    next
}

/// Checked form of `extend_not`: refuses a bit width whose public constant
/// `2^bits - 1` does not fit a field element, instead of leaving the input
/// out by contract.
pub fn extend_not_checked(gates: &mut Vec<Gate>, pub_row: usize, bits: usize) -> (r: Option<usize>)
    requires
        wires_ok(old(gates)@),
        pub_row < old(gates)@.len(),
        targets(old(gates)@, pub_row as int, 0, pub_row as int, 0),
        old(gates)@.len() <= MAX_ROWS,
    ensures
        (1 <= bits <= 254) == (r is Some),
        (r is None) ==> final(gates)@ == old(gates)@,
        (r is Some) ==> wires_ok(final(gates)@) && final(gates)@.len() == old(gates)@.len()
            + spec_num_xors(bits as nat) + 1,
{
    if bits < 1 || bits > 254 {
        return None;
    }
    Some(extend_not(gates, pub_row, bits))
}

/// A generic row that exposes its first cell as a public value.
pub fn create_public_gate(row: usize) -> (g: Gate)
    ensures
        g.kind == GateKind::Generic,
        self_wired(g, row as int),
        g.coeffs.len() == 1 && fe_val(g.coeffs[0]) == 1,
{
    let mut coeffs: Vec<Fe> = Vec::new();
    coeffs.push(fe_from_u64(1));
    Gate { kind: GateKind::Generic, wires: wires_for_row(row), coeffs }
}

/// Appends the 64-bit rotation gadget: one Rot64 combination row holding
/// `[word, rotated, excess, shifted, bound]` with coefficient `2^rot`, then
/// a range-check row for `shifted` and one for `bound = excess + 2^64 -
/// 2^rot`, whose fit in 64 bits caps the excess below `2^rot`. The
/// combination row's spare slot is pinned to the caller's zero row. A
/// rotation amount of zero degenerates to an identity row that is still
/// laid out and checked. Returns the next free row.
pub fn extend_rot(gates: &mut Vec<Gate>, rot: u32, side: RotMode, zero_row: usize) -> (next_row:
    usize)
    requires
        wires_ok(old(gates)@),
        zero_row < old(gates)@.len(),
        targets(old(gates)@, zero_row as int, 0, zero_row as int, 0),
        rot < 64,
        old(gates)@.len() <= MAX_ROWS,
    ensures
        wires_ok(final(gates)@),
        final(gates)@.len() == old(gates)@.len() + 3,
        next_row == final(gates)@.len(),
        final(gates)@[old(gates)@.len() as int].kind == GateKind::Rot64,
        final(gates)@[old(gates)@.len() as int].coeffs.len() == 1,
        fe_val(final(gates)@[old(gates)@.len() as int].coeffs[0]) == pow2(rot_left_amount(rot as nat, side)),
        final(gates)@[old(gates)@.len() as int + 1].kind == GateKind::RangeCheck0,
        final(gates)@[old(gates)@.len() as int + 1].coeffs@.len() == 0,
        final(gates)@[old(gates)@.len() as int + 2].kind == GateKind::RangeCheck0,
        final(gates)@[old(gates)@.len() as int + 2].coeffs@.len() == 0,
        forall|i: int|
            0 <= i < old(gates)@.len() ==> (#[trigger] final(gates)@[i]).kind == old(
                gates,
            )@[i].kind && final(gates)@[i].coeffs == old(gates)@[i].coeffs,
        forall|r: int, c: int|
            0 <= r < old(gates)@.len() && 0 <= c < PERMUTS && !(r == zero_row && c == 0)
                ==> #[trigger] final(gates)@[r].wires[c] == old(gates)@[r].wires[c],
        targets(final(gates)@, old(gates)@.len() as int, 3, old(gates)@.len() as int + 1, 0),
        targets(final(gates)@, old(gates)@.len() as int, 4, old(gates)@.len() as int + 2, 0),
        targets(final(gates)@, old(gates)@.len() as int, 5, zero_row as int, 0),
        forall|c: int|
            0 <= c < PERMUTS && c != 3 && c != 4 && c != 5 ==> targets(
                final(gates)@,
                old(gates)@.len() as int,
                c,
                old(gates)@.len() as int,
                c,
            ),
        forall|r: int, c: int|
            old(gates)@.len() < r < final(gates)@.len() && 0 <= c < PERMUTS && c != 0 ==> targets(
                final(gates)@,
                r,
                c,
                r,
                c,
            ),
{
    let new_row = gates.len();
    let eff = effective_left_rot(rot, side);
    proof {
        lemma2_to64();
        lemma_pow2_strictly_increases(eff as nat, 64);
        lemma_u64_shl_is_mul(1u64, eff as u64);
    }
    let mut coeffs: Vec<Fe> = Vec::new();
    coeffs.push(fe_from_u64(1u64 << (eff as u64)));
    push_gate(gates, GateKind::Rot64, coeffs);
    push_gate(gates, GateKind::RangeCheck0, Vec::new());
    push_gate(gates, GateKind::RangeCheck0, Vec::new());
    let ghost gp = gates@;
    connect_cell_pair(gates, new_row, 3, new_row + 1, 0);
    connect_cell_pair(gates, new_row, 4, new_row + 2, 0);
    connect_cell_pair(gates, new_row, 5, zero_row, 0);
    proof {
        let gf = gates@;
        assert forall|r: int, c: int|
            new_row <= r < gf.len() && 0 <= c < PERMUTS && !(r == new_row && (c == 3 || c == 4 || c
                == 5)) && !(r > new_row && c == 0) implies targets(gf, r, c, r, c) by {
            assert(gf[r].wires[c] == gp[r].wires[c]);
            assert(self_wired(gp[r], r));
        }
    }
    gates.len()
}

/// The rotation circuit of the harness: a public zero row at row 0, then
/// the rotation gadget anchored to it.
pub fn create_rot_gadget(rot: u32, side: RotMode) -> (gates: Vec<Gate>)
    requires
        rot < 64,
    ensures
        wires_ok(gates@),
        gates@.len() == 4,
        targets(gates@, 1, 3, 2, 0),
        targets(gates@, 1, 4, 3, 0),
        targets(gates@, 1, 5, 0, 0),
        forall|c: int| 1 <= c < PERMUTS ==> targets(gates@, 0, c, 0, c),
        forall|c: int|
            0 <= c < PERMUTS && c != 3 && c != 4 && c != 5 ==> targets(gates@, 1, c, 1, c),
        forall|r: int, c: int| 2 <= r < 4 && 1 <= c < PERMUTS ==> targets(gates@, r, c, r, c),
        gates@[0].kind == GateKind::Generic,
        gates@[0].coeffs@.len() == 1 && fe_val(gates@[0].coeffs[0]) == 1,
        gates@[1].kind == GateKind::Rot64,
        gates@[1].coeffs@.len() == 1,
        fe_val(gates@[1].coeffs[0]) == pow2(rot_left_amount(rot as nat, side)),
        gates@[2].kind == GateKind::RangeCheck0,
        gates@[2].coeffs@.len() == 0,
        gates@[3].kind == GateKind::RangeCheck0,
        gates@[3].coeffs@.len() == 0,
{
    let mut gates: Vec<Gate> = Vec::new();
    let g = create_public_gate(0);
    proof {
        lemma_push_self_wired(gates@, g);
    }
    gates.push(g);
    let ghost g1 = gates@;
    extend_rot(&mut gates, rot, side, 0);
    proof {
        assert forall|c: int| 1 <= c < PERMUTS implies targets(gates@, 0, c, 0, c) by {
            assert(gates@[0].wires[c] == g1[0].wires[c]);
            assert(self_wired(g1[0], 0));
        }
    }
    gates
}

} // verus!
verus! {

use crate::bitwise::{nat_and, nat_xor, lemma_and_xor_sum, lemma_mul_one_left};
use vstd::arithmetic::div_mod::{
    lemma_fundamental_div_mod,
    lemma_mod_multiples_vanish,
    lemma_mod_decreases,
    lemma_small_mod,
};

/// One half of a double generic gate is satisfied by the cell values
/// `v0, v1, v2` under coefficients `c`: the linear combination, the product
/// term and the constant sum to zero in the field of modulus `p`.
pub open spec fn generic_half_satisfied(p: nat, c: Seq<nat>, v0: nat, v1: nat, v2: nat) -> bool {
    (c[0] * v0 + c[1] * v1 + c[2] * v2 + c[3] * ((v0 * v1) % p) + c[4]) % p == 0
}

/// A double generic gate is satisfied by the first six cells of its row.
pub open spec fn double_generic_satisfied(f: FieldId, coeffs: Seq<Fe>, v: Seq<nat>) -> bool {
    &&& generic_half_satisfied(
        field_modulus(f),
        coeffs.subrange(0, 5).map_values(|x: Fe| fe_val(x)),
        v[0],
        v[1],
        v[2],
    )
    &&& generic_half_satisfied(
        field_modulus(f),
        coeffs.subrange(5, 10).map_values(|x: Fe| fe_val(x)),
        v[3],
        v[4],
        v[5],
    )
}

/// The AND gadget's generic row is satisfied by what the synthesizer
/// writes: for any two canonical operands, the row
/// `[x, y, (x + y) mod p, (x + y) mod p, x xor y, x and y]` meets both
/// halves of the row's constraint under the gadget's coefficients, because
/// the sum of two naturals is twice their AND plus their XOR.
pub proof fn lemma_and_row_satisfies_generic(f: FieldId, coeffs: Seq<Fe>, x: nat, y: nat)
    requires
        and_coeffs_ok(f, coeffs),
        x < field_modulus(f),
        y < field_modulus(f),
    ensures
        double_generic_satisfied(
            f,
            coeffs,
            seq![
                x,
                y,
                (x + y) % field_modulus(f),
                (x + y) % field_modulus(f),
                nat_xor(x, y),
                nat_and(x, y),
            ],
        ),
{
    let p = field_modulus(f);
    let s = (x + y) % p;
    let xr = nat_xor(x, y);
    let a = nat_and(x, y);
    let q = (x + y) as int / p as int;
    lemma_fundamental_div_mod((x + y) as int, p as int);
    lemma_mod_decreases((x + y) as nat, p);
    lemma_and_xor_sum(x, y);
    let c1 = coeffs.subrange(0, 5).map_values(|e: Fe| fe_val(e));
    let c2 = coeffs.subrange(5, 10).map_values(|e: Fe| fe_val(e));
    assert(c1[0] == 1 && c1[1] == 1 && c1[2] == p - 1 && c1[3] == 0 && c1[4] == 0);
    assert(c2[0] == 1 && c2[1] == p - 1 && c2[2] == p - 2 && c2[3] == 0 && c2[4] == 0);
    lemma_mul_one_left(1, x);
    lemma_mul_one_left(1, y);
    lemma_mul_one_left(1, s);
    crate::bitwise::lemma_zero_product(0, (x * y) % p);
    crate::bitwise::lemma_zero_product(0, (s * xr) % p);
    assert(c1[0] * x + c1[1] * y + c1[2] * s + c1[3] * ((x * y) % p) + c1[4] == x + y + (p - 1)
        * s) by {
        assert(c1[2] * s == (p - 1) * s);
    }
    assert((x + y + (p - 1) * s) % (p as int) == 0) by {
        assert((p - 1) * s == p * s - s) by (nonlinear_arith);
        assert(x + y == p * q + s);
        assert(x + y + (p - 1) * s == p * (q + s)) by {
            assert(p * q + p * s == p * (q + s)) by (nonlinear_arith);
        }
        lemma_mod_multiples_vanish((q + s) as int, 0, p as int);
        lemma_small_mod(0, p);
    }
    assert(c2[0] * s + c2[1] * xr + c2[2] * a + c2[3] * ((s * xr) % p) + c2[4] == s + (p - 1) * xr
        + (p - 2) * a);
    assert((s + (p - 1) * xr + (p - 2) * a) % (p as int) == 0) by {
        assert((p - 1) * xr == p * xr - xr) by (nonlinear_arith);
        assert((p - 2) * a == p * a - 2 * a) by (nonlinear_arith);
        assert(x + y == 2 * a + xr);
        assert(x + y == p * q + s);
        assert(s + (p - 1) * xr + (p - 2) * a + p * q == p * (xr + a)) by {
            assert(p * xr + p * a == p * (xr + a)) by (nonlinear_arith);
        }
        assert(s + (p - 1) * xr + (p - 2) * a == p * ((xr + a) as int - q)) by {
            assert(p as int * (xr + a) as int - p as int * q == p as int * ((xr + a) as int - q))
                by (nonlinear_arith);
        }
        lemma_mod_multiples_vanish((xr + a) as int - q, 0, p as int);
        lemma_small_mod(0, p);
    }
}

} // verus!
