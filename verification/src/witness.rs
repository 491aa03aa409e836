//! Witness synthesizers: pure functions mirroring each gadget builder.
//! Given concrete field-element operands they compute every intermediate
//! value the gadget's rows require and write them into the witness columns
//! at the same row offsets the gadget builder used.

use vstd::prelude::*;

verus! {

use vstd::arithmetic::power2::{pow2, lemma_pow2_adds, lemma_pow2_pos, lemma2_to64};
use vstd::arithmetic::div_mod::{lemma_div_denominator, lemma_fundamental_div_mod_converse};
use crate::fe::{Fe, fe_val, fe_zero, fe_from_u64, fe_shr16, fe_nibble};
use crate::gate::COLUMNS;

/// A witness under construction: one ordered column of field elements per
/// witness column, all of one length, one entry per row.
#[derive(Clone, Debug)]
pub struct Witness {
    pub cols: Vec<Vec<Fe>>,
}

/// Number of rows of a witness.
pub open spec fn wit_rows(w: Witness) -> nat {
    w.cols@[0]@.len()
}

/// A witness is well formed when it has exactly `COLUMNS` columns of equal
/// length.
pub open spec fn wit_wf(w: Witness) -> bool {
    &&& w.cols@.len() == COLUMNS
    &&& forall|i: int| 0 <= i < COLUMNS ==> (#[trigger] w.cols@[i])@.len() == wit_rows(w)
}

/// The value of the cell in column `c`, row `r`.
pub open spec fn cellv(w: Witness, c: int, r: int) -> nat {
    fe_val(w.cols@[c]@[r])
}

/// The field element in column `c`, row `r`.
pub open spec fn cellf(w: Witness, c: int, r: int) -> Fe {
    w.cols@[c]@[r]
}

/// A fresh all-zero witness of `rows` rows.
pub fn witness_zero(rows: usize) -> (w: Witness)
    ensures
        wit_wf(w),
        wit_rows(w) == rows,
        forall|c: int, r: int| 0 <= c < COLUMNS && 0 <= r < rows ==> cellv(w, c, r) == 0,
{
    let mut cols: Vec<Vec<Fe>> = Vec::new();
    let mut c: usize = 0;
    while c < COLUMNS
        invariant
            c <= COLUMNS,
            cols@.len() == c,
            forall|i: int|
                0 <= i < c ==> (#[trigger] cols@[i])@.len() == rows && forall|r: int|
                    0 <= r < rows ==> fe_val(#[trigger] cols@[i]@[r]) == 0,
        decreases COLUMNS - c,
    {
        let mut col: Vec<Fe> = Vec::new();
        let mut r: usize = 0;
        while r < rows
            invariant
                r <= rows,
                col@.len() == r,
                forall|k: int| 0 <= k < r ==> fe_val(#[trigger] col@[k]) == 0,
            decreases rows - r,
        {
            col.push(fe_zero());
            r += 1;
        }
        cols.push(col);
        c += 1;
    }
    Witness { cols }
}

/// Writes one cell, leaving every other cell alone.
pub fn set_cell(w: &mut Witness, c: usize, r: usize, v: Fe)
    requires
        c < old(w).cols@.len(),
        r < old(w).cols@[c as int]@.len(),
    ensures
        final(w).cols@.len() == old(w).cols@.len(),
        forall|j: int|
            0 <= j < old(w).cols@.len() ==> (#[trigger] final(w).cols@[j])@.len()
                == old(w).cols@[j]@.len(),
        cellf(*final(w), c as int, r as int) == v,
        forall|j: int, k: int|
            0 <= j < old(w).cols@.len() && 0 <= k < old(w).cols@[j]@.len() && !(j == c && k
                == r) ==> #[trigger] cellf(*final(w), j, k) == cellf(*old(w), j, k),
{
    let ghost w0 = *w;
    w.cols[c][r] = v;
    proof {
        assert(w.cols@[c as int]@ == w0.cols@[c as int]@.update(r as int, v));
        assert forall|j: int, k: int|
            0 <= j < w0.cols@.len() && 0 <= k < w0.cols@[j]@.len() && !(j == c && k == r) implies #[trigger] cellf(
            *w,
            j,
            k,
        ) == cellf(w0, j, k) by {
            if j == c {
                assert(w.cols@[j]@[k] == w0.cols@[j]@[k]);
            } else {
                assert(w.cols@[j] == w0.cols@[j]);
            }
        }
    }
}

/// The value a cell of one XOR chunk row holds, given the row's running
/// operand remainders `a`, `b` and output remainder `o`: the remainders in
/// the first three columns, then the four 4-bit slices of each.
pub open spec fn xor_row_cell(a: nat, b: nat, o: nat, c: int) -> nat {
    if c == 0 {
        a
    } else if c == 1 {
        b
    } else if c == 2 {
        o
    } else if c < 7 {
        (a / pow2((4 * (c - 3)) as nat)) % 16
    } else if c < 11 {
        (b / pow2((4 * (c - 7)) as nat)) % 16
    } else {
        (o / pow2((4 * (c - 11)) as nat)) % 16
    }
}

/// The value a cell of the XOR gadget holds, `i` chunk rows in: the row's
/// remainders are the operands shifted right by `16 * i` bits.
pub open spec fn xor_cell(v1: nat, v2: nat, vout: nat, i: nat, c: int) -> nat {
    xor_row_cell(v1 / pow2(16 * i), v2 / pow2(16 * i), vout / pow2(16 * i), c)
}

/// All cells of row `r` are zero.
pub open spec fn row_zero(w: Witness, r: int) -> bool {
    forall|c: int| 0 <= c < COLUMNS ==> #[trigger] cellv(w, c, r) == 0
}

/// The whole XOR gadget region: `nx` chunk rows from `curr` on, then one
/// all-zero terminating row.
pub open spec fn xor_region_ok(
    w: Witness,
    curr: int,
    v1: nat,
    v2: nat,
    vout: nat,
    nx: nat,
) -> bool {
    &&& forall|r: int, c: int|
        curr <= r < curr + nx && 0 <= c < COLUMNS ==> #[trigger] cellv(w, c, r) == xor_cell(
            v1,
            v2,
            vout,
            (r - curr) as nat,
            c,
        )
    &&& row_zero(w, curr + nx)
}

/// Dividing by `pow2(a)` and then by `pow2(b)` divides by `pow2(a + b)`.
proof fn lemma_pow2_div_div(v: nat, a: nat, b: nat)
    ensures
        (v / pow2(a)) / pow2(b) == v / pow2(a + b),
{
    lemma_pow2_pos(a);
    lemma_pow2_pos(b);
    lemma_div_denominator(v as int, pow2(a) as int, pow2(b) as int);
    lemma_pow2_adds(a, b);
}

/// Writes one XOR chunk row at `row` from the running remainders.
fn write_xor_row(w: &mut Witness, row: usize, ra: Fe, rb: Fe, ro: Fe)
    requires
        wit_wf(*old(w)),
        row < wit_rows(*old(w)),
    ensures
        wit_wf(*final(w)),
        wit_rows(*final(w)) == wit_rows(*old(w)),
        forall|c: int, r: int|
            0 <= c < COLUMNS && 0 <= r < wit_rows(*old(w)) && r != row ==> #[trigger] cellf(
                *final(w),
                c,
                r,
            ) == cellf(*old(w), c, r),
        forall|c: int|
            0 <= c < COLUMNS ==> #[trigger] cellv(*final(w), c, row as int) == xor_row_cell(
                fe_val(ra),
                fe_val(rb),
                fe_val(ro),
                c,
            ),
{
    let mut vals: Vec<Fe> = Vec::new();
    vals.push(ra);
    vals.push(rb);
    vals.push(ro);
    vals.push(fe_from_u64(fe_nibble(ra, 0)));
    vals.push(fe_from_u64(fe_nibble(ra, 1)));
    vals.push(fe_from_u64(fe_nibble(ra, 2)));
    vals.push(fe_from_u64(fe_nibble(ra, 3)));
    vals.push(fe_from_u64(fe_nibble(rb, 0)));
    vals.push(fe_from_u64(fe_nibble(rb, 1)));
    vals.push(fe_from_u64(fe_nibble(rb, 2)));
    vals.push(fe_from_u64(fe_nibble(rb, 3)));
    vals.push(fe_from_u64(fe_nibble(ro, 0)));
    vals.push(fe_from_u64(fe_nibble(ro, 1)));
    vals.push(fe_from_u64(fe_nibble(ro, 2)));
    vals.push(fe_from_u64(fe_nibble(ro, 3)));
    proof {
        assert forall|c: int| 0 <= c < COLUMNS implies fe_val(#[trigger] vals@[c]) == xor_row_cell(
            fe_val(ra),
            fe_val(rb),
            fe_val(ro),
            c,
        ) by {
            if c == 0 {
                assert(vals@[0] == ra);
            } else if c == 1 {
                assert(vals@[1] == rb);
            } else if c == 2 {
                assert(vals@[2] == ro);
            }
        }
    }
    let mut c: usize = 0;
    while c < COLUMNS
        invariant
            c <= COLUMNS,
            vals@.len() == COLUMNS,
            wit_wf(*w),
            row < wit_rows(*w),
            wit_rows(*w) == wit_rows(*old(w)),
            forall|j: int|
                0 <= j < COLUMNS ==> fe_val(#[trigger] vals@[j]) == xor_row_cell(
                    fe_val(ra),
                    fe_val(rb),
                    fe_val(ro),
                    j,
                ),
            forall|j: int, r: int|
                0 <= j < COLUMNS && 0 <= r < wit_rows(*old(w)) && r != row ==> #[trigger] cellf(
                    *w,
                    j,
                    r,
                ) == cellf(*old(w), j, r),
            forall|j: int| 0 <= j < c ==> #[trigger] cellf(*w, j, row as int) == vals@[j],
        decreases COLUMNS - c,
    {
        let ghost wp = *w;
        let v = vals[c];
        set_cell(w, c, row, v);
        proof {
            assert forall|j: int| 0 <= j < c + 1 implies #[trigger] cellf(*w, j, row as int)
                == vals@[j] by {
                if j < c {
                    assert(cellf(*w, j, row as int) == cellf(wp, j, row as int));
                }
            }
            assert forall|j: int, r: int|
                0 <= j < COLUMNS && 0 <= r < wit_rows(*old(w)) && r != row implies #[trigger] cellf(
                *w,
                j,
                r,
            ) == cellf(*old(w), j, r) by {
                assert(cellf(*w, j, r) == cellf(wp, j, r));
            }
        }
        c += 1;
    }
    proof {
        assert forall|j: int| 0 <= j < COLUMNS implies #[trigger] cellv(*w, j, row as int)
            == xor_row_cell(fe_val(ra), fe_val(rb), fe_val(ro), j) by {
            assert(cellf(*w, j, row as int) == vals@[j]);
        }
    }
}

/// Writes one all-zero row at `row`.
fn write_zero_row(w: &mut Witness, row: usize)
    requires
        wit_wf(*old(w)),
        row < wit_rows(*old(w)),
    ensures
        wit_wf(*final(w)),
        wit_rows(*final(w)) == wit_rows(*old(w)),
        forall|c: int, r: int|
            0 <= c < COLUMNS && 0 <= r < wit_rows(*old(w)) && r != row ==> #[trigger] cellf(
                *final(w),
                c,
                r,
            ) == cellf(*old(w), c, r),
        row_zero(*final(w), row as int),
{
    let mut c: usize = 0;
    while c < COLUMNS
        invariant
            c <= COLUMNS,
            wit_wf(*w),
            row < wit_rows(*w),
            wit_rows(*w) == wit_rows(*old(w)),
            forall|j: int, r: int|
                0 <= j < COLUMNS && 0 <= r < wit_rows(*old(w)) && r != row ==> #[trigger] cellf(
                    *w,
                    j,
                    r,
                ) == cellf(*old(w), j, r),
            forall|j: int| 0 <= j < c ==> #[trigger] cellv(*w, j, row as int) == 0,
        decreases COLUMNS - c,
    {
        let ghost wp = *w;
        let z = fe_zero();
        set_cell(w, c, row, z);
        proof {
            assert forall|j: int| 0 <= j < c + 1 implies #[trigger] cellv(*w, j, row as int)
                == 0 by {
                if j < c {
                    assert(cellf(*w, j, row as int) == cellf(wp, j, row as int));
                    assert(cellv(wp, j, row as int) == 0);
                } else {
                    assert(cellf(*w, j, row as int) == z);
                }
            }
            assert forall|j: int, r: int|
                0 <= j < COLUMNS && 0 <= r < wit_rows(*old(w)) && r != row implies #[trigger] cellf(
                *w,
                j,
                r,
            ) == cellf(*old(w), j, r) by {
                assert(cellf(*w, j, r) == cellf(wp, j, r));
            }
        }
        c += 1;
    }
}

/// Fills the XOR gadget's witness region starting at `curr_row`: for each
/// 16-bit slice one chunk row holding the operand remainders and their
/// 4-bit decompositions, then the all-zero terminating row. `words` carries
/// the two inputs and the output, as the matching gadget wires them.
pub fn init_xor(w: &mut Witness, curr_row: usize, bits: usize, words: (Fe, Fe, Fe))
    requires
        wit_wf(*old(w)),
        1 <= bits <= crate::gadgets::MAX_ROWS,
        curr_row + crate::gadgets::spec_num_xors(bits as nat) + 1 <= wit_rows(*old(w)),
    ensures
        wit_wf(*final(w)),
        wit_rows(*final(w)) == wit_rows(*old(w)),
        xor_region_ok(
            *final(w),
            curr_row as int,
            fe_val(words.0),
            fe_val(words.1),
            fe_val(words.2),
            crate::gadgets::spec_num_xors(bits as nat),
        ),
        forall|c: int, r: int|
            0 <= c < COLUMNS && 0 <= r < wit_rows(*old(w)) && !(curr_row <= r <= curr_row
                + crate::gadgets::spec_num_xors(bits as nat)) ==> cellf(*final(w), c, r) == cellf(
                *old(w),
                c,
                r,
            ),
{
    let nx = crate::gadgets::num_xors(bits);
    let mut ra = words.0;
    let mut rb = words.1;
    let mut ro = words.2;
    let ghost v1 = fe_val(words.0);
    let ghost v2 = fe_val(words.1);
    let ghost v3 = fe_val(words.2);
    let mut i: usize = 0;
    proof {
        lemma2_to64();
        lemma_pow2_div_div(v1, 0, 0);
        assert(pow2(0) == 1);
        assert(v1 / 1 == v1 && v2 / 1 == v2 && v3 / 1 == v3) by {
            lemma_fundamental_div_mod_converse(v1 as int, 1, v1 as int, 0);
            lemma_fundamental_div_mod_converse(v2 as int, 1, v2 as int, 0);
            lemma_fundamental_div_mod_converse(v3 as int, 1, v3 as int, 0);
        }
    }
    let nrows = w.cols[0].len();
    while i < nx
        invariant
            i <= nx,
            wit_wf(*w),
            wit_rows(*w) == wit_rows(*old(w)),
            nrows == wit_rows(*old(w)),
            curr_row + nx + 1 <= nrows,
            fe_val(ra) == v1 / pow2((16 * i) as nat),
            fe_val(rb) == v2 / pow2((16 * i) as nat),
            fe_val(ro) == v3 / pow2((16 * i) as nat),
            forall|r: int, c: int|
                curr_row <= r < curr_row + i && 0 <= c < COLUMNS ==> #[trigger] cellv(*w, c, r)
                    == xor_cell(v1, v2, v3, (r - curr_row) as nat, c),
            forall|c: int, r: int|
                0 <= c < COLUMNS && 0 <= r < wit_rows(*old(w)) && !(curr_row <= r < curr_row
                    + i) ==> cellf(*w, c, r) == cellf(*old(w), c, r),
        decreases nx - i,
    {
        let ghost wp = *w;
        write_xor_row(w, curr_row + i, ra, rb, ro);
        proof {
            lemma2_to64();
            assert forall|r: int, c: int|
                curr_row <= r < curr_row + i + 1 && 0 <= c < COLUMNS implies cellv(*w, c, r)
                == xor_cell(v1, v2, v3, (r - curr_row) as nat, c) by {
                if r == curr_row + i {
                    assert(cellv(*w, c, r) == xor_row_cell(
                        fe_val(ra),
                        fe_val(rb),
                        fe_val(ro),
                        c,
                    ));
                    assert(xor_cell(v1, v2, v3, i as nat, c) == xor_row_cell(
                        v1 / pow2(16 * (i as nat)),
                        v2 / pow2(16 * (i as nat)),
                        v3 / pow2(16 * (i as nat)),
                        c,
                    ));
                } else {
                    assert(cellf(*w, c, r) == cellf(wp, c, r));
                    assert(cellv(wp, c, r) == xor_cell(v1, v2, v3, (r - curr_row) as nat, c));
                }
            }
        }
        let ra2 = fe_shr16(ra);
        let rb2 = fe_shr16(rb);
        let ro2 = fe_shr16(ro);
        proof {
            lemma_pow2_div_div(v1, (16 * i) as nat, 16);
            lemma_pow2_div_div(v2, (16 * i) as nat, 16);
            lemma_pow2_div_div(v3, (16 * i) as nat, 16);
            assert(pow2(16) == 0x10000);
        }
        ra = ra2;
        rb = rb2;
        ro = ro2;
        i += 1;
    }
    let ghost wl = *w;
    write_zero_row(w, curr_row + nx);
    proof {
        assert forall|r: int, c: int|
            curr_row <= r < curr_row + nx && 0 <= c < COLUMNS implies #[trigger] cellv(*w, c, r)
            == xor_cell(v1, v2, v3, (r - curr_row) as nat, c) by {
            assert(cellf(*w, c, r) == cellf(wl, c, r));
            assert(cellv(wl, c, r) == xor_cell(v1, v2, v3, (r - curr_row) as nat, c));
        }
    }
}

} // verus!
verus! {

use crate::fe::{
    FieldId,
    fe_xor,
    fe_and,
    fe_add_mod,
    fe_mask,
    fe_lt_pow2,
    fe_is_canonical,
    field_modulus,
};
use crate::bitwise::{nat_and, nat_xor, lemma_nat_xor_all_ones};
use crate::gadgets::{MAX_ROWS, RotMode, rot_left_amount, effective_left_rot, num_xors, spec_num_xors};
use vstd::arithmetic::power2::lemma_pow2_strictly_increases;
use vstd::bits::{lemma_u64_shr_is_div, lemma_u64_shl_is_mul, lemma_u64_low_bits_mask_is_mod,
    lemma_low_bits_mask_values};

/// Writes the first `vals.len()` cells of row `row`, leaving the rest of the
/// row and every other row alone.
fn write_row_prefix(w: &mut Witness, row: usize, vals: &Vec<Fe>)
    requires
        wit_wf(*old(w)),
        row < wit_rows(*old(w)),
        vals@.len() <= COLUMNS,
    ensures
        wit_wf(*final(w)),
        wit_rows(*final(w)) == wit_rows(*old(w)),
        forall|c: int, r: int|
            0 <= c < COLUMNS && 0 <= r < wit_rows(*old(w)) && r != row ==> #[trigger] cellf(
                *final(w),
                c,
                r,
            ) == cellf(*old(w), c, r),
        forall|j: int| 0 <= j < vals@.len() ==> #[trigger] cellf(*final(w), j, row as int) == vals@[j],
        forall|j: int|
            vals@.len() <= j < COLUMNS ==> #[trigger] cellf(*final(w), j, row as int) == cellf(
                *old(w),
                j,
                row as int,
            ),
{
    let n = vals.len();
    let mut c: usize = 0;
    while c < n
        invariant
            c <= n,
            n == vals@.len(),
            n <= COLUMNS,
            wit_wf(*w),
            row < wit_rows(*w),
            wit_rows(*w) == wit_rows(*old(w)),
            forall|j: int, r: int|
                0 <= j < COLUMNS && 0 <= r < wit_rows(*old(w)) && r != row ==> #[trigger] cellf(
                    *w,
                    j,
                    r,
                ) == cellf(*old(w), j, r),
            forall|j: int| 0 <= j < c ==> #[trigger] cellf(*w, j, row as int) == vals@[j],
            forall|j: int|
                c <= j < COLUMNS ==> #[trigger] cellf(*w, j, row as int) == cellf(
                    *old(w),
                    j,
                    row as int,
                ),
        decreases n - c,
    {
        let ghost wp = *w;
        let v = vals[c];
        set_cell(w, c, row, v);
        proof {
            assert forall|j: int| 0 <= j < c + 1 implies #[trigger] cellf(*w, j, row as int)
                == vals@[j] by {
                if j < c {
                    assert(cellf(*w, j, row as int) == cellf(wp, j, row as int));
                }
            }
            assert forall|j: int, r: int|
                0 <= j < COLUMNS && 0 <= r < wit_rows(*old(w)) && r != row implies #[trigger] cellf(
                *w,
                j,
                r,
            ) == cellf(*old(w), j, r) by {
                assert(cellf(*w, j, r) == cellf(wp, j, r));
            }
            assert forall|j: int| c + 1 <= j < COLUMNS implies #[trigger] cellf(*w, j, row as int)
                == cellf(*old(w), j, row as int) by {
                assert(cellf(*w, j, row as int) == cellf(wp, j, row as int));
            }
        }
        c += 1;
    }
}

/// Multiplying by one leaves a value alone.
proof fn lemma_mul_by_one(a: nat, b: nat)
    requires
        b == 1,
    ensures
        a * b == a,
{
    assert(a * b == a) by (nonlinear_arith)
        requires
            b == 1,
    ;
}

/// A product with a zero factor vanishes.
proof fn lemma_mul_of_zero(a: nat, b: nat)
    requires
        a == 0,
    ensures
        a * b == 0,
{
    assert(a * b == 0) by (nonlinear_arith)
        requires
            a == 0,
    ;
}

/// Dividing by one leaves a value alone.
pub proof fn lemma_div_pow2_zero(v: nat)
    ensures
        v / pow2(0) == v,
{
    lemma2_to64();
    lemma_fundamental_div_mod_converse(v as int, 1, v as int, 0);
}

/// The witness of the XOR gadget for `input1 ^ input2` over `bits` bits,
/// starting at row 0: the chunk rows and the terminating zero row. The
/// output column of the first row carries the whole XOR result.
pub fn create_xor_witness(input1: Fe, input2: Fe, bits: usize) -> (w: Witness)
    requires
        1 <= bits <= MAX_ROWS,
    ensures
        wit_wf(w),
        wit_rows(w) == spec_num_xors(bits as nat) + 1,
        xor_region_ok(
            w,
            0,
            fe_val(input1),
            fe_val(input2),
            nat_xor(fe_val(input1), fe_val(input2)),
            spec_num_xors(bits as nat),
        ),
        cellv(w, 2, 0) == nat_xor(fe_val(input1), fe_val(input2)),
{
    let nx = num_xors(bits);
    let mut w = witness_zero(nx + 1);
    let out = fe_xor(input1, input2);
    init_xor(&mut w, 0, bits, (input1, input2, out));
    proof {
        lemma_div_pow2_zero(fe_val(out));
        assert(cellv(w, 2, 0) == xor_cell(
            fe_val(input1),
            fe_val(input2),
            fe_val(out),
            0nat,
            2,
        ));
    }
    w
}

/// The witness of the AND gadget for `input1 & input2` over `bytes` bytes:
/// the XOR gadget region, then the double generic row holding
/// `[x, y, x + y, x + y, x ^ y, x & y]`, where the sum is taken in the
/// field `f`. Inputs must fit the declared width and be canonical field
/// elements.
pub fn create_and_witness(f: FieldId, input1: Fe, input2: Fe, bytes: usize) -> (w: Witness)
    requires
        1 <= bytes,
        bytes * 8 <= MAX_ROWS,
        fe_is_canonical(f, input1),
        fe_is_canonical(f, input2),
        fe_val(input1) < pow2((bytes * 8) as nat),
        fe_val(input2) < pow2((bytes * 8) as nat),
    ensures
        wit_wf(w),
        wit_rows(w) == spec_num_xors((bytes * 8) as nat) + 2,
        xor_region_ok(
            w,
            0,
            fe_val(input1),
            fe_val(input2),
            nat_xor(fe_val(input1), fe_val(input2)),
            spec_num_xors((bytes * 8) as nat),
        ),
        cellv(w, 0, spec_num_xors((bytes * 8) as nat) as int + 1) == fe_val(input1),
        cellv(w, 1, spec_num_xors((bytes * 8) as nat) as int + 1) == fe_val(input2),
        cellv(w, 2, spec_num_xors((bytes * 8) as nat) as int + 1) == (fe_val(input1) + fe_val(
            input2,
        )) % field_modulus(f),
        cellv(w, 3, spec_num_xors((bytes * 8) as nat) as int + 1) == (fe_val(input1) + fe_val(
            input2,
        )) % field_modulus(f),
        cellv(w, 4, spec_num_xors((bytes * 8) as nat) as int + 1) == nat_xor(
            fe_val(input1),
            fe_val(input2),
        ),
        cellv(w, 5, spec_num_xors((bytes * 8) as nat) as int + 1) == nat_and(
            fe_val(input1),
            fe_val(input2),
        ),
        forall|c: int|
            6 <= c < COLUMNS ==> #[trigger] cellv(
                w,
                c,
                spec_num_xors((bytes * 8) as nat) as int + 1,
            ) == 0,
{
    let bits = bytes * 8;
    let nx = num_xors(bits);
    let and_row = nx + 1;
    let mut w = witness_zero(and_row + 1);
    let ghost w0 = w;
    let out = fe_xor(input1, input2);
    let sum = fe_add_mod(f, input1, input2);
    let conj = fe_and(input1, input2);
    init_xor(&mut w, 0, bits, (input1, input2, out));
    let ghost w1 = w;
    let mut vals: Vec<Fe> = Vec::new();
    vals.push(input1);
    vals.push(input2);
    vals.push(sum);
    vals.push(sum);
    vals.push(out);
    vals.push(conj);
    write_row_prefix(&mut w, and_row, &vals);
    proof {
        assert(cellf(w, 0, and_row as int) == input1);
        assert(cellf(w, 1, and_row as int) == input2);
        assert(cellf(w, 2, and_row as int) == sum);
        assert(cellf(w, 3, and_row as int) == sum);
        assert(cellf(w, 4, and_row as int) == out);
        assert(cellf(w, 5, and_row as int) == conj);
        assert forall|c: int| 6 <= c < COLUMNS implies #[trigger] cellv(w, c, and_row as int)
            == 0 by {
            assert(cellf(w, c, and_row as int) == cellf(w1, c, and_row as int));
            assert(cellf(w1, c, and_row as int) == cellf(w0, c, and_row as int));
            assert(cellv(w0, c, and_row as int) == 0);
        }
        assert forall|r: int, c: int|
            0 <= r < nx && 0 <= c < COLUMNS implies #[trigger] cellv(w, c, r) == xor_cell(
            fe_val(input1),
            fe_val(input2),
            fe_val(out),
            (r - 0) as nat,
            c,
        ) by {
            assert(cellf(w, c, r) == cellf(w1, c, r));
            assert(cellv(w1, c, r) == xor_cell(
                fe_val(input1),
                fe_val(input2),
                fe_val(out),
                (r - 0) as nat,
                c,
            ));
        }
        assert forall|c: int| 0 <= c < COLUMNS implies #[trigger] cellv(w, c, nx as int) == 0 by {
            assert(cellf(w, c, nx as int) == cellf(w1, c, nx as int));
            assert(cellv(w1, c, nx as int) == 0);
        }
    }
    w
}

/// Checked form of `create_and_witness`: refuses operands whose bit length
/// exceeds the declared byte width, the condition under which the gadget's
/// rows could not represent them.
pub fn create_and_witness_checked(f: FieldId, input1: Fe, input2: Fe, bytes: usize) -> (r: Option<
    Witness,
>)
    requires
        fe_is_canonical(f, input1),
        fe_is_canonical(f, input2),
    ensures
        (r is Some) == (1 <= bytes && bytes * 8 <= MAX_ROWS && fe_val(input1) < pow2(
            (bytes * 8) as nat,
        ) && fe_val(input2) < pow2((bytes * 8) as nat)),
        (r is Some) ==> wit_wf(r.unwrap()) && cellv(
            r.unwrap(),
            5,
            spec_num_xors((bytes * 8) as nat) as int + 1,
        ) == nat_and(fe_val(input1), fe_val(input2)),
{
    if bytes < 1 || bytes > MAX_ROWS / 8 {
        return None;
    }
    let bits = bytes * 8;
    if !fe_lt_pow2(input1, bits) || !fe_lt_pow2(input2, bits) {
        return None;
    }
    Some(create_and_witness(f, input1, input2, bytes))
}

/// The witness of the NOT gadget over `bits` bits: a public row holding the
/// all-ones constant `2^bits - 1`, then the XOR gadget region for
/// `input ^ (2^bits - 1)`, whose output column is the bitwise complement
/// `2^bits - 1 - input`.
pub fn create_not_witness(input: Fe, bits: usize) -> (w: Witness)
    requires
        1 <= bits <= 254,
        fe_val(input) < pow2(bits as nat),
    ensures
        wit_wf(w),
        wit_rows(w) == spec_num_xors(bits as nat) + 2,
        cellv(w, 0, 0) == pow2(bits as nat) - 1,
        xor_region_ok(
            w,
            1,
            fe_val(input),
            (pow2(bits as nat) - 1) as nat,
            (pow2(bits as nat) - 1 - fe_val(input)) as nat,
            spec_num_xors(bits as nat),
        ),
        cellv(w, 2, 1) == pow2(bits as nat) - 1 - fe_val(input),
{
    let nx = num_xors(bits);
    let mut w = witness_zero(nx + 2);
    let ghost w0 = w;
    let mask = fe_mask(bits);
    let out = fe_xor(input, mask);
    proof {
        lemma_nat_xor_all_ones(fe_val(input), bits as nat);
    }
    init_xor(&mut w, 1, bits, (input, mask, out));
    let ghost w1 = w;
    set_cell(&mut w, 0, 0, mask);
    proof {
        assert(cellf(w, 0, 0) == mask);
        assert forall|r: int, c: int|
            1 <= r < 1 + nx && 0 <= c < COLUMNS implies #[trigger] cellv(w, c, r) == xor_cell(
            fe_val(input),
            fe_val(mask),
            fe_val(out),
            (r - 1) as nat,
            c,
        ) by {
            assert(cellf(w, c, r) == cellf(w1, c, r));
            assert(cellv(w1, c, r) == xor_cell(
                fe_val(input),
                fe_val(mask),
                fe_val(out),
                (r - 1) as nat,
                c,
            ));
        }
        assert forall|c: int| 0 <= c < COLUMNS implies #[trigger] cellv(w, c, 1 + nx as int)
            == 0 by {
            assert(cellf(w, c, 1 + nx as int) == cellf(w1, c, 1 + nx as int));
            assert(cellv(w1, c, 1 + nx as int) == 0);
        }
        lemma_div_pow2_zero(fe_val(out));
        assert(cellv(w, 2, 1) == xor_cell(
            fe_val(input),
            fe_val(mask),
            fe_val(out),
            0nat,
            2,
        ));
    }
    w
}

} // verus!
verus! {

/// A 64-bit word rotated left by `r < 64` bits: the low `64 - r` bits move
/// up by `r`, the high `r` bits wrap to the bottom.
pub open spec fn rotl64(w: nat, r: nat) -> nat {
    (w % pow2((64 - r) as nat)) * pow2(r) + w / pow2((64 - r) as nat)
}

/// A 64-bit word rotated right by `r < 64` bits.
pub open spec fn rotr64(w: nat, r: nat) -> nat {
    (w % pow2(r)) * pow2((64 - r) as nat) + w / pow2(r)
}

/// The rotation the gadget computes.
pub open spec fn rot64_spec(w: nat, r: nat, side: RotMode) -> nat {
    if side == RotMode::Left {
        rotl64(w, r)
    } else {
        rotr64(w, r)
    }
}

/// One 16-bit slice of a 64-bit word.
fn chunk16(v: u64, k: usize) -> (r: u64)
    requires
        k < 4,
    ensures
        r as nat == (v as nat / pow2((16 * k) as nat)) % 0x10000,
{
    proof {
        lemma2_to64();
        lemma_low_bits_mask_values();
    }
    if k == 0 {
        proof {
            lemma_div_pow2_zero(v as nat);
            lemma_u64_low_bits_mask_is_mod(v, 16);
        }
        v & 0xffff
    } else if k == 1 {
        proof {
            lemma_u64_shr_is_div(v, 16);
            lemma_u64_low_bits_mask_is_mod(v >> 16, 16);
        }
        (v >> 16) & 0xffff
    } else if k == 2 {
        proof {
            lemma_u64_shr_is_div(v, 32);
            lemma_u64_low_bits_mask_is_mod(v >> 32, 16);
        }
        (v >> 32) & 0xffff
    } else {
        proof {
            lemma_u64_shr_is_div(v, 48);
            lemma_u64_low_bits_mask_is_mod(v >> 48, 16);
        }
        (v >> 48) & 0xffff
    }
}

/// Splits a 64-bit word for a left rotation by `sh`: the low part moved up
/// and the wrapped high part. Their sum is the rotated word and fits 64
/// bits, since the parts occupy disjoint bit ranges.
fn rot_parts(word: u64, sh: u64) -> (r: (u64, u64))
    requires
        sh < 64,
    ensures
        r.0 as nat == (word as nat % pow2((64 - sh) as nat)) * pow2(sh as nat),
        r.1 as nat == word as nat / pow2((64 - sh) as nat),
        r.1 < pow2(sh as nat),
        (r.0 as nat + r.1 as nat) < pow2(64),
{
    proof {
        lemma2_to64();
        lemma_low_bits_mask_values();
    }
    if sh == 0 {
        proof {
            vstd::arithmetic::div_mod::lemma_small_mod(word as nat, pow2(64));
            lemma_fundamental_div_mod_converse(word as int, pow2(64) as int, 0, word as int);
            assert(pow2(0) == 1);
            lemma_pow2_pos(0);
        }
        (word, 0u64)
    } else {
        proof {
            lemma_pow2_strictly_increases((64 - sh) as nat, 64);
            lemma_pow2_strictly_increases(sh as nat, 64);
            lemma_pow2_pos((64 - sh) as nat);
            lemma_pow2_pos(sh as nat);
            lemma_u64_shl_is_mul(1u64, (64 - sh) as u64);
        }
        let low_mask: u64 = (1u64 << ((64 - sh) as u64)) - 1;
        let s = word << sh;
        let e = word >> ((64 - sh) as u64);
        proof {
            lemma_u64_shr_is_div(word, (64 - sh) as u64);
            lemma_u64_low_bits_mask_is_mod(word, (64 - sh) as nat);
            assert(low_mask == vstd::bits::low_bits_mask((64 - sh) as nat));
            assert((word << sh) == ((word & low_mask) << sh)) by (bit_vector)
                requires
                    1 <= sh < 64,
                    low_mask == (1u64 << ((64 - sh) as u64)) - 1,
            ;
            let xm = word & low_mask;
            assert(xm as nat == word as nat % pow2((64 - sh) as nat));
            lemma_pow2_adds((64 - sh) as nat, sh as nat);
            assert(xm as nat * pow2(sh as nat) <= pow2(64) - pow2(sh as nat)) by (nonlinear_arith)
                requires
                    (xm as nat) < pow2((64 - sh) as nat),
                    pow2((64 - sh) as nat) * pow2(sh as nat) == pow2(64),
                    pow2(sh as nat) > 0,
            ;
            lemma_u64_shl_is_mul(xm, sh);
            assert((word >> ((64 - sh) as u64)) < (1u64 << sh)) by (bit_vector)
                requires
                    1 <= sh < 64,
            ;
            lemma_u64_shl_is_mul(1u64, sh);
        }
        (s, e)
    }
}

/// The witness of the rotation gadget for `word` rotated by `rot`: a zero
/// row for the public anchor, the combination row
/// `[word, rotated, excess, shifted, bound]`, a range-check row carrying
/// `shifted` and its 16-bit slices, and one carrying `bound` and its
/// slices. `excess` is the wrapped high part, `shifted` the low part moved
/// up, and `bound = excess + 2^64 - 2^e` (for `e` the effective left
/// amount) fits 64 bits exactly when the excess is in range.
pub fn create_rot_witness(word: u64, rot: u32, side: RotMode) -> (w: Witness)
    requires
        rot < 64,
    ensures
        wit_wf(w),
        wit_rows(w) == 4,
        row_zero(w, 0),
        cellv(w, 0, 1) == word,
        cellv(w, 1, 1) == rot64_spec(word as nat, rot as nat, side),
        cellv(w, 2, 1) == word as nat / pow2((64 - rot_left_amount(rot as nat, side)) as nat),
        cellv(w, 3, 1) == (word as nat % pow2((64 - rot_left_amount(rot as nat, side)) as nat))
            * pow2(rot_left_amount(rot as nat, side)),
        cellv(w, 4, 1) == cellv(w, 2, 1) + pow2(64) - pow2(rot_left_amount(rot as nat, side)),
        cellv(w, 1, 1) == cellv(w, 3, 1) + cellv(w, 2, 1),
        cellv(w, 0, 2) == cellv(w, 3, 1),
        cellv(w, 0, 3) == cellv(w, 4, 1),
        forall|k: int|
            1 <= k < 5 ==> #[trigger] cellv(w, k, 2) == (cellv(w, 0, 2) / pow2(
                (16 * (k - 1)) as nat,
            )) % 0x10000,
        forall|k: int|
            1 <= k < 5 ==> #[trigger] cellv(w, k, 3) == (cellv(w, 0, 3) / pow2(
                (16 * (k - 1)) as nat,
            )) % 0x10000,
        forall|c: int, r: int|
            0 <= c < COLUMNS && 1 <= r < 4 && (r > 1 ==> c >= 5) && (r == 1 ==> c >= 5) ==> cellv(
                w,
                c,
                r,
            ) == 0,
{
    let rl = effective_left_rot(rot, side);
    let sh: u64 = rl as u64;
    let ghost rln: nat = rot_left_amount(rot as nat, side);
    let (shifted, excess): (u64, u64) = rot_parts(word, sh);
    proof {
        lemma2_to64();
        assert(sh as nat == rln);
        assert(shifted as nat == (word as nat % pow2((64 - rln) as nat)) * pow2(rln));
        assert(excess as nat == word as nat / pow2((64 - rln) as nat));
        assert((shifted as nat + excess as nat) < 0x10000000000000000nat);
    }
    let rotated: u64 = shifted + excess;
    proof {
        lemma2_to64();
        lemma_pow2_strictly_increases(sh as nat, 64);
        lemma_u64_shl_is_mul(1u64, sh);
    }
    let base: u64 = (u64::MAX - (1u64 << sh)) + 1;
    proof {
        assert(base as nat == pow2(64) - pow2(rln));
    }
    let bound: u64 = excess + base;
    proof {
        assert(rotated as nat == rot64_spec(word as nat, rot as nat, side)) by {
            lemma2_to64();
            assert(pow2(0) == 1);
            if side == RotMode::Left {
                assert(rln == rot as nat);
                assert(rotated as nat == (word as nat % pow2((64 - rot as nat) as nat)) * pow2(
                    rot as nat,
                ) + word as nat / pow2((64 - rot as nat) as nat));
                assert(rotated as nat == rotl64(word as nat, rot as nat));
            } else {
                if rot == 0 {
                    assert(rln == 0);
                    vstd::arithmetic::div_mod::lemma_small_mod(word as nat, pow2(64));
                    assert(word as nat % 1 == 0) by (nonlinear_arith);
                    assert(word as nat / 1 == word as nat) by (nonlinear_arith);
                    assert(word as nat % pow2(0) == 0);
                    assert(word as nat / pow2(0) == word as nat);
                    assert((excess as nat) < pow2(0));
                    assert(excess == 0);
                    assert(shifted as nat == (word as nat % pow2(64)) * pow2(0));
                    lemma_mul_by_one((word as nat % pow2(64)) as nat, pow2(0));
                    assert(rotated as nat == word as nat);
                    assert(rotr64(word as nat, 0) == (word as nat % pow2(0)) * pow2(64)
                        + word as nat / pow2(0));
                    lemma_mul_of_zero((word as nat % pow2(0)) as nat, pow2(64));
                } else {
                    assert(rln == (64 - rot) as nat);
                    assert((64 - rln) as nat == rot as nat);
                    assert(rotated as nat == (word as nat % pow2(rot as nat)) * pow2(
                        (64 - rot) as nat,
                    ) + word as nat / pow2(rot as nat));
                }
            }
        }
    }
    let mut w = witness_zero(4);
    let ghost w0 = w;
    let mut vals1: Vec<Fe> = Vec::new();
    vals1.push(fe_from_u64(word));
    vals1.push(fe_from_u64(rotated));
    vals1.push(fe_from_u64(excess));
    vals1.push(fe_from_u64(shifted));
    vals1.push(fe_from_u64(bound));
    write_row_prefix(&mut w, 1, &vals1);
    let ghost wa = w;
    let mut vals2: Vec<Fe> = Vec::new();
    vals2.push(fe_from_u64(shifted));
    vals2.push(fe_from_u64(chunk16(shifted, 0)));
    vals2.push(fe_from_u64(chunk16(shifted, 1)));
    vals2.push(fe_from_u64(chunk16(shifted, 2)));
    vals2.push(fe_from_u64(chunk16(shifted, 3)));
    write_row_prefix(&mut w, 2, &vals2);
    let ghost wb = w;
    let mut vals3: Vec<Fe> = Vec::new();
    vals3.push(fe_from_u64(bound));
    vals3.push(fe_from_u64(chunk16(bound, 0)));
    vals3.push(fe_from_u64(chunk16(bound, 1)));
    vals3.push(fe_from_u64(chunk16(bound, 2)));
    vals3.push(fe_from_u64(chunk16(bound, 3)));
    write_row_prefix(&mut w, 3, &vals3);
    proof {
        assert forall|c: int| 0 <= c < COLUMNS implies #[trigger] cellv(w, c, 0) == 0 by {
            assert(cellf(w, c, 0) == cellf(wb, c, 0));
            assert(cellf(wb, c, 0) == cellf(wa, c, 0));
            assert(cellf(wa, c, 0) == cellf(w0, c, 0));
            assert(cellv(w0, c, 0) == 0);
        }
        assert forall|c: int| 5 <= c < COLUMNS implies cellv(w, c, 1) == 0 && cellv(w, c, 2) == 0
            && cellv(w, c, 3) == 0 by {
            assert(cellf(w, c, 1) == cellf(wb, c, 1));
            assert(cellf(wb, c, 1) == cellf(wa, c, 1));
            assert(cellf(wa, c, 1) == cellf(w0, c, 1));
            assert(cellv(w0, c, 1) == 0);
            assert(cellf(w, c, 2) == cellf(wb, c, 2));
            assert(cellf(wb, c, 2) == cellf(wa, c, 2));
            assert(cellf(wa, c, 2) == cellf(w0, c, 2));
            assert(cellv(w0, c, 2) == 0);
            assert(cellf(w, c, 3) == cellf(wb, c, 3));
            assert(cellf(wb, c, 3) == cellf(wa, c, 3));
            assert(cellf(wa, c, 3) == cellf(w0, c, 3));
            assert(cellv(w0, c, 3) == 0);
        }
        assert(cellf(w, 0, 1) == cellf(wb, 0, 1) && cellf(wb, 0, 1) == cellf(wa, 0, 1));
        assert(cellf(w, 1, 1) == cellf(wb, 1, 1) && cellf(wb, 1, 1) == cellf(wa, 1, 1));
        assert(cellf(w, 2, 1) == cellf(wb, 2, 1) && cellf(wb, 2, 1) == cellf(wa, 2, 1));
        assert(cellf(w, 3, 1) == cellf(wb, 3, 1) && cellf(wb, 3, 1) == cellf(wa, 3, 1));
        assert(cellf(w, 4, 1) == cellf(wb, 4, 1) && cellf(wb, 4, 1) == cellf(wa, 4, 1));
        assert(cellf(wa, 0, 1) == vals1@[0]);
        assert(cellf(wa, 1, 1) == vals1@[1]);
        assert(cellf(wa, 2, 1) == vals1@[2]);
        assert(cellf(wa, 3, 1) == vals1@[3]);
        assert(cellf(wa, 4, 1) == vals1@[4]);
        assert(cellf(w, 0, 2) == cellf(wb, 0, 2));
        assert(cellf(wb, 0, 2) == vals2@[0]);
        assert(cellf(w, 1, 2) == cellf(wb, 1, 2) && cellf(wb, 1, 2) == vals2@[1]);
        assert(cellf(w, 2, 2) == cellf(wb, 2, 2) && cellf(wb, 2, 2) == vals2@[2]);
        assert(cellf(w, 3, 2) == cellf(wb, 3, 2) && cellf(wb, 3, 2) == vals2@[3]);
        assert(cellf(w, 4, 2) == cellf(wb, 4, 2) && cellf(wb, 4, 2) == vals2@[4]);
        assert(cellf(w, 0, 3) == vals3@[0]);
        assert(cellf(w, 1, 3) == vals3@[1]);
        assert(cellf(w, 2, 3) == vals3@[2]);
        assert(cellf(w, 3, 3) == vals3@[3]);
        assert(cellf(w, 4, 3) == vals3@[4]);
        assert forall|k: int| 1 <= k < 5 implies #[trigger] cellv(w, k, 2) == (cellv(w, 0, 2)
            / pow2((16 * (k - 1)) as nat)) % 0x10000 by {
            if k == 1 {
            } else if k == 2 {
            } else if k == 3 {
            }
        }
        assert forall|k: int| 1 <= k < 5 implies #[trigger] cellv(w, k, 3) == (cellv(w, 0, 3)
            / pow2((16 * (k - 1)) as nat)) % 0x10000 by {
            if k == 1 {
            } else if k == 2 {
            } else if k == 3 {
            }
        }
    }
    w
}

} // verus!
