//! One driver per fuzz case: each builds a gadget circuit and its witness,
//! configures the test-driver builder, and assembles the prover inputs.
//! Proof creation and verification over these inputs belong to the proving
//! backend; everything up to that hand-off is assembled here.

use vstd::prelude::*;

verus! {

use vstd::arithmetic::power2::{pow2, lemma_pow2_strictly_increases};
use crate::fe::{Fe, FieldId, fe_val, fe_is_canonical};
use crate::bitwise::{nat_and, nat_xor};
use crate::gate::{Gate, PERMUTS, targets, self_wired};
use crate::gadgets::{extend_and, extend_xor_gadget, create_rot_gadget, RotMode, spec_num_xors};
use crate::witness::{
    wit_wf,
    wit_rows,
    cellv,
    cellf,
    create_and_witness,
    create_xor_witness,
    create_rot_witness,
    rot64_spec,
};
use crate::framework::{
    FuzzFramework,
    FuzzError,
    ProverInputs,
    RuntimeTable,
    RuntimeTableSpec,
    RuntimeTableCfg,
    LookupTable,
    RecursionChallenge,
    Commitment,
    copy_constraints_hold,
    prepared_cellf,
    src_row,
    src_col,
    later_cell,
};
use crate::rng::{rng_from_seed, gen_field_bits};

/// Builds the AND circuit over `bytes` bytes, synthesizes its witness for
/// the two operands, configures the driver and assembles the prover
/// inputs. The assembled witness satisfies every copy constraint, and its
/// AND output cell is the bitwise AND of the operands.
#[verifier::rlimit(80)]
pub fn run_and_case(f: FieldId, bytes: usize, input1: Fe, input2: Fe) -> (r: Result<
    ProverInputs,
    FuzzError,
>)
    requires
        1 <= bytes <= 0x10000,
        fe_is_canonical(f, input1),
        fe_is_canonical(f, input2),
        fe_val(input1) < pow2((bytes * 8) as nat),
        fe_val(input2) < pow2((bytes * 8) as nat),
    ensures
        r is Ok,
        wit_wf(r.unwrap().witness),
        cellv(r.unwrap().witness, 5, spec_num_xors((bytes * 8) as nat) as int + 1) == nat_and(
            fe_val(input1),
            fe_val(input2),
        ),
        cellv(r.unwrap().witness, 4, spec_num_xors((bytes * 8) as nat) as int + 1) == nat_xor(
            fe_val(input1),
            fe_val(input2),
        ),
{
    let mut gates: Vec<Gate> = Vec::new();
    let _next_row = extend_and(&mut gates, f, bytes);
    let ghost g = gates@;
    let witness = create_and_witness(f, input1, input2, bytes);
    let ghost w0 = witness;
    let runner = FuzzFramework::default().gates(gates).witness(witness).setup();
    let r = runner.prepare_prover_inputs();
    proof {
        let and_row = spec_num_xors((bytes * 8) as nat) as int + 1;
        assert(r is Ok);
        let out = r.unwrap().witness;
        assert(cellf(out, 5, and_row) == prepared_cellf(w0, g, 5, and_row));
        assert(targets(g, and_row, 5, and_row, 5));
        assert(src_row(g, and_row, 5) == and_row && src_col(g, and_row, 5) == 5);
        assert(cellf(out, 5, and_row) == cellf(w0, 5, and_row));
        assert(cellf(out, 4, and_row) == prepared_cellf(w0, g, 4, and_row));
        assert(targets(g, 0, 2, and_row, 4));
        let t4r = g[and_row].wires[4].row as int;
        let t4c = g[and_row].wires[4].col as int;
        assert(g[0].wires[2].row == and_row && g[0].wires[2].col == 4);
        assert(t4r == 0 && t4c == 2) by {
            assert(g[t4r].wires[t4c].row == and_row && g[t4r].wires[t4c].col == 4);
            if !(t4r == 0 && t4c == 2) {
                assert(targets(g, and_row, 4, t4r, t4c));
            }
        }
        assert(!later_cell(0, 2, and_row, 4));
        assert(src_row(g, and_row, 4) == and_row && src_col(g, and_row, 4) == 4);
        assert(cellf(out, 4, and_row) == cellf(w0, 4, and_row));
    }
    r
}

/// Builds the XOR circuit over `bits` bits, synthesizes its witness and
/// assembles the prover inputs. The output column of the first chunk row
/// of the assembled witness is the bitwise XOR of the operands.
pub fn run_xor_case(f: FieldId, bits: usize, input1: Fe, input2: Fe) -> (r: Result<
    ProverInputs,
    FuzzError,
>)
    requires
        1 <= bits <= 0x100000,
    ensures
        r is Ok,
        wit_wf(r.unwrap().witness),
        cellv(r.unwrap().witness, 2, 0) == nat_xor(fe_val(input1), fe_val(input2)),
{
    let mut gates: Vec<Gate> = Vec::new();
    let _next_row = extend_xor_gadget(&mut gates, bits);
    let ghost g = gates@;
    let witness = create_xor_witness(input1, input2, bits);
    let ghost w0 = witness;
    let runner = FuzzFramework::default().field(f).gates(gates).witness(witness).setup();
    let r = runner.prepare_prover_inputs();
    proof {
        assert(r is Ok);
        let out = r.unwrap().witness;
        assert(cellf(out, 2, 0) == prepared_cellf(w0, g, 2, 0));
        assert(self_wired(g[0], 0));
        assert(targets(g, 0, 2, 0, 2));
        assert(src_row(g, 0, 2) == 0 && src_col(g, 0, 2) == 2);
        assert(cellf(out, 2, 0) == cellf(w0, 2, 0));
    }
    r
}

/// Builds the rotation circuit for `word` rotated by `rot`, synthesizes
/// its witness and assembles the prover inputs. The rotated cell of the
/// assembled witness is the rotation of the word.
pub fn run_rot_case(f: FieldId, rot: u32, side: RotMode, word: u64) -> (r: Result<
    ProverInputs,
    FuzzError,
>)
    requires
        rot < 64,
    ensures
        r is Ok,
        wit_wf(r.unwrap().witness),
        cellv(r.unwrap().witness, 1, 1) == rot64_spec(word as nat, rot as nat, side),
{
    let gates = create_rot_gadget(rot, side);
    let ghost g = gates@;
    let witness = create_rot_witness(word, rot, side);
    let ghost w0 = witness;
    let runner = FuzzFramework::default().field(f).gates(gates).witness(witness).setup();
    let r = runner.prepare_prover_inputs();
    proof {
        assert(r is Ok);
        let out = r.unwrap().witness;
        assert(cellf(out, 1, 1) == prepared_cellf(w0, g, 1, 1));
        assert(targets(g, 1, 1, 1, 1));
        assert(src_row(g, 1, 1) == 1 && src_col(g, 1, 1) == 1);
        assert(cellf(out, 1, 1) == cellf(w0, 1, 1));
    }
    r
}

/// The seeded AND case: derives both operands from an explicit 32-byte
/// seed, attaches the default lookup table, runtime-table configuration
/// and a previous-proof accumulator with the zero commitment, and
/// assembles the prover inputs, with the two operands as public inputs.
///
/// Whatever the seed's draws, the assembled inputs are pinned: the two
/// public inputs are the drawn operands, canonical and within the declared
/// width; the witness is their AND witness, padded to the domain, with
/// every copy constraint holding; the circuit is the AND gadget; and the
/// attached accumulator is the single empty one, against an index built
/// for none — the mismatched configuration this case exercises.
#[verifier::rlimit(100)]
pub fn run_seeded_and_case(f: FieldId, bytes: usize, seed: [u8; 32]) -> (r: Result<
    ProverInputs,
    FuzzError,
>)
    requires
        1 <= bytes <= 0x10000,
    ensures
        r is Ok,
        wit_wf(r.unwrap().witness),
        r.unwrap().public_inputs@.len() == 2,
        fe_is_canonical(f, r.unwrap().public_inputs@[0]),
        fe_is_canonical(f, r.unwrap().public_inputs@[1]),
        fe_val(r.unwrap().public_inputs@[0]) < pow2(
            if bytes * 8 < 254 {
                (bytes * 8) as nat
            } else {
                254nat
            },
        ),
        fe_val(r.unwrap().public_inputs@[1]) < pow2(
            if bytes * 8 < 254 {
                (bytes * 8) as nat
            } else {
                254nat
            },
        ),
        r.unwrap().prover_index.gates@.len() == spec_num_xors((bytes * 8) as nat) + 2,
        r.unwrap().prover_index.gates@.last().kind == crate::gate::GateKind::Generic,
        crate::gadgets::and_coeffs_ok(f, r.unwrap().prover_index.gates@.last().coeffs@),
        r.unwrap().prover_index.public_input_count == 2,
        r.unwrap().prover_index.prev_challenge_count == 0,
        r.unwrap().verifier_index.prev_challenge_count == 0,
        wit_rows(r.unwrap().witness) == r.unwrap().prover_index.domain_size,
        copy_constraints_hold(r.unwrap().witness, r.unwrap().prover_index.gates@),
        cellv(r.unwrap().witness, 0, spec_num_xors((bytes * 8) as nat) as int + 1) == fe_val(
            r.unwrap().public_inputs@[0],
        ),
        cellv(r.unwrap().witness, 1, spec_num_xors((bytes * 8) as nat) as int + 1) == fe_val(
            r.unwrap().public_inputs@[1],
        ),
        cellv(r.unwrap().witness, 2, spec_num_xors((bytes * 8) as nat) as int + 1) == (fe_val(
            r.unwrap().public_inputs@[0],
        ) + fe_val(r.unwrap().public_inputs@[1])) % crate::fe::field_modulus(f),
        cellv(r.unwrap().witness, 3, spec_num_xors((bytes * 8) as nat) as int + 1) == (fe_val(
            r.unwrap().public_inputs@[0],
        ) + fe_val(r.unwrap().public_inputs@[1])) % crate::fe::field_modulus(f),
        cellv(r.unwrap().witness, 4, spec_num_xors((bytes * 8) as nat) as int + 1) == nat_xor(
            fe_val(r.unwrap().public_inputs@[0]),
            fe_val(r.unwrap().public_inputs@[1]),
        ),
        cellv(r.unwrap().witness, 5, spec_num_xors((bytes * 8) as nat) as int + 1) == nat_and(
            fe_val(r.unwrap().public_inputs@[0]),
            fe_val(r.unwrap().public_inputs@[1]),
        ),
        r.unwrap().prev_challenges@.len() == 1,
        r.unwrap().prev_challenges@[0].chals@.len() == 0,
        r.unwrap().prev_challenges@[0].comm.unshifted@.len() == 0,
        r.unwrap().prev_challenges@[0].comm.shifted is None,
        r.unwrap().runtime_tables@.len() == 1,
        r.unwrap().runtime_tables@[0].id == 0,
        r.unwrap().runtime_tables@[0].data@.len() == 0,
{
    let mut rng = rng_from_seed(seed);
    let input1 = gen_field_bits(&mut rng, bytes * 8);
    let input2 = gen_field_bits(&mut rng, bytes * 8);
    proof {
        if bytes * 8 >= 254 {
            lemma_pow2_strictly_increases(254, (bytes * 8) as nat);
        }
    }
    let mut gates: Vec<Gate> = Vec::new();
    let _next_row = extend_and(&mut gates, f, bytes);
    let ghost g = gates@;
    let witness = create_and_witness(f, input1, input2, bytes);
    let ghost w0 = witness;
    let mut public_inputs: Vec<Fe> = Vec::new();
    public_inputs.push(input1);
    public_inputs.push(input2);
    let default_table = LookupTable { id: 0, data: Vec::new() };
    let mut lookup_tables: Vec<LookupTable> = Vec::new();
    lookup_tables.push(default_table);
    let mut runtime_cfg: Vec<RuntimeTableCfg> = Vec::new();
    runtime_cfg.push(RuntimeTableCfg::Indexed(RuntimeTableSpec { id: 0, len: 0 }));
    let mut runtime_tables: Vec<RuntimeTable> = Vec::new();
    runtime_tables.push(RuntimeTable { id: 0, data: Vec::new() });
    let mut recursion: Vec<RecursionChallenge> = Vec::new();
    recursion.push(
        RecursionChallenge {
            chals: Vec::new(),
            comm: Commitment { unshifted: Vec::new(), shifted: None },
        },
    );
    let runner = FuzzFramework::default().field(f).gates(gates).witness(witness).public_inputs(
        public_inputs,
    ).lookup_tables(lookup_tables).runtime_tables_setup(runtime_cfg).setup().runtime_tables(
        runtime_tables,
    ).recursion(recursion);
    let r = runner.prepare_prover_inputs();
    proof {
        let and_row = spec_num_xors((bytes * 8) as nat) as int + 1;
        assert(r is Ok);
        let out = r.unwrap();
        assert(out.public_inputs@[0] == input1 && out.public_inputs@[1] == input2);
        let v1 = fe_val(input1);
        let v2 = fe_val(input2);
        assert(cellf(out.witness, 0, and_row) == prepared_cellf(w0, g, 0, and_row));
        assert(targets(g, 0, 0, and_row, 0));
        assert(g[and_row].wires[0].row == 0 && g[and_row].wires[0].col == 0);
        assert(!later_cell(0, 0, and_row, 0));
        assert(src_row(g, and_row, 0) == and_row && src_col(g, and_row, 0) == 0);
        assert(cellf(out.witness, 0, and_row) == cellf(w0, 0, and_row));
        assert(cellf(out.witness, 1, and_row) == prepared_cellf(w0, g, 1, and_row));
        assert(targets(g, 0, 1, and_row, 1));
        assert(g[and_row].wires[1].row == 0 && g[and_row].wires[1].col == 1);
        assert(!later_cell(0, 1, and_row, 1));
        assert(src_row(g, and_row, 1) == and_row && src_col(g, and_row, 1) == 1);
        assert(cellf(out.witness, 1, and_row) == cellf(w0, 1, and_row));
        assert(cellf(out.witness, 2, and_row) == prepared_cellf(w0, g, 2, and_row));
        assert(targets(g, and_row, 2, and_row, 3));
        assert(later_cell(and_row, 3, and_row, 2));
        assert(src_row(g, and_row, 2) == and_row && src_col(g, and_row, 2) == 3);
        assert(cellf(out.witness, 2, and_row) == cellf(w0, 3, and_row));
        assert(cellf(out.witness, 3, and_row) == prepared_cellf(w0, g, 3, and_row));
        assert(g[and_row].wires[3].row == and_row && g[and_row].wires[3].col == 2);
        assert(!later_cell(and_row, 2, and_row, 3));
        assert(src_row(g, and_row, 3) == and_row && src_col(g, and_row, 3) == 3);
        assert(cellf(out.witness, 3, and_row) == cellf(w0, 3, and_row));
        assert(cellf(out.witness, 4, and_row) == prepared_cellf(w0, g, 4, and_row));
        assert(targets(g, 0, 2, and_row, 4));
        assert(g[and_row].wires[4].row == 0 && g[and_row].wires[4].col == 2);
        assert(!later_cell(0, 2, and_row, 4));
        assert(src_row(g, and_row, 4) == and_row && src_col(g, and_row, 4) == 4);
        assert(cellf(out.witness, 4, and_row) == cellf(w0, 4, and_row));
        assert(cellf(out.witness, 5, and_row) == prepared_cellf(w0, g, 5, and_row));
        assert(targets(g, and_row, 5, and_row, 5));
        assert(src_row(g, and_row, 5) == and_row && src_col(g, and_row, 5) == 5);
        assert(cellf(out.witness, 5, and_row) == cellf(w0, 5, and_row));
    }
    r
}

} // verus!
verus! {

use crate::fe::lemma_fe_val_injective;
use crate::witness::{Witness, lemma_div_pow2_zero, xor_cell, xor_region_ok, row_zero};
use crate::gate::wires_ok;

/// The AND synthesizer matches the AND builder: a witness carrying the AND
/// gadget's cell layout satisfies every copy constraint the gadget
/// declares, for every pair of operand values. The repair pass is a no-op
/// on an honestly synthesized witness. The hypotheses are exactly what
/// `extend_and` (run on an empty gate list) and `create_and_witness`
/// publish.
pub proof fn lemma_and_witness_consistent(
    g: Seq<Gate>,
    w: Witness,
    v1: nat,
    v2: nat,
    nx: int,
)
    requires
        1 <= nx,
        wires_ok(g),
        g.len() == nx + 2,
        targets(g, 0, 0, nx + 1, 0),
        targets(g, 0, 1, nx + 1, 1),
        targets(g, 0, 2, nx + 1, 4),
        targets(g, nx + 1, 2, nx + 1, 3),
        targets(g, nx + 1, 5, nx + 1, 5),
        targets(g, nx + 1, 6, nx + 1, 6),
        forall|c: int| 3 <= c < PERMUTS ==> targets(g, 0, c, 0, c),
        forall|r: int, c: int| 0 < r < nx + 1 && 0 <= c < PERMUTS ==> targets(g, r, c, r, c),
        wit_wf(w),
        wit_rows(w) == nx + 2,
        xor_region_ok(w, 0, v1, v2, nat_xor(v1, v2), nx as nat),
        cellv(w, 0, nx + 1) == v1,
        cellv(w, 1, nx + 1) == v2,
        cellv(w, 2, nx + 1) == cellv(w, 3, nx + 1),
        cellv(w, 4, nx + 1) == nat_xor(v1, v2),
    ensures
        copy_constraints_hold(w, g),
{
    let and_row = nx + 1;
    let vout = nat_xor(v1, v2);
    lemma_div_pow2_zero(v1);
    lemma_div_pow2_zero(v2);
    lemma_div_pow2_zero(vout);
    assert forall|r: int, c: int| 0 <= r < g.len() && 0 <= c < PERMUTS implies #[trigger] cellf(
        w,
        c,
        r,
    ) == cellf(w, g[r].wires[c].col as int, g[r].wires[c].row as int) by {
        if r == 0 && c == 0 {
            assert(cellv(w, 0, 0) == xor_cell(v1, v2, vout, 0nat, 0));
            lemma_fe_val_injective(cellf(w, 0, 0), cellf(w, 0, and_row));
        } else if r == 0 && c == 1 {
            assert(cellv(w, 1, 0) == xor_cell(v1, v2, vout, 0nat, 1));
            lemma_fe_val_injective(cellf(w, 1, 0), cellf(w, 1, and_row));
        } else if r == 0 && c == 2 {
            assert(cellv(w, 2, 0) == xor_cell(v1, v2, vout, 0nat, 2));
            lemma_fe_val_injective(cellf(w, 2, 0), cellf(w, 4, and_row));
        } else if r == and_row && c == 0 {
            assert(g[and_row].wires[0].row == 0 && g[and_row].wires[0].col == 0);
            assert(cellv(w, 0, 0) == xor_cell(v1, v2, vout, 0nat, 0));
            lemma_fe_val_injective(cellf(w, 0, and_row), cellf(w, 0, 0));
        } else if r == and_row && c == 1 {
            assert(g[and_row].wires[1].row == 0 && g[and_row].wires[1].col == 1);
            assert(cellv(w, 1, 0) == xor_cell(v1, v2, vout, 0nat, 1));
            lemma_fe_val_injective(cellf(w, 1, and_row), cellf(w, 1, 0));
        } else if r == and_row && c == 2 {
            lemma_fe_val_injective(cellf(w, 2, and_row), cellf(w, 3, and_row));
        } else if r == and_row && c == 3 {
            assert(g[and_row].wires[3].row == and_row && g[and_row].wires[3].col == 2);
            lemma_fe_val_injective(cellf(w, 3, and_row), cellf(w, 2, and_row));
        } else if r == and_row && c == 4 {
            assert(g[and_row].wires[4].row == 0 && g[and_row].wires[4].col == 2);
            assert(cellv(w, 2, 0) == xor_cell(v1, v2, vout, 0nat, 2));
            lemma_fe_val_injective(cellf(w, 4, and_row), cellf(w, 2, 0));
        } else {
            assert(targets(g, r, c, r, c)) by {
                if r == 0 {
                    assert(3 <= c < PERMUTS);
                } else if r < and_row {
                } else {
                    assert(c == 5 || c == 6);
                }
            }
        }
    }
}

/// The NOT synthesizer matches the NOT builder: a witness carrying the NOT
/// gadget's cell layout — the all-ones constant `m` in the public row, the
/// XOR region of `input ^ m` after it — satisfies every copy constraint
/// the public row and `extend_not` declare. The hypotheses are exactly
/// what `create_public_gate`, `extend_not` and `create_not_witness`
/// publish.
pub proof fn lemma_not_witness_consistent(g: Seq<Gate>, w: Witness, v: nat, m: nat, nx: int)
    requires
        1 <= nx,
        wires_ok(g),
        g.len() == nx + 2,
        targets(g, 1, 1, 0, 0),
        forall|c: int| 1 <= c < PERMUTS ==> targets(g, 0, c, 0, c),
        forall|c: int| 0 <= c < PERMUTS && c != 1 ==> targets(g, 1, c, 1, c),
        forall|r: int, c: int| 1 < r < nx + 2 && 0 <= c < PERMUTS ==> targets(g, r, c, r, c),
        wit_wf(w),
        wit_rows(w) == nx + 2,
        cellv(w, 0, 0) == m,
        xor_region_ok(w, 1, v, m, (m - v) as nat, nx as nat),
        v <= m,
    ensures
        copy_constraints_hold(w, g),
{
    let vout = (m - v) as nat;
    lemma_div_pow2_zero(m);
    assert forall|r: int, c: int| 0 <= r < g.len() && 0 <= c < PERMUTS implies #[trigger] cellf(
        w,
        c,
        r,
    ) == cellf(w, g[r].wires[c].col as int, g[r].wires[c].row as int) by {
        if r == 0 && c == 0 {
            assert(g[0].wires[0].row == 1 && g[0].wires[0].col == 1);
            assert(cellv(w, 1, 1) == xor_cell(v, m, vout, 0nat, 1));
            lemma_fe_val_injective(cellf(w, 0, 0), cellf(w, 1, 1));
        } else if r == 1 && c == 1 {
            assert(cellv(w, 1, 1) == xor_cell(v, m, vout, 0nat, 1));
            lemma_fe_val_injective(cellf(w, 1, 1), cellf(w, 0, 0));
        } else {
            assert(targets(g, r, c, r, c)) by {
                if r == 0 {
                    assert(1 <= c < PERMUTS);
                } else if r == 1 {
                    assert(c != 1);
                }
            }
        }
    }
}

/// The rotation synthesizer matches the rotation builder: a witness whose
/// range-check rows carry the combination row's shifted and bound values,
/// with the anchored slot and the anchor row zero, satisfies every copy
/// constraint `create_rot_gadget` declares. The hypotheses are exactly
/// what `create_rot_gadget` and `create_rot_witness` publish.
pub proof fn lemma_rot_witness_consistent(g: Seq<Gate>, w: Witness)
    requires
        wires_ok(g),
        g.len() == 4,
        targets(g, 1, 3, 2, 0),
        targets(g, 1, 4, 3, 0),
        targets(g, 1, 5, 0, 0),
        forall|c: int| 1 <= c < PERMUTS ==> targets(g, 0, c, 0, c),
        forall|c: int| 0 <= c < PERMUTS && c != 3 && c != 4 && c != 5 ==> targets(g, 1, c, 1, c),
        forall|r: int, c: int| 2 <= r < 4 && 1 <= c < PERMUTS ==> targets(g, r, c, r, c),
        wit_wf(w),
        wit_rows(w) == 4,
        row_zero(w, 0),
        cellv(w, 0, 2) == cellv(w, 3, 1),
        cellv(w, 0, 3) == cellv(w, 4, 1),
        cellv(w, 5, 1) == 0,
    ensures
        copy_constraints_hold(w, g),
{
    assert forall|r: int, c: int| 0 <= r < g.len() && 0 <= c < PERMUTS implies #[trigger] cellf(
        w,
        c,
        r,
    ) == cellf(w, g[r].wires[c].col as int, g[r].wires[c].row as int) by {
        if r == 1 && c == 3 {
            lemma_fe_val_injective(cellf(w, 3, 1), cellf(w, 0, 2));
        } else if r == 2 && c == 0 {
            assert(g[2].wires[0].row == 1 && g[2].wires[0].col == 3);
            lemma_fe_val_injective(cellf(w, 0, 2), cellf(w, 3, 1));
        } else if r == 1 && c == 4 {
            lemma_fe_val_injective(cellf(w, 4, 1), cellf(w, 0, 3));
        } else if r == 3 && c == 0 {
            assert(g[3].wires[0].row == 1 && g[3].wires[0].col == 4);
            lemma_fe_val_injective(cellf(w, 0, 3), cellf(w, 4, 1));
        } else if r == 1 && c == 5 {
            assert(cellv(w, 0, 0) == 0);
            lemma_fe_val_injective(cellf(w, 5, 1), cellf(w, 0, 0));
        } else if r == 0 && c == 0 {
            assert(g[0].wires[0].row == 1 && g[0].wires[0].col == 5);
            assert(cellv(w, 0, 0) == 0);
            lemma_fe_val_injective(cellf(w, 0, 0), cellf(w, 5, 1));
        } else {
            assert(targets(g, r, c, r, c)) by {
                if r == 0 {
                    assert(1 <= c < PERMUTS);
                } else if r == 1 {
                    assert(c == 0 || c == 1 || c == 2 || c == 6);
                }
            }
        }
    }
}

} // verus!

verus! {

use crate::gadgets::{extend_not, create_public_gate};
use crate::gate::lemma_push_self_wired;
use crate::witness::create_not_witness;
use crate::fe::fe_mask;

/// Builds the NOT circuit over `bits` bits, with the public row holding
/// the constant `2^bits - 1`, synthesizes its witness and assembles the
/// prover inputs. The complement cell of the assembled witness is
/// `2^bits - 1 - input`.
pub fn run_not_case(f: FieldId, bits: usize, input: Fe) -> (r: Result<ProverInputs, FuzzError>)
    requires
        1 <= bits <= 254,
        fe_val(input) < pow2(bits as nat),
    ensures
        r is Ok,
        wit_wf(r.unwrap().witness),
        cellv(r.unwrap().witness, 2, 1) == pow2(bits as nat) - 1 - fe_val(input),
        cellv(r.unwrap().witness, 0, 0) == pow2(bits as nat) - 1,
{
    let mut gates: Vec<Gate> = Vec::new();
    let pub_gate = create_public_gate(0);
    proof {
        lemma_push_self_wired(gates@, pub_gate);
    }
    gates.push(pub_gate);
    let _next_row = extend_not(&mut gates, 0, bits);
    let ghost g = gates@;
    let witness = create_not_witness(input, bits);
    let ghost w0 = witness;
    let mut public_inputs: Vec<Fe> = Vec::new();
    public_inputs.push(fe_mask(bits));
    let runner = FuzzFramework::default().field(f).gates(gates).witness(witness).public_inputs(
        public_inputs,
    ).setup();
    let r = runner.prepare_prover_inputs();
    proof {
        assert(r is Ok);
        let out = r.unwrap().witness;
        assert(cellf(out, 2, 1) == prepared_cellf(w0, g, 2, 1));
        assert(targets(g, 1, 2, 1, 2));
        assert(src_row(g, 1, 2) == 1 && src_col(g, 1, 2) == 2);
        assert(cellf(out, 2, 1) == cellf(w0, 2, 1));
        assert(cellf(out, 0, 0) == prepared_cellf(w0, g, 0, 0));
        let t = g[0].wires[0];
        assert(targets(g, 0, 0, 1, 1));
        assert(later_cell(t.row as int, t.col as int, 0, 0));
        assert(src_row(g, 0, 0) == 1 && src_col(g, 0, 0) == 1);
        assert(cellf(out, 0, 0) == cellf(w0, 1, 1));
        assert(cellv(w0, 1, 1) == crate::witness::xor_cell(
            fe_val(input),
            (pow2(bits as nat) - 1) as nat,
            (pow2(bits as nat) - 1 - fe_val(input)) as nat,
            0nat,
            1,
        ));
        crate::witness::lemma_div_pow2_zero((pow2(bits as nat) - 1) as nat);
    }
    r
}

} // verus!
