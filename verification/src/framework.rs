//! The test-driver builder: an unconfigured phase that accumulates a
//! circuit, its witness, public inputs, lookup and runtime tables and a
//! previous-recursion-challenge count; a `setup` transition that assembles
//! the prover and verifier index models once; and a configured phase that
//! pads the witness to the proving domain, repairs copy constraints, and
//! hands the assembled inputs to proof creation.

use vstd::prelude::*;

verus! {

use vstd::arithmetic::power2::{pow2, lemma_pow2_unfold, lemma2_to64};
use vstd::arithmetic::power2::is_pow2;
use crate::fe::{Fe, FieldId, fe_zero};
use crate::gate::{Gate, COLUMNS, PERMUTS, wires_ok, wires_well_formed};
use crate::witness::{Witness, wit_wf, wit_rows, cellf, set_cell};

/// Rows the proving domain reserves beyond the circuit for zero-knowledge
/// blinding.
pub const ZK_ROWS: usize = 3;

/// A bound on circuit sizes accepted by the driver.
pub const MAX_CIRCUIT: usize = 0x1000000;

/// A fixed table of values that lookup gates may reference.
#[derive(Clone, Debug)]
pub struct LookupTable {
    pub id: i32,
    pub data: Vec<Vec<Fe>>,
}

/// The shape of a runtime table: its identifier and its length.
#[derive(Clone, Copy, PartialEq, Eq, Structural, Debug)]
pub struct RuntimeTableSpec {
    pub id: i32,
    pub len: usize,
}

/// Configuration of a runtime table: either indexed, with a fixed layout,
/// or keyed by an explicit first column.
#[derive(Clone, Debug)]
pub enum RuntimeTableCfg {
    Indexed(RuntimeTableSpec),
    Keyed { id: i32, first_column: Vec<Fe> },
}

/// The contents of one runtime table, supplied per proof.
#[derive(Clone, Debug)]
pub struct RuntimeTable {
    pub id: i32,
    pub data: Vec<Fe>,
}

/// An affine curve point held as plain coordinates.
#[derive(Clone, Copy, PartialEq, Eq, Structural, Debug)]
pub struct CurvePoint {
    pub x: Fe,
    pub y: Fe,
    pub infinity: bool,
}

/// A polynomial commitment held as plain curve points.
#[derive(Clone, Debug)]
pub struct Commitment {
    pub unshifted: Vec<CurvePoint>,
    pub shifted: Option<CurvePoint>,
}

/// One folded previous proof a new proof must account for: its folding
/// challenges (one per round, `log2` of the reference-string size many) and
/// the commitment to the corresponding opening polynomial.
#[derive(Clone, Debug)]
pub struct RecursionChallenge {
    pub chals: Vec<Fe>,
    pub comm: Commitment,
}

/// The prover-side index model: everything of the assembled circuit that
/// this driver reads. The constraint polynomials themselves belong to the
/// proving backend.
#[derive(Clone, Debug)]
pub struct ProverIndex {
    pub gates: Vec<Gate>,
    pub domain_size: usize,
    pub srs_size: usize,
    pub public_input_count: usize,
    pub prev_challenge_count: usize,
    pub lookup_tables: Vec<LookupTable>,
    pub runtime_tables_setup: Option<Vec<RuntimeTableCfg>>,
    pub disable_gates_checks: bool,
}

/// The verifier-side index model derived from a prover index.
#[derive(Clone, Copy, PartialEq, Eq, Structural, Debug)]
pub struct VerifierIndex {
    pub domain_size: usize,
    pub srs_size: usize,
    pub public_input_count: usize,
    pub prev_challenge_count: usize,
}

/// What can go wrong between configuration and proof creation.
#[derive(Clone, Copy, PartialEq, Eq, Structural, Debug)]
pub enum FuzzError {
    /// No witness was ever supplied.
    MissingWitness,
    /// The witness does not have `COLUMNS` columns of one length.
    MalformedWitness,
    /// The witness has more rows than the proving domain.
    WitnessTooLong,
    /// The circuit's wire relation is out of range or asymmetric.
    DisconnectedWires,
}

/// The unconfigured phase: accumulates the circuit and its inputs.
#[derive(Clone, Debug)]
pub struct FuzzFramework {
    pub field: FieldId,
    pub gates: Option<Vec<Gate>>,
    pub witness: Option<Witness>,
    pub public_inputs: Vec<Fe>,
    pub lookup_tables: Vec<LookupTable>,
    pub runtime_tables_setup: Option<Vec<RuntimeTableCfg>>,
    pub num_prev_challenges: usize,
    pub disable_gates_checks: bool,
}

impl Default for FuzzFramework {
    /// An empty builder over the Vesta scalar field.
    fn default() -> (r: Self)
        ensures
            r.field == FieldId::Fp,
            r.gates is None,
            r.witness is None,
            r.public_inputs@.len() == 0,
            r.lookup_tables@.len() == 0,
            r.runtime_tables_setup is None,
            r.num_prev_challenges == 0,
            !r.disable_gates_checks,
    {
        FuzzFramework {
            field: FieldId::Fp,
            gates: None,
            witness: None,
            public_inputs: Vec::new(),
            lookup_tables: Vec::new(),
            runtime_tables_setup: None,
            num_prev_challenges: 0,
            disable_gates_checks: false,
        }
    }
}

/// The configured phase: the index pair is assembled and the circuit shape
/// is fixed; only per-proof inputs may still change. The fields are
/// private, so a runner exists only through `setup`, and after it nothing
/// but the witness, the runtime tables and the recursion challenges can
/// change.
pub struct FuzzRunner {
    field: FieldId,
    witness: Option<Witness>,
    public_inputs: Vec<Fe>,
    runtime_tables: Vec<RuntimeTable>,
    recursion: Vec<RecursionChallenge>,
    prover_index: ProverIndex,
    verifier_index: VerifierIndex,
}

impl FuzzRunner {
    /// The scalar field the circuit works over.
    pub closed spec fn spec_field(self) -> FieldId {
        self.field
    }

    /// The witness that will be padded and repaired.
    pub closed spec fn spec_witness(self) -> Option<Witness> {
        self.witness
    }

    /// The public input values fixed at setup.
    pub closed spec fn spec_public_inputs(self) -> Vec<Fe> {
        self.public_inputs
    }

    /// The runtime tables supplied with this proof.
    pub closed spec fn spec_runtime_tables(self) -> Vec<RuntimeTable> {
        self.runtime_tables
    }

    /// The previous recursion challenges the proof accounts for.
    pub closed spec fn spec_recursion(self) -> Vec<RecursionChallenge> {
        self.recursion
    }

    /// The assembled prover index.
    pub closed spec fn spec_prover_index(self) -> ProverIndex {
        self.prover_index
    }

    /// The verifier index derived from the prover index.
    pub closed spec fn spec_verifier_index(self) -> VerifierIndex {
        self.verifier_index
    }
}

/// The smallest power of two that is at least `n`.
pub fn next_pow2(n: usize) -> (r: usize)
    requires
        1 <= n <= MAX_CIRCUIT,
    ensures
        is_pow2(r as int),
        n <= r,
        r < 2 * n,
{
    let mut d: usize = 1;
    proof {
        reveal(vstd::arithmetic::power2::is_pow2);
        assert(is_pow2(1int));
    }
    while d < n
        invariant
            is_pow2(d as int),
            1 <= d,
            d == 1 || d / 2 < n,
            n <= MAX_CIRCUIT,
        decreases 2 * n - d,
    {
        let ghost d0 = d;
        d = d * 2;
        proof {
            reveal(vstd::arithmetic::power2::is_pow2);
            assert(d as int / 2 == d0 as int);
            assert(is_pow2(d as int));
        }
    }
    proof {
        reveal(vstd::arithmetic::power2::is_pow2);
        if d > 1 {
            assert(d % 2 == 0);
            assert(d == 2 * (d / 2));
        }
    }
    d
}

/// The exponent of a power of two.
pub fn log2_of_pow2(d: usize) -> (r: usize)
    requires
        is_pow2(d as int),
    ensures
        pow2(r as nat) == d,
        r <= 64,
{
    let mut x: usize = d;
    let mut k: usize = 0;
    proof {
        lemma2_to64();
        reveal(vstd::arithmetic::power2::is_pow2);
        assert(d >= 1);
        crate::bitwise::lemma_mul_one_left(pow2(0), d as nat);
    }
    while x > 1
        invariant
            is_pow2(x as int),
            1 <= x,
            pow2(k as nat) * x == d,
            k <= 64,
            pow2(k as nat) <= d,
        decreases x,
    {
        proof {
            reveal(vstd::arithmetic::power2::is_pow2);
            lemma2_to64();
            assert(x % 2 == 0 && is_pow2(x as int / 2));
            lemma_pow2_unfold((k + 1) as nat);
            assert(pow2((k + 1) as nat) * (x as nat / 2) == pow2(k as nat) * x as nat) by {
                crate::bitwise::lemma_shift_factor(pow2(k as nat), x as nat);
            }
            assert(pow2((k + 1) as nat) <= d) by {
                assert(x / 2 >= 1);
                crate::bitwise::lemma_mul_lower(pow2((k + 1) as nat), (x / 2) as nat);
            }
            assert(k < 64) by {
                if k >= 64 {
                    assert(pow2(64) <= pow2(k as nat)) by {
                        if k > 64 {
                            vstd::arithmetic::power2::lemma_pow2_strictly_increases(
                                64,
                                k as nat,
                            );
                        }
                    }
                    assert(d >= 0x10000000000000000);
                    assert(d <= usize::MAX);
                }
            }
        }
        x = x / 2;
        k = k + 1;
    }
    proof {
        crate::bitwise::lemma_mul_one_right(pow2(k as nat), x as nat);
    }
    k
}

impl FuzzFramework {
    /// Chooses the scalar field the circuit works over.
    #[must_use]
    pub fn field(self, field: FieldId) -> (r: Self)
        ensures
            r.field == field,
            r.gates == self.gates,
            r.witness == self.witness,
            r.public_inputs == self.public_inputs,
            r.lookup_tables == self.lookup_tables,
            r.runtime_tables_setup == self.runtime_tables_setup,
            r.num_prev_challenges == self.num_prev_challenges,
            r.disable_gates_checks == self.disable_gates_checks,
    {
        FuzzFramework { field, ..self }
    }

    /// Sets the circuit's gate list.
    #[must_use]
    pub fn gates(self, gates: Vec<Gate>) -> (r: Self)
        ensures
            r.gates == Some(gates),
            r.field == self.field,
            r.witness == self.witness,
            r.public_inputs == self.public_inputs,
            r.lookup_tables == self.lookup_tables,
            r.runtime_tables_setup == self.runtime_tables_setup,
            r.num_prev_challenges == self.num_prev_challenges,
            r.disable_gates_checks == self.disable_gates_checks,
    {
        FuzzFramework { gates: Some(gates), ..self }
    }

    /// Sets the witness.
    #[must_use]
    pub fn witness(self, witness: Witness) -> (r: Self)
        ensures
            r.witness == Some(witness),
            r.field == self.field,
            r.gates == self.gates,
            r.public_inputs == self.public_inputs,
            r.lookup_tables == self.lookup_tables,
            r.runtime_tables_setup == self.runtime_tables_setup,
            r.num_prev_challenges == self.num_prev_challenges,
            r.disable_gates_checks == self.disable_gates_checks,
    {
        FuzzFramework { witness: Some(witness), ..self }
    }

    /// Sets the public input values.
    #[must_use]
    pub fn public_inputs(self, public_inputs: Vec<Fe>) -> (r: Self)
        ensures
            r.public_inputs == public_inputs,
            r.field == self.field,
            r.gates == self.gates,
            r.witness == self.witness,
            r.lookup_tables == self.lookup_tables,
            r.runtime_tables_setup == self.runtime_tables_setup,
            r.num_prev_challenges == self.num_prev_challenges,
            r.disable_gates_checks == self.disable_gates_checks,
    {
        FuzzFramework { public_inputs, ..self }
    }

    /// Sets how many previous recursion challenges the circuit accounts for.
    #[must_use]
    pub fn num_prev_challenges(self, num_prev_challenges: usize) -> (r: Self)
        ensures
            r.num_prev_challenges == num_prev_challenges,
            r.field == self.field,
            r.gates == self.gates,
            r.witness == self.witness,
            r.public_inputs == self.public_inputs,
            r.lookup_tables == self.lookup_tables,
            r.runtime_tables_setup == self.runtime_tables_setup,
            r.disable_gates_checks == self.disable_gates_checks,
    {
        FuzzFramework { num_prev_challenges, ..self }
    }

    /// Sets the fixed lookup tables.
    #[must_use]
    pub fn lookup_tables(self, lookup_tables: Vec<LookupTable>) -> (r: Self)
        ensures
            r.lookup_tables == lookup_tables,
            r.field == self.field,
            r.gates == self.gates,
            r.witness == self.witness,
            r.public_inputs == self.public_inputs,
            r.runtime_tables_setup == self.runtime_tables_setup,
            r.num_prev_challenges == self.num_prev_challenges,
            r.disable_gates_checks == self.disable_gates_checks,
    {
        FuzzFramework { lookup_tables, ..self }
    }

    /// Sets the runtime-table configuration.
    #[must_use]
    pub fn runtime_tables_setup(self, runtime_tables_setup: Vec<RuntimeTableCfg>) -> (r: Self)
        ensures
            r.runtime_tables_setup == Some(runtime_tables_setup),
            r.field == self.field,
            r.gates == self.gates,
            r.witness == self.witness,
            r.public_inputs == self.public_inputs,
            r.lookup_tables == self.lookup_tables,
            r.num_prev_challenges == self.num_prev_challenges,
            r.disable_gates_checks == self.disable_gates_checks,
    {
        FuzzFramework { runtime_tables_setup: Some(runtime_tables_setup), ..self }
    }

    /// Sets whether the backend's per-gate witness checks are skipped.
    #[must_use]
    pub fn disable_gates_checks(self, disable_gates_checks: bool) -> (r: Self)
        ensures
            r.disable_gates_checks == disable_gates_checks,
            r.field == self.field,
            r.gates == self.gates,
            r.witness == self.witness,
            r.public_inputs == self.public_inputs,
            r.lookup_tables == self.lookup_tables,
            r.runtime_tables_setup == self.runtime_tables_setup,
            r.num_prev_challenges == self.num_prev_challenges,
    {
        FuzzFramework { disable_gates_checks, ..self }
    }

    /// Assembles the index pair and fixes the circuit shape: the proving
    /// domain is the smallest power of two covering the gates and the
    /// zero-knowledge rows, the reference string covers the domain, and the
    /// verifier index is derived from the prover index. Runs at most once
    /// per builder, which it consumes.
    #[must_use]
    pub fn setup(self) -> (r: FuzzRunner)
        requires
            self.gates is Some,
            1 <= self.gates.unwrap()@.len() <= MAX_CIRCUIT - ZK_ROWS,
        ensures
            r.spec_field() == self.field,
            r.spec_witness() == self.witness,
            r.spec_public_inputs() == self.public_inputs,
            r.spec_runtime_tables()@.len() == 0,
            r.spec_recursion()@.len() == 0,
            r.spec_prover_index().gates == self.gates.unwrap(),
            is_pow2(r.spec_prover_index().domain_size as int),
            self.gates.unwrap()@.len() + ZK_ROWS <= r.spec_prover_index().domain_size,
            r.spec_prover_index().domain_size < 2 * (self.gates.unwrap()@.len() + ZK_ROWS),
            r.spec_prover_index().srs_size == r.spec_prover_index().domain_size,
            r.spec_prover_index().public_input_count == self.public_inputs@.len(),
            r.spec_prover_index().prev_challenge_count == self.num_prev_challenges,
            r.spec_prover_index().lookup_tables == self.lookup_tables,
            r.spec_prover_index().runtime_tables_setup == self.runtime_tables_setup,
            r.spec_prover_index().disable_gates_checks == self.disable_gates_checks,
            r.spec_verifier_index().domain_size == r.spec_prover_index().domain_size,
            r.spec_verifier_index().srs_size == r.spec_prover_index().srs_size,
            r.spec_verifier_index().public_input_count == r.spec_prover_index().public_input_count,
            r.spec_verifier_index().prev_challenge_count == r.spec_prover_index().prev_challenge_count,
    {
        let FuzzFramework {
            field,
            gates,
            witness,
            public_inputs,
            lookup_tables,
            runtime_tables_setup,
            num_prev_challenges,
            disable_gates_checks,
        } = self;
        let gates = gates.unwrap();
        let domain_size = next_pow2(gates.len() + ZK_ROWS);
        let prover_index = ProverIndex {
            gates,
            domain_size,
            srs_size: domain_size,
            public_input_count: public_inputs.len(),
            prev_challenge_count: num_prev_challenges,
            lookup_tables,
            runtime_tables_setup,
            disable_gates_checks,
        };
        let verifier_index = VerifierIndex {
            domain_size: prover_index.domain_size,
            srs_size: prover_index.srs_size,
            public_input_count: prover_index.public_input_count,
            prev_challenge_count: prover_index.prev_challenge_count,
        };
        FuzzRunner {
            field,
            witness,
            public_inputs,
            runtime_tables: Vec::new(),
            recursion: Vec::new(),
            prover_index,
            verifier_index,
        }
    }
}

} // verus!
verus! {

/// Cell `(r1, c1)` comes no earlier than `(r2, c2)` in the repair pass's
/// row-major order.
pub open spec fn later_cell(r1: int, c1: int, r2: int, c2: int) -> bool {
    r1 > r2 || (r1 == r2 && c1 >= c2)
}

/// The row of the cell whose original value the repair pass leaves in cell
/// `(r, c)`: of the cell and its wire target, whichever the pass reaches
/// last.
pub open spec fn src_row(gates: Seq<Gate>, r: int, c: int) -> int {
    let t = gates[r].wires[c];
    if later_cell(t.row as int, t.col as int, r, c) {
        t.row as int
    } else {
        r
    }
}

/// The column of the cell whose original value the repair pass leaves in
/// cell `(r, c)`.
pub open spec fn src_col(gates: Seq<Gate>, r: int, c: int) -> int {
    let t = gates[r].wires[c];
    if later_cell(t.row as int, t.col as int, r, c) {
        t.col as int
    } else {
        c
    }
}

/// Every declared copy constraint holds of the witness: each permutable
/// cell of a gate row equals the cell its wire targets.
pub open spec fn copy_constraints_hold(w: Witness, gates: Seq<Gate>) -> bool {
    forall|r: int, c: int|
        0 <= r < gates.len() && 0 <= c < PERMUTS ==> #[trigger] cellf(w, c, r) == cellf(
            w,
            gates[r].wires[c].col as int,
            gates[r].wires[c].row as int,
        )
}

/// Runtime check of `copy_constraints_hold`.
pub fn check_copy_constraints(w: &Witness, gates: &Vec<Gate>) -> (r: bool)
    requires
        wit_wf(*w),
        wires_ok(gates@),
        gates@.len() <= wit_rows(*w),
    ensures
        r == copy_constraints_hold(*w, gates@),
{
    let n = gates.len();
    let mut row: usize = 0;
    while row < n
        invariant
            row <= n,
            n == gates@.len(),
            wit_wf(*w),
            wires_ok(gates@),
            n <= wit_rows(*w),
            forall|r: int, c: int|
                0 <= r < row && 0 <= c < PERMUTS ==> #[trigger] cellf(*w, c, r) == cellf(
                    *w,
                    gates@[r].wires[c].col as int,
                    gates@[r].wires[c].row as int,
                ),
        decreases n - row,
    {
        let mut col: usize = 0;
        while col < PERMUTS
            invariant
                col <= PERMUTS,
                row < n,
                n == gates@.len(),
                wit_wf(*w),
                wires_ok(gates@),
                n <= wit_rows(*w),
                forall|c: int|
                    0 <= c < col ==> #[trigger] cellf(*w, c, row as int) == cellf(
                        *w,
                        gates@[row as int].wires[c].col as int,
                        gates@[row as int].wires[c].row as int,
                    ),
            decreases PERMUTS - col,
        {
            let t = gates[row].wires[col];
            proof {
                let tg = gates@[row as int].wires[col as int];
                assert(tg.row < n && tg.col < PERMUTS);
            }
            let a = w.cols[col][row];
            let b = w.cols[t.col][t.row];
            if a != b {
                proof {
                    assert(!copy_constraints_hold(*w, gates@)) by {
                        if copy_constraints_hold(*w, gates@) {
                            assert(cellf(*w, col as int, row as int) == cellf(
                                *w,
                                gates@[row as int].wires[col as int].col as int,
                                gates@[row as int].wires[col as int].row as int,
                            ));
                        }
                    }
                }
                return false;
            }
            col += 1;
        }
        row += 1;
    }
    true
}

/// Runtime check of `wit_wf`.
pub fn witness_well_formed(w: &Witness) -> (r: bool)
    ensures
        r == wit_wf(*w),
{
    if w.cols.len() != COLUMNS {
        return false;
    }
    let rows = w.cols[0].len();
    let mut c: usize = 1;
    while c < COLUMNS
        invariant
            1 <= c <= COLUMNS,
            w.cols@.len() == COLUMNS,
            rows == wit_rows(*w),
            forall|i: int| 0 <= i < c ==> (#[trigger] w.cols@[i])@.len() == rows,
        decreases COLUMNS - c,
    {
        if w.cols[c].len() != rows {
            return false;
        }
        c += 1;
    }
    true
}

/// One column padded with zero elements up to `target` rows.
pub open spec fn padded_col(s: Seq<Fe>, target: nat) -> Seq<Fe> {
    if s.len() >= target {
        s
    } else {
        s + Seq::new((target - s.len()) as nat, |i: int| Fe { l0: 0, l1: 0, l2: 0, l3: 0 })
    }
}

/// Padding is idempotent: a column already at the domain size is left
/// alone, so padding twice yields what padding once does.
pub proof fn lemma_padding_idempotent(s: Seq<Fe>, target: nat)
    ensures
        padded_col(padded_col(s, target), target) == padded_col(s, target),
{
    if s.len() < target {
        assert(padded_col(s, target).len() == target);
    }
}

/// Appends zero-valued elements to every column until its length is the
/// proving domain size.
pub fn pad_witness(w: &mut Witness, target: usize)
    requires
        wit_wf(*old(w)),
        wit_rows(*old(w)) <= target,
    ensures
        wit_wf(*final(w)),
        wit_rows(*final(w)) == target,
        forall|c: int|
            0 <= c < COLUMNS ==> (#[trigger] final(w).cols@[c])@ == padded_col(
                old(w).cols@[c]@,
                target as nat,
            ),
{
    let mut c: usize = 0;
    while c < COLUMNS
        invariant
            c <= COLUMNS,
            w.cols@.len() == COLUMNS,
            wit_wf(*old(w)),
            wit_rows(*old(w)) <= target,
            forall|i: int|
                0 <= i < c ==> (#[trigger] w.cols@[i])@ == padded_col(
                    old(w).cols@[i]@,
                    target as nat,
                ),
            forall|i: int| c <= i < COLUMNS ==> #[trigger] w.cols@[i] == old(w).cols@[i],
        decreases COLUMNS - c,
    {
        let ghost orig = w.cols@[c as int]@;
        let mut k: usize = w.cols[c].len();
        while k < target
            invariant
                w.cols@.len() == COLUMNS,
                c < COLUMNS,
                wit_rows(*old(w)) <= target,
                k == w.cols@[c as int]@.len(),
                orig == old(w).cols@[c as int]@,
                orig.len() <= k <= target,
                forall|i: int| 0 <= i < orig.len() ==> #[trigger] w.cols@[c as int]@[i] == orig[i],
                forall|i: int|
                    orig.len() <= i < k ==> #[trigger] w.cols@[c as int]@[i] == (Fe {
                        l0: 0,
                        l1: 0,
                        l2: 0,
                        l3: 0,
                    }),
                forall|i: int|
                    0 <= i < c ==> (#[trigger] w.cols@[i])@ == padded_col(
                        old(w).cols@[i]@,
                        target as nat,
                    ),
                forall|i: int| c < i < COLUMNS ==> #[trigger] w.cols@[i] == old(w).cols@[i],
            decreases target - k,
        {
            let z = fe_zero();
            proof {
                assert(z == (Fe { l0: 0, l1: 0, l2: 0, l3: 0 }));
            }
            w.cols[c].push(z);
            k += 1;
        }
        proof {
            assert(w.cols@[c as int]@ =~= padded_col(orig, target as nat));
        }
        c += 1;
    }
    proof {
        assert(wit_rows(*w) == target);
    }
}

} // verus!
verus! {

/// The repair pass's row-major order: whether cell `(r, c)` lies before
/// the frontier `(row, col)`.
pub open spec fn processed(r: int, c: int, row: int, col: int) -> bool {
    r < row || (r == row && c < col)
}

/// A pre-proving pass that forces every copy constraint to hold: each
/// permutable cell of a gate row is overwritten, in row-major order, with
/// the current value of the cell its wire targets. Of each wired pair the
/// value of the cell visited later wins, so after the pass every declared
/// copy constraint holds, whatever the witness held before.
pub fn repair_copy_constraints(w: &mut Witness, gates: &Vec<Gate>)
    requires
        wit_wf(*old(w)),
        wires_ok(gates@),
        gates@.len() <= wit_rows(*old(w)),
    ensures
        wit_wf(*final(w)),
        wit_rows(*final(w)) == wit_rows(*old(w)),
        forall|r: int, c: int|
            0 <= r < gates@.len() && 0 <= c < PERMUTS ==> #[trigger] cellf(*final(w), c, r)
                == cellf(*old(w), src_col(gates@, r, c), src_row(gates@, r, c)),
        forall|c: int, r: int|
            0 <= c < COLUMNS && 0 <= r < wit_rows(*old(w)) && (c >= PERMUTS || r
                >= gates@.len()) ==> #[trigger] cellf(*final(w), c, r) == cellf(*old(w), c, r),
        copy_constraints_hold(*final(w), gates@),
{
    let n = gates.len();
    let mut row: usize = 0;
    while row < n
        invariant
            row <= n,
            n == gates@.len(),
            wit_wf(*w),
            wires_ok(gates@),
            n <= wit_rows(*old(w)),
            wit_rows(*w) == wit_rows(*old(w)),
            forall|r: int, c: int|
                0 <= r < row && 0 <= c < PERMUTS ==> #[trigger] cellf(*w, c, r) == cellf(
                    *old(w),
                    src_col(gates@, r, c),
                    src_row(gates@, r, c),
                ),
            forall|c: int, r: int|
                0 <= c < COLUMNS && 0 <= r < wit_rows(*old(w)) && !(r < row && c < PERMUTS)
                    ==> #[trigger] cellf(*w, c, r) == cellf(*old(w), c, r),
        decreases n - row,
    {
        let mut col: usize = 0;
        while col < PERMUTS
            invariant
                col <= PERMUTS,
                row < n,
                n == gates@.len(),
                wit_wf(*w),
                wires_ok(gates@),
                n <= wit_rows(*old(w)),
                wit_rows(*w) == wit_rows(*old(w)),
                forall|r: int, c: int|
                    0 <= r < n && 0 <= c < PERMUTS && processed(r, c, row as int, col as int)
                        ==> #[trigger] cellf(*w, c, r) == cellf(
                        *old(w),
                        src_col(gates@, r, c),
                        src_row(gates@, r, c),
                    ),
                forall|c: int, r: int|
                    0 <= c < COLUMNS && 0 <= r < wit_rows(*old(w)) && !(processed(
                        r,
                        c,
                        row as int,
                        col as int,
                    ) && c < PERMUTS) ==> #[trigger] cellf(*w, c, r) == cellf(*old(w), c, r),
            decreases PERMUTS - col,
        {
            let t = gates[row].wires[col];
            proof {
                let tg = gates@[row as int].wires[col as int];
                assert(tg.row < n && tg.col < PERMUTS);
            }
            let v = w.cols[t.col][t.row];
            let ghost wp = *w;
            set_cell(w, col, row, v);
            proof {
                let g = gates@;
                let ri = row as int;
                let ci = col as int;
                let tr = g[ri].wires[ci].row as int;
                let tc = g[ri].wires[ci].col as int;
                assert(g[tr].wires[tc].row == ri && g[tr].wires[tc].col == ci);
                assert(v == cellf(wp, tc, tr));
                assert(cellf(*w, ci, ri) == v);
                if later_cell(tr, tc, ri, ci) {
                    assert(!(processed(tr, tc, ri, ci) && tc < PERMUTS));
                    assert(cellf(wp, tc, tr) == cellf(*old(w), tc, tr));
                    assert(src_row(g, ri, ci) == tr && src_col(g, ri, ci) == tc);
                } else {
                    assert(processed(tr, tc, ri, ci));
                    assert(cellf(wp, tc, tr) == cellf(
                        *old(w),
                        src_col(g, tr, tc),
                        src_row(g, tr, tc),
                    ));
                    assert(later_cell(ri, ci, tr, tc));
                    assert(src_row(g, tr, tc) == ri && src_col(g, tr, tc) == ci);
                    assert(src_row(g, ri, ci) == ri && src_col(g, ri, ci) == ci);
                }
                assert(cellf(*w, ci, ri) == cellf(*old(w), src_col(g, ri, ci), src_row(g, ri, ci)));
                assert forall|r: int, c: int|
                    0 <= r < n && 0 <= c < PERMUTS && processed(r, c, ri, ci + 1) implies #[trigger] cellf(
                    *w,
                    c,
                    r,
                ) == cellf(*old(w), src_col(g, r, c), src_row(g, r, c)) by {
                    if !(r == ri && c == ci) {
                        assert(cellf(*w, c, r) == cellf(wp, c, r));
                    }
                }
                assert forall|c: int, r: int|
                    0 <= c < COLUMNS && 0 <= r < wit_rows(*old(w)) && !(processed(r, c, ri, ci + 1)
                        && c < PERMUTS) implies #[trigger] cellf(*w, c, r) == cellf(
                    *old(w),
                    c,
                    r,
                ) by {
                    assert(!(r == ri && c == ci));
                    assert(cellf(*w, c, r) == cellf(wp, c, r));
                }
            }
            col += 1;
        }
        row += 1;
    }
    proof {
        let g = gates@;
        assert forall|r: int, c: int| 0 <= r < g.len() && 0 <= c < PERMUTS implies #[trigger] cellf(
            *w,
            c,
            r,
        ) == cellf(*w, g[r].wires[c].col as int, g[r].wires[c].row as int) by {
            let tr = g[r].wires[c].row as int;
            let tc = g[r].wires[c].col as int;
            assert(tr < g.len() && tc < PERMUTS);
            assert(g[tr].wires[tc].row == r && g[tr].wires[tc].col == c);
            assert(cellf(*w, c, r) == cellf(*old(w), src_col(g, r, c), src_row(g, r, c)));
            assert(cellf(*w, tc, tr) == cellf(*old(w), src_col(g, tr, tc), src_row(g, tr, tc)));
            if tr == r && tc == c {
            } else if later_cell(tr, tc, r, c) {
                assert(src_row(g, r, c) == tr && src_col(g, r, c) == tc);
                assert(!later_cell(r, c, tr, tc));
                assert(src_row(g, tr, tc) == tr && src_col(g, tr, tc) == tc);
            } else {
                assert(src_row(g, r, c) == r && src_col(g, r, c) == c);
                assert(later_cell(r, c, tr, tc));
                assert(src_row(g, tr, tc) == r && src_col(g, tr, tc) == c);
            }
        }
    }
}

} // verus!
verus! {

/// The cell a padded witness holds at `(c, r)`: the original cell within
/// the original rows, a zero element in the padding.
pub open spec fn padded_cellf(w: Witness, c: int, r: int) -> Fe {
    if r < wit_rows(w) {
        cellf(w, c, r)
    } else {
        Fe { l0: 0, l1: 0, l2: 0, l3: 0 }
    }
}

/// The cell the prepared witness holds at `(c, r)`: for a permutable cell
/// of a gate row, the padded original value of the later of the cell and
/// its wire target; anywhere else, the padded original value of the cell
/// itself.
pub open spec fn prepared_cellf(w0: Witness, gates: Seq<Gate>, c: int, r: int) -> Fe {
    if 0 <= r < gates.len() && 0 <= c < PERMUTS {
        padded_cellf(w0, src_col(gates, r, c), src_row(gates, r, c))
    } else {
        padded_cellf(w0, c, r)
    }
}

/// Everything proof creation and verification consume: the padded and
/// repaired witness, the public inputs, the runtime tables, the previous
/// recursion challenges, and the index pair the circuit was assembled
/// into.
#[derive(Clone, Debug)]
pub struct ProverInputs {
    pub witness: Witness,
    pub public_inputs: Vec<Fe>,
    pub runtime_tables: Vec<RuntimeTable>,
    pub prev_challenges: Vec<RecursionChallenge>,
    pub prover_index: ProverIndex,
    pub verifier_index: VerifierIndex,
}

impl FuzzRunner {
    /// Sets the runtime tables supplied with this proof.
    #[must_use]
    pub fn runtime_tables(self, runtime_tables: Vec<RuntimeTable>) -> (r: Self)
        ensures
            r.spec_runtime_tables() == runtime_tables,
            r.spec_field() == self.spec_field(),
            r.spec_witness() == self.spec_witness(),
            r.spec_public_inputs() == self.spec_public_inputs(),
            r.spec_recursion() == self.spec_recursion(),
            r.spec_prover_index() == self.spec_prover_index(),
            r.spec_verifier_index() == self.spec_verifier_index(),
    {
        FuzzRunner { runtime_tables, ..self }
    }

    /// Sets the previous recursion challenges the proof accounts for.
    #[must_use]
    pub fn recursion(self, recursion: Vec<RecursionChallenge>) -> (r: Self)
        ensures
            r.spec_recursion() == recursion,
            r.spec_field() == self.spec_field(),
            r.spec_witness() == self.spec_witness(),
            r.spec_public_inputs() == self.spec_public_inputs(),
            r.spec_runtime_tables() == self.spec_runtime_tables(),
            r.spec_prover_index() == self.spec_prover_index(),
            r.spec_verifier_index() == self.spec_verifier_index(),
    {
        FuzzRunner { recursion, ..self }
    }

    /// Replaces the witness.
    #[must_use]
    pub fn witness(self, witness: Witness) -> (r: Self)
        ensures
            r.spec_witness() == Some(witness),
            r.spec_field() == self.spec_field(),
            r.spec_public_inputs() == self.spec_public_inputs(),
            r.spec_runtime_tables() == self.spec_runtime_tables(),
            r.spec_recursion() == self.spec_recursion(),
            r.spec_prover_index() == self.spec_prover_index(),
            r.spec_verifier_index() == self.spec_verifier_index(),
    {
        FuzzRunner { witness: Some(witness), ..self }
    }

    /// The assembled prover index.
    pub fn prover_index(&self) -> (r: &ProverIndex)
        ensures
            *r == self.spec_prover_index(),
    {
        &self.prover_index
    }

    /// The verifier index derived from the prover index.
    pub fn verifier_index(&self) -> (r: &VerifierIndex)
        ensures
            *r == self.spec_verifier_index(),
    {
        &self.verifier_index
    }

    /// Assembles the inputs of proof creation: pads the witness to the
    /// proving domain, then repairs every copy constraint in place. Fails
    /// when no witness was supplied, when its columns are uneven, when it
    /// overruns the domain, or when the circuit's wiring is disconnected;
    /// each error names the first violation in that order.
    pub fn prepare_prover_inputs(self) -> (r: Result<ProverInputs, FuzzError>)
        requires
            self.spec_prover_index().gates@.len() <= self.spec_prover_index().domain_size,
        ensures
            (self.spec_witness() is None) ==> r == Err::<ProverInputs, FuzzError>(
                FuzzError::MissingWitness,
            ),
            (self.spec_witness() is Some && !wit_wf(self.spec_witness().unwrap())) ==> r == Err::<
                ProverInputs,
                FuzzError,
            >(FuzzError::MalformedWitness),
            (self.spec_witness() is Some && wit_wf(self.spec_witness().unwrap()) && wit_rows(
                self.spec_witness().unwrap(),
            ) > self.spec_prover_index().domain_size) ==> r == Err::<ProverInputs, FuzzError>(
                FuzzError::WitnessTooLong,
            ),
            (self.spec_witness() is Some && wit_wf(self.spec_witness().unwrap()) && wit_rows(
                self.spec_witness().unwrap(),
            ) <= self.spec_prover_index().domain_size && !wires_ok(self.spec_prover_index().gates@)) ==> r
                == Err::<ProverInputs, FuzzError>(FuzzError::DisconnectedWires),
            (self.spec_witness() is Some && wit_wf(self.spec_witness().unwrap()) && wit_rows(
                self.spec_witness().unwrap(),
            ) <= self.spec_prover_index().domain_size && wires_ok(self.spec_prover_index().gates@)) ==> {
                &&& r is Ok
                &&& wit_wf(r.unwrap().witness)
                &&& wit_rows(r.unwrap().witness) == self.spec_prover_index().domain_size
                &&& copy_constraints_hold(r.unwrap().witness, self.spec_prover_index().gates@)
                &&& forall|c: int, rr: int|
                    0 <= c < COLUMNS && 0 <= rr < self.spec_prover_index().domain_size ==> #[trigger] cellf(
                        r.unwrap().witness,
                        c,
                        rr,
                    ) == prepared_cellf(self.spec_witness().unwrap(), self.spec_prover_index().gates@, c, rr)
                &&& r.unwrap().public_inputs == self.spec_public_inputs()
                &&& r.unwrap().runtime_tables == self.spec_runtime_tables()
                &&& r.unwrap().prev_challenges == self.spec_recursion()
                &&& r.unwrap().prover_index == self.spec_prover_index()
                &&& r.unwrap().verifier_index == self.spec_verifier_index()
            },
    {
        let FuzzRunner {
            field: _,
            witness,
            public_inputs,
            runtime_tables,
            recursion,
            prover_index,
            verifier_index,
        } = self;
        let mut w = match witness {
            None => {
                return Err(FuzzError::MissingWitness);
            },
            Some(w) => w,
        };
        if !witness_well_formed(&w) {
            return Err(FuzzError::MalformedWitness);
        }
        if w.cols[0].len() > prover_index.domain_size {
            return Err(FuzzError::WitnessTooLong);
        }
        if !wires_well_formed(&prover_index.gates) {
            return Err(FuzzError::DisconnectedWires);
        }
        let ghost w0 = w;
        pad_witness(&mut w, prover_index.domain_size);
        let ghost wpad = w;
        repair_copy_constraints(&mut w, &prover_index.gates);
        proof {
            let g = prover_index.gates@;
            let dom = prover_index.domain_size as int;
            assert forall|c: int, rr: int| 0 <= c < COLUMNS && 0 <= rr < dom implies #[trigger] cellf(
                w,
                c,
                rr,
            ) == prepared_cellf(w0, g, c, rr) by {
                assert forall|c2: int, r2: int|
                    0 <= c2 < COLUMNS && 0 <= r2 < dom implies #[trigger] cellf(wpad, c2, r2)
                    == padded_cellf(w0, c2, r2) by {
                    assert(wpad.cols@[c2]@ == padded_col(w0.cols@[c2]@, (dom) as nat));
                    if r2 < wit_rows(w0) {
                        assert(wpad.cols@[c2]@[r2] == w0.cols@[c2]@[r2]);
                    } else {
                        assert(wpad.cols@[c2]@[r2] == (Fe { l0: 0, l1: 0, l2: 0, l3: 0 }));
                    }
                }
                if 0 <= rr < g.len() && 0 <= c < PERMUTS {
                    assert(cellf(w, c, rr) == cellf(wpad, src_col(g, rr, c), src_row(g, rr, c)));
                    let tr = src_row(g, rr, c);
                    let tc = src_col(g, rr, c);
                    assert(0 <= tr < g.len() && 0 <= tc < PERMUTS);
                    assert(cellf(wpad, tc, tr) == padded_cellf(w0, tc, tr));
                } else {
                    assert(cellf(w, c, rr) == cellf(wpad, c, rr));
                }
            }
        }
        Ok(
            ProverInputs {
                witness: w,
                public_inputs,
                runtime_tables,
                prev_challenges: recursion,
                prover_index,
                verifier_index,
            },
        )
    }
}

} // verus!
verus! {

/// The structural precondition of recursive verification: a proof that
/// accounts for a list of previous-proof accumulators can only be checked
/// against a verifier index configured for exactly that many previous
/// challenges. The check itself belongs to the proving backend; this
/// decides the count condition it is keyed on.
pub fn recursion_count_matches(vi: &VerifierIndex, prev: &Vec<RecursionChallenge>) -> (r: bool)
    ensures
        r == (prev@.len() == vi.prev_challenge_count),
{
    prev.len() == vi.prev_challenge_count
}

} // verus!
