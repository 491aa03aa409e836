//! The row and wire model: a circuit is an ordered sequence of gates, one
//! per row. A row has `COLUMNS` witness columns; the first `PERMUTS` of them
//! are permutable wire slots that copy constraints can connect. A wire
//! reference is a `(row, col)` pair; two cells connected by a copy
//! constraint must carry equal witness values at proof time.

use vstd::prelude::*;

verus! {

use crate::fe::Fe;

/// Witness columns per row.
pub const COLUMNS: usize = 15;

/// Columns per row that take part in the permutation argument.
pub const PERMUTS: usize = 7;

/// One copy-constraint target.
#[derive(Clone, Copy, PartialEq, Eq, Structural, Debug)]
pub struct Wire {
    pub row: usize,
    pub col: usize,
}

/// The constraint type a row enforces.
#[derive(Clone, Copy, PartialEq, Eq, Structural, Debug)]
pub enum GateKind {
    /// A double generic gate: two linear combinations over three cells each.
    Generic,
    /// One 16-bit slice of the XOR lookup relation.
    Xor16,
    /// No constraint.
    Zero,
    /// The 64-bit rotation combination row.
    Rot64,
    /// A 64-bit range check on the first cell of the row.
    RangeCheck0,
}

/// One gate: its kind, one wire target per permutable slot, and its
/// ordered coefficients.
#[derive(Clone, Debug)]
pub struct Gate {
    pub kind: GateKind,
    pub wires: Vec<Wire>,
    pub coeffs: Vec<Fe>,
}

/// Every gate carries exactly one wire slot per permutable column.
pub open spec fn gates_shape_ok(gates: Seq<Gate>) -> bool {
    forall|r: int| 0 <= r < gates.len() ==> (#[trigger] gates[r].wires).len() == PERMUTS
}

/// The slot `(r, c)` targets the slot `(r2, c2)`.
pub open spec fn targets(gates: Seq<Gate>, r: int, c: int, r2: int, c2: int) -> bool {
    gates[r].wires[c].row == r2 && gates[r].wires[c].col == c2
}

/// The wire relation is in range and symmetric: a slot either targets
/// itself or targets a slot that points straight back.
pub open spec fn wires_ok(gates: Seq<Gate>) -> bool {
    &&& gates_shape_ok(gates)
    &&& forall|r: int, c: int|
        0 <= r < gates.len() && 0 <= c < PERMUTS ==> {
            let t = #[trigger] gates[r].wires[c];
            &&& t.row < gates.len()
            &&& t.col < PERMUTS
            &&& gates[t.row as int].wires[t.col as int].row == r
            &&& gates[t.row as int].wires[t.col as int].col == c
        }
}

/// A gate whose slots all target themselves, at row `r`.
pub open spec fn self_wired(g: Gate, r: int) -> bool {
    &&& g.wires.len() == PERMUTS
    &&& forall|c: int|
        0 <= c < PERMUTS ==> (#[trigger] g.wires[c]).row == r && g.wires[c].col == c
}

/// The self-targeting wire vector for row `r`.
pub fn wires_for_row(r: usize) -> (w: Vec<Wire>)
    ensures
        w.len() == PERMUTS,
        forall|c: int| 0 <= c < PERMUTS ==> (#[trigger] w[c]).row == r && w[c].col == c,
{
    let mut w: Vec<Wire> = Vec::new();
    let mut c: usize = 0;
    while c < PERMUTS
        invariant
            c <= PERMUTS,
            w.len() == c,
            forall|i: int| 0 <= i < c ==> (#[trigger] w[i]).row == r && w[i].col == i,
        decreases PERMUTS - c,
    {
        w.push(Wire { row: r, col: c });
        c += 1;
    }
    w
}

/// Appending a self-wired gate keeps the wire relation well formed.
pub proof fn lemma_push_self_wired(gates: Seq<Gate>, g: Gate)
    requires
        wires_ok(gates),
        self_wired(g, gates.len() as int),
    ensures
        wires_ok(gates.push(g)),
{
    let s = gates.push(g);
    assert forall|r: int, c: int| 0 <= r < s.len() && 0 <= c < PERMUTS implies {
        let t = #[trigger] s[r].wires[c];
        &&& t.row < s.len()
        &&& t.col < PERMUTS
        &&& s[t.row as int].wires[t.col as int].row == r
        &&& s[t.row as int].wires[t.col as int].col == c
    } by {
        if r < gates.len() {
            let t = gates[r].wires[c];
            assert(s[r] == gates[r]);
            assert(t.row < gates.len() && t.col < PERMUTS);
            assert(s[t.row as int] == gates[t.row as int]);
        } else {
            assert(s[r] == g);
            let t = g.wires[c];
            assert(t.row == gates.len() && t.col == c);
            assert(s[t.row as int] == g);
        }
    }
}

/// Connects two distinct, currently self-wired cells into one copy
/// constraint, keeping the relation symmetric.
pub fn connect_cell_pair(gates: &mut Vec<Gate>, r1: usize, c1: usize, r2: usize, c2: usize)
    requires
        wires_ok(old(gates)@),
        r1 < old(gates)@.len(),
        r2 < old(gates)@.len(),
        c1 < PERMUTS,
        c2 < PERMUTS,
        !(r1 == r2 && c1 == c2),
        targets(old(gates)@, r1 as int, c1 as int, r1 as int, c1 as int),
        targets(old(gates)@, r2 as int, c2 as int, r2 as int, c2 as int),
    ensures
        final(gates)@.len() == old(gates)@.len(),
        wires_ok(final(gates)@),
        targets(final(gates)@, r1 as int, c1 as int, r2 as int, c2 as int),
        targets(final(gates)@, r2 as int, c2 as int, r1 as int, c1 as int),
        forall|r: int|
            0 <= r < final(gates)@.len() && r != r1 && r != r2 ==> #[trigger] final(gates)@[r]
                == old(gates)@[r],
        forall|r: int, c: int|
            0 <= r < final(gates)@.len() && 0 <= c < PERMUTS && !(r == r1 && c == c1) && !(r == r2
                && c == c2) ==> #[trigger] final(gates)@[r].wires[c] == old(gates)@[r].wires[c],
        forall|r: int|
            0 <= r < final(gates)@.len() ==> (#[trigger] final(gates)@[r]).kind
                == old(gates)@[r].kind && final(gates)@[r].coeffs == old(gates)@[r].coeffs
                && final(gates)@[r].wires.len() == old(gates)@[r].wires.len(),
{
    let ghost g0 = gates@;
    let w1 = Wire { row: r2, col: c2 };
    let w2 = Wire { row: r1, col: c1 };
    gates[r1].wires[c1] = w1;
    gates[r2].wires[c2] = w2;
    proof {
        let s = gates@;
        assert forall|r: int, c: int| 0 <= r < s.len() && 0 <= c < PERMUTS implies {
            let t = #[trigger] s[r].wires[c];
            &&& t.row < s.len()
            &&& t.col < PERMUTS
            &&& s[t.row as int].wires[t.col as int].row == r
            &&& s[t.row as int].wires[t.col as int].col == c
        } by {
            if r == r1 && c == c1 {
                assert(s[r].wires[c] == w1);
                assert(s[r2 as int].wires[c2 as int] == w2);
            } else if r == r2 && c == c2 {
                assert(s[r].wires[c] == w2);
                assert(s[r1 as int].wires[c1 as int] == w1);
            } else {
                assert(s[r].wires[c] == g0[r].wires[c]);
                let t = g0[r].wires[c];
                assert(t.row < g0.len() && t.col < PERMUTS);
                assert(g0[t.row as int].wires[t.col as int].row == r);
                assert(g0[t.row as int].wires[t.col as int].col == c);
                assert(!(t.row == r1 && t.col == c1)) by {
                    if t.row == r1 && t.col == c1 {
                        assert(g0[r1 as int].wires[c1 as int].row == r);
                        assert(g0[r1 as int].wires[c1 as int].col == c);
                        assert(r == r1 && c == c1);
                    }
                }
                assert(!(t.row == r2 && t.col == c2)) by {
                    if t.row == r2 && t.col == c2 {
                        assert(g0[r2 as int].wires[c2 as int].row == r);
                        assert(g0[r2 as int].wires[c2 as int].col == c);
                        assert(r == r2 && c == c2);
                    }
                }
                assert(s[t.row as int].wires[t.col as int] == g0[t.row as int].wires[t.col as int]);
            }
        }
    }
}

/// Runtime check that the wire relation of a gate list is well formed:
/// in range and symmetric.
pub fn wires_well_formed(gates: &Vec<Gate>) -> (r: bool)
    ensures
        r == wires_ok(gates@),
{
    let n = gates.len();
    let mut row: usize = 0;
    while row < n
        invariant
            row <= n,
            n == gates@.len(),
            forall|r: int| 0 <= r < row ==> (#[trigger] gates@[r].wires).len() == PERMUTS,
            forall|r: int, c: int|
                0 <= r < row && 0 <= c < PERMUTS ==> {
                    let t = #[trigger] gates@[r].wires[c];
                    &&& t.row < gates@.len()
                    &&& t.col < PERMUTS
                    &&& gates@[t.row as int].wires[t.col as int].row == r
                    &&& gates@[t.row as int].wires[t.col as int].col == c
                },
        decreases n - row,
    {
        if gates[row].wires.len() != PERMUTS {
            assert(!gates_shape_ok(gates@)) by {
                assert(gates@[row as int].wires.len() != PERMUTS);
            }
            return false;
        }
        let mut col: usize = 0;
        while col < PERMUTS
            invariant
                col <= PERMUTS,
                row < n,
                n == gates@.len(),
                gates@[row as int].wires.len() == PERMUTS,
                forall|r: int| 0 <= r < row ==> (#[trigger] gates@[r].wires).len() == PERMUTS,
                forall|r: int, c: int|
                    0 <= r < row && 0 <= c < PERMUTS ==> {
                        let t = #[trigger] gates@[r].wires[c];
                        &&& t.row < gates@.len()
                        &&& t.col < PERMUTS
                        &&& gates@[t.row as int].wires[t.col as int].row == r
                        &&& gates@[t.row as int].wires[t.col as int].col == c
                    },
                forall|c: int|
                    0 <= c < col ==> {
                        let t = #[trigger] gates@[row as int].wires[c];
                        &&& t.row < gates@.len()
                        &&& t.col < PERMUTS
                        &&& gates@[t.row as int].wires[t.col as int].row == row
                        &&& gates@[t.row as int].wires[t.col as int].col == c
                    },
            decreases PERMUTS - col,
        {
            let t = gates[row].wires[col];
            if t.row >= n || t.col >= PERMUTS {
                assert(!wires_ok(gates@)) by {
                    if wires_ok(gates@) {
                        assert(gates@[row as int].wires[col as int].row < gates@.len()
                            && gates@[row as int].wires[col as int].col < PERMUTS);
                    }
                }
                return false;
            }
            if gates[t.row].wires.len() != PERMUTS {
                assert(!gates_shape_ok(gates@)) by {
                    assert(gates@[t.row as int].wires.len() != PERMUTS);
                }
                return false;
            }
            let back = gates[t.row].wires[t.col];
            if back.row != row || back.col != col {
                assert(!wires_ok(gates@)) by {
                    if wires_ok(gates@) {
                        assert(gates@[row as int].wires[col as int].row == t.row as int);
                        assert(gates@[t.row as int].wires[t.col as int].row == row
                            && gates@[t.row as int].wires[t.col as int].col == col);
                    }
                }
                return false;
            }
            col += 1;
        }
        row += 1;
    }
    true
}

} // verus!
