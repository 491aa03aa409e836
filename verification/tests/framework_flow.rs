use kimchi_fuzz::decode::{bytes_to_field_elems, decode_public_inputs};
use kimchi_fuzz::drivers::{
    run_and_case, run_not_case, run_rot_case, run_seeded_and_case, run_xor_case,
};
use kimchi_fuzz::fe::{fe_from_u64, Fe, FieldId};
use kimchi_fuzz::framework::{
    check_copy_constraints, pad_witness, recursion_count_matches, FuzzError, FuzzFramework,
    LookupTable,
};
use kimchi_fuzz::gadgets::{extend_and, extend_not_checked, num_xors, RotMode};
use kimchi_fuzz::gate::{wires_well_formed, Gate, Wire};
use kimchi_fuzz::rng::{create_recursion_challenge, gen_field_bits, rng_from_seed, rng_next_u64};
use kimchi_fuzz::witness::{create_and_witness, witness_zero, Witness};

#[test]
fn and_round_trip_assembles() {
    // The eight-bit scenario drives the whole pipeline with zero public
    // inputs: the assembled witness must satisfy every copy constraint.
    let x = fe_from_u64(0b10110011);
    let y = fe_from_u64(0b01100110);
    let r = run_and_case(FieldId::Fp, 1, x, y).unwrap();
    assert!(r.public_inputs.is_empty());
    let and_row = num_xors(8) + 1;
    assert_eq!(r.witness.cols[5][and_row], fe_from_u64(34));
    assert_eq!(r.witness.cols[4][and_row], fe_from_u64(213));
    let mut gates: Vec<Gate> = Vec::new();
    extend_and(&mut gates, FieldId::Fp, 1);
    assert!(check_copy_constraints(&r.witness, &gates));
}

#[test]
fn xor_and_rot_round_trips_assemble() {
    let r = run_xor_case(
        FieldId::Fq,
        64,
        fe_from_u64(0xff00ff00ff00ff00),
        fe_from_u64(0x0123456789abcdef),
    )
    .unwrap();
    assert_eq!(
        r.witness.cols[2][0],
        fe_from_u64(0xff00ff00ff00ff00 ^ 0x0123456789abcdef)
    );
    for rot in [0u32, 63] {
        let r = run_rot_case(FieldId::Fp, rot, RotMode::Left, 0x8000000000000001).unwrap();
        assert_eq!(
            r.witness.cols[1][1],
            fe_from_u64(0x8000000000000001u64.rotate_left(rot))
        );
        let r = run_rot_case(FieldId::Fp, rot, RotMode::Right, 0x8000000000000001).unwrap();
        assert_eq!(
            r.witness.cols[1][1],
            fe_from_u64(0x8000000000000001u64.rotate_right(rot))
        );
    }
}

#[test]
fn seeded_case_is_reproducible() {
    let seed = [7u8; 32];
    let a = run_seeded_and_case(FieldId::Fp, 8, seed).unwrap();
    let b = run_seeded_and_case(FieldId::Fp, 8, seed).unwrap();
    assert_eq!(a.witness.cols, b.witness.cols);
    assert_eq!(a.public_inputs.len(), 2);
    assert_eq!(a.prev_challenges.len(), 1);
    assert!(a.prev_challenges[0].chals.is_empty());
    assert_eq!(a.runtime_tables.len(), 1);
}

#[test]
fn repair_masks_inconsistent_witness() {
    // A deliberately inconsistent witness: the AND row's inputs disagree
    // with the XOR row's. After assembly every copy constraint holds.
    let mut gates: Vec<Gate> = Vec::new();
    extend_and(&mut gates, FieldId::Fp, 1);
    let mut w = create_and_witness(FieldId::Fp, fe_from_u64(179), fe_from_u64(102), 1);
    w.cols[0][0] = fe_from_u64(9999);
    assert!(!check_copy_constraints_padded(&w, &gates));
    let runner = FuzzFramework::default().gates(gates.clone()).witness(w).setup();
    let out = runner.prepare_prover_inputs().unwrap();
    assert!(check_copy_constraints(&out.witness, &gates));
    // The later cell of the tampered pair wins: the AND row kept its value.
    let and_row = num_xors(8) + 1;
    assert_eq!(out.witness.cols[0][0], fe_from_u64(179));
    assert_eq!(out.witness.cols[0][and_row], fe_from_u64(179));
}

fn check_copy_constraints_padded(w: &Witness, gates: &Vec<Gate>) -> bool {
    let mut padded = w.clone();
    pad_witness(&mut padded, 8);
    check_copy_constraints(&padded, gates)
}

#[test]
fn padding_twice_is_padding_once() {
    let mut w = create_and_witness(FieldId::Fp, fe_from_u64(1), fe_from_u64(2), 1);
    pad_witness(&mut w, 8);
    let once = w.clone();
    pad_witness(&mut w, 8);
    assert_eq!(w.cols, once.cols);
    assert_eq!(w.cols[0].len(), 8);
}

#[test]
fn prepare_reports_each_error() {
    let mut gates: Vec<Gate> = Vec::new();
    extend_and(&mut gates, FieldId::Fp, 1);
    let missing = FuzzFramework::default().gates(gates.clone()).setup();
    assert_eq!(
        missing.prepare_prover_inputs().unwrap_err(),
        FuzzError::MissingWitness
    );
    let mut uneven = witness_zero(3);
    uneven.cols[3].pop();
    let malformed = FuzzFramework::default()
        .gates(gates.clone())
        .witness(uneven)
        .setup();
    assert_eq!(
        malformed.prepare_prover_inputs().unwrap_err(),
        FuzzError::MalformedWitness
    );
    let too_long = FuzzFramework::default()
        .gates(gates.clone())
        .witness(witness_zero(100))
        .setup();
    assert_eq!(
        too_long.prepare_prover_inputs().unwrap_err(),
        FuzzError::WitnessTooLong
    );
    let mut bad_gates = gates.clone();
    bad_gates[0].wires[0] = Wire { row: 999, col: 0 };
    assert!(!wires_well_formed(&bad_gates));
    let disconnected = FuzzFramework::default()
        .gates(bad_gates)
        .witness(witness_zero(3))
        .setup();
    assert_eq!(
        disconnected.prepare_prover_inputs().unwrap_err(),
        FuzzError::DisconnectedWires
    );
}

#[test]
fn setup_ties_verifier_to_prover() {
    let mut gates: Vec<Gate> = Vec::new();
    extend_and(&mut gates, FieldId::Fp, 1);
    let runner = FuzzFramework::default()
        .gates(gates)
        .public_inputs(vec![fe_from_u64(5)])
        .num_prev_challenges(2)
        .lookup_tables(vec![LookupTable { id: 3, data: vec![] }])
        .disable_gates_checks(true)
        .setup();
    let pi = runner.prover_index();
    assert_eq!(pi.domain_size, 8);
    assert_eq!(pi.srs_size, 8);
    assert_eq!(pi.public_input_count, 1);
    assert_eq!(pi.prev_challenge_count, 2);
    assert!(pi.disable_gates_checks);
    assert_eq!(runner.verifier_index().domain_size, 8);
    assert_eq!(
        runner.verifier_index().prev_challenge_count,
        pi.prev_challenge_count
    );
}

#[test]
fn not_gadget_checked_bounds() {
    let mut gates: Vec<Gate> = Vec::new();
    extend_and(&mut gates, FieldId::Fp, 1);
    // Row 0 of a fresh XOR sub-circuit is taken; use a fresh circuit with a
    // self-wired public row instead.
    let mut gates: Vec<Gate> = vec![kimchi_fuzz::gadgets::create_public_gate(0)];
    assert!(extend_not_checked(&mut gates, 0, 255).is_none());
    assert!(extend_not_checked(&mut gates, 0, 0).is_none());
    assert_eq!(gates.len(), 1);
    let next = extend_not_checked(&mut gates, 0, 8).unwrap();
    assert_eq!(next, 1 + num_xors(8) + 1);
    assert!(wires_well_formed(&gates));
}

#[test]
fn recursion_challenge_counts_follow_srs() {
    let mut rng = rng_from_seed([1u8; 32]);
    let chal = create_recursion_challenge(16, &mut rng);
    assert_eq!(chal.chals.len(), 4);
    assert!(chal.comm.unshifted.is_empty());
    let chal = create_recursion_challenge(1, &mut rng);
    assert_eq!(chal.chals.len(), 0);
    let mut gates: Vec<Gate> = Vec::new();
    extend_and(&mut gates, FieldId::Fp, 8);
    let runner = FuzzFramework::default().gates(gates).setup();
    let chal = create_recursion_challenge(runner.prover_index().srs_size, &mut rng);
    // domain of a 6-row circuit plus zero-knowledge rows is 16.
    assert_eq!(chal.chals.len(), 4);
}

#[test]
fn seeded_draws_are_deterministic_and_bounded() {
    let mut a = rng_from_seed([9u8; 32]);
    let mut b = rng_from_seed([9u8; 32]);
    assert_eq!(rng_next_u64(&mut a), rng_next_u64(&mut b));
    let mut c = rng_from_seed([10u8; 32]);
    let x = gen_field_bits(&mut c, 8);
    assert!(x.l0 < 256);
    assert_eq!(x.l1, 0);
    assert_eq!(x.l2, 0);
    assert_eq!(x.l3, 0);
    let y: Fe = gen_field_bits(&mut c, 1000);
    assert!(y.l3 < (1u64 << 62));
}

#[test]
fn public_input_decoding() {
    let data = vec![3u8, 7, 9, 11, 200];
    let r = decode_public_inputs(&data);
    assert_eq!(r.len(), 3);
    assert_eq!(r[0], fe_from_u64(3));
    assert_eq!(r[1], fe_from_u64(7));
    assert_eq!(r[2], fe_from_u64(9));
    let data = vec![200u8, 7];
    let r = decode_public_inputs(&data);
    assert_eq!(r.len(), 2);
    let all = bytes_to_field_elems(&vec![1u8, 2, 3]);
    assert_eq!(all.len(), 3);
    assert_eq!(all[2], fe_from_u64(3));
}

#[test]
fn synthesized_witnesses_need_no_repair() {
    // Honest synthesis already satisfies every copy constraint the
    // matching builder declares, before any repair.
    for (f, bytes, x, y) in [
        (FieldId::Fp, 1usize, 179u64, 102u64),
        (FieldId::Fq, 8, 0xdeadbeef, 0x12345678),
    ] {
        let mut gates: Vec<Gate> = Vec::new();
        extend_and(&mut gates, f, bytes);
        let w = create_and_witness(f, fe_from_u64(x), fe_from_u64(y), bytes);
        assert!(check_copy_constraints(&w, &gates));
    }
    for (rot, side, word) in [(0u32, RotMode::Left, 1u64), (63, RotMode::Right, u64::MAX)] {
        let gates = kimchi_fuzz::gadgets::create_rot_gadget(rot, side);
        let w = kimchi_fuzz::witness::create_rot_witness(word, rot, side);
        assert!(check_copy_constraints(&w, &gates));
    }
}

#[test]
fn recursion_count_must_match_verifier_index() {
    let mut gates: Vec<Gate> = Vec::new();
    extend_and(&mut gates, FieldId::Fp, 1);
    let runner = FuzzFramework::default()
        .gates(gates)
        .num_prev_challenges(1)
        .setup();
    let mut rng = rng_from_seed([4u8; 32]);
    let chal = create_recursion_challenge(runner.prover_index().srs_size, &mut rng);
    assert!(recursion_count_matches(runner.verifier_index(), &vec![chal]));
    assert!(!recursion_count_matches(runner.verifier_index(), &vec![]));
    let zero = FuzzFramework::default()
        .gates({
            let mut g: Vec<Gate> = Vec::new();
            extend_and(&mut g, FieldId::Fp, 1);
            g
        })
        .setup();
    assert!(!recursion_count_matches(
        zero.verifier_index(),
        &vec![create_recursion_challenge(8, &mut rng)]
    ));
}

#[test]
fn not_round_trip_assembles() {
    let r = run_not_case(FieldId::Fp, 8, fe_from_u64(0b10110011)).unwrap();
    assert_eq!(r.witness.cols[2][1], fe_from_u64(255 - 0b10110011));
    assert_eq!(r.witness.cols[0][0], fe_from_u64(255));
    assert_eq!(r.public_inputs.len(), 1);
    for (bits, x) in [(8usize, 0b10110011u64), (254, 12345)] {
        let mut gates: Vec<Gate> = vec![kimchi_fuzz::gadgets::create_public_gate(0)];
        kimchi_fuzz::gadgets::extend_not(&mut gates, 0, bits);
        let w = kimchi_fuzz::witness::create_not_witness(fe_from_u64(x), bits);
        assert!(check_copy_constraints(&w, &gates));
    }
}
