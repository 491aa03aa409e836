//! Seeded randomness for test-case generation: a deterministic generator
//! built from an explicit seed, so that every failure is reproducible, and
//! the synthetic recursion-challenge accumulator built from it.

use vstd::prelude::*;

verus! {

use vstd::arithmetic::power2::{pow2, lemma_pow2_adds, lemma2_to64};
use vstd::arithmetic::power2::is_pow2;
use crate::fe::{Fe, FieldId, field_modulus, fe_is_canonical, fe_val, fe_and, fe_mask};
use crate::bitwise::lemma_nat_and_low_mask;
use crate::framework::{Commitment, RecursionChallenge, log2_of_pow2};

/// rand's standard generator, declared so that verified code can hold and
/// pass one.
#[verifier::external_type_specification]
#[verifier::external_body]
pub struct ExStdRng(rand::rngs::StdRng);

/// Relies on rand's `SeedableRng::from_seed` for `StdRng`: the generator
/// determined by a 32-byte seed.
#[verifier::external_body]
pub fn rng_from_seed(seed: [u8; 32]) -> rand::rngs::StdRng {
    <rand::rngs::StdRng as rand::SeedableRng>::from_seed(seed)
}

/// Relies on rand's `RngCore::next_u64` for `StdRng`: one draw. Nothing is
/// promised of a random value.
#[verifier::external_body]
pub fn rng_next_u64(rng: &mut rand::rngs::StdRng) -> u64 {
    rand::RngCore::next_u64(rng)
}

/// `2^254` is below both Pasta moduli, so any value of at most 254 bits is
/// a canonical element of either field.
pub proof fn lemma_pow2_254_canonical()
    ensures
        pow2(254) < field_modulus(FieldId::Fp),
        pow2(254) < field_modulus(FieldId::Fq),
{
    lemma2_to64();
    vstd::arithmetic::power2::lemma2_to64_rest();
    lemma_pow2_adds(64, 64);
    lemma_pow2_adds(128, 64);
    lemma_pow2_adds(192, 62);
    assert(pow2(62) == 0x4000000000000000);
    assert(pow2(128) == 0x100000000000000000000000000000000nat);
    assert(pow2(192) == pow2(128) * pow2(64));
    assert(pow2(192) == 0x1000000000000000000000000000000000000000000000000nat);
    assert(pow2(254) == pow2(192) * pow2(62));
    assert(pow2(254) == 0x4000000000000000000000000000000000000000000000000000000000000000nat);
}

/// Draws a field element of at most `min(bits, 254)` bits: four raw words,
/// masked down so that the value fits the declared width and stays a
/// canonical element of either field.
pub fn gen_field_bits(rng: &mut rand::rngs::StdRng, bits: usize) -> (r: Fe)
    ensures
        fe_val(r) < pow2(if bits < 254 {
            bits as nat
        } else {
            254nat
        }),
        fe_is_canonical(FieldId::Fp, r),
        fe_is_canonical(FieldId::Fq, r),
{
    let nbits: usize = if bits < 254 {
        bits
    } else {
        254
    };
    let draw = Fe {
        l0: rng_next_u64(rng),
        l1: rng_next_u64(rng),
        l2: rng_next_u64(rng),
        l3: rng_next_u64(rng),
    };
    let r = fe_and(draw, fe_mask(nbits));
    proof {
        lemma_nat_and_low_mask(fe_val(draw), nbits as nat);
        vstd::arithmetic::div_mod::lemma_mod_bound(
            fe_val(draw) as int,
            pow2(nbits as nat) as int,
        );
        vstd::arithmetic::power2::lemma_pow2_pos(nbits as nat);
        lemma_pow2_254_canonical();
        if nbits < 254 {
            vstd::arithmetic::power2::lemma_pow2_strictly_increases(nbits as nat, 254);
        }
    }
    r
}

/// Builds one synthetic previous-proof accumulator for a reference string
/// of `srs_size` points: `log2(srs_size)` folding challenges drawn from the
/// seeded generator. The commitment to the corresponding opening
/// polynomial belongs to the commitment scheme, which is outside this
/// crate; the accumulator carries the zero commitment the harness's
/// configuration uses.
pub fn create_recursion_challenge(srs_size: usize, rng: &mut rand::rngs::StdRng) -> (r:
    RecursionChallenge)
    requires
        is_pow2(srs_size as int),
    ensures
        pow2(r.chals@.len() as nat) == srs_size,
        forall|i: int|
            0 <= i < r.chals@.len() ==> fe_is_canonical(FieldId::Fp, #[trigger] r.chals@[i])
                && fe_is_canonical(FieldId::Fq, r.chals@[i]),
        r.comm.unshifted@.len() == 0,
        r.comm.shifted is None,
{
    let k = log2_of_pow2(srs_size);
    let mut chals: Vec<Fe> = Vec::new();
    let mut i: usize = 0;
    while i < k
        invariant
            i <= k,
            chals@.len() == i,
            forall|j: int|
                0 <= j < i ==> fe_is_canonical(FieldId::Fp, #[trigger] chals@[j])
                    && fe_is_canonical(FieldId::Fq, chals@[j]),
        decreases k - i,
    {
        let c = gen_field_bits(rng, 254);
        chals.push(c);
        i += 1;
    }
    RecursionChallenge { chals, comm: Commitment { unshifted: Vec::new(), shifted: None } }
}

} // verus!
