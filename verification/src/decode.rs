//! Decoding of raw harness input into public-input field elements.

use vstd::prelude::*;

verus! {

use crate::fe::{Fe, fe_val, fe_from_u64};

/// How many leading bytes of the input become public inputs: the first
/// byte declares the count, capped at the input's own length.
pub open spec fn spec_public_input_count(data: Seq<u8>) -> nat {
    if data[0] >= data.len() {
        data.len()
    } else {
        data[0] as nat
    }
}

/// Reads a declared-prefix-length public-input vector from raw bytes: the
/// first byte gives the count, and each counted byte becomes one field
/// element.
pub fn decode_public_inputs(data: &Vec<u8>) -> (r: Vec<Fe>)
    requires
        data@.len() >= 1,
    ensures
        r@.len() == spec_public_input_count(data@),
        forall|i: int| 0 <= i < r@.len() ==> fe_val(#[trigger] r@[i]) == data@[i],
{
    let n: usize = if data[0] as usize >= data.len() {
        data.len()
    } else {
        data[0] as usize
    };
    bytes_to_field_elems_prefix(data, n)
}

/// Each of the first `n` bytes as a field element.
pub fn bytes_to_field_elems_prefix(data: &Vec<u8>, n: usize) -> (r: Vec<Fe>)
    requires
        n <= data@.len(),
    ensures
        r@.len() == n,
        forall|i: int| 0 <= i < n ==> fe_val(#[trigger] r@[i]) == data@[i],
{
    let mut r: Vec<Fe> = Vec::new();
    let mut i: usize = 0;
    while i < n
        invariant
            i <= n,
            n <= data@.len(),
            r@.len() == i,
            forall|j: int| 0 <= j < i ==> fe_val(#[trigger] r@[j]) == data@[j],
        decreases n - i,
    {
        r.push(fe_from_u64(data[i] as u64));
        i += 1;
    }
    r
}

/// Every byte of the input as a field element.
pub fn bytes_to_field_elems(data: &Vec<u8>) -> (r: Vec<Fe>)
    ensures
        r@.len() == data@.len(),
        forall|i: int| 0 <= i < r@.len() ==> fe_val(#[trigger] r@[i]) == data@[i],
{
    bytes_to_field_elems_prefix(data, data.len())
}

} // verus!
