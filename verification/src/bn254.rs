//! BN254 helpers: the input shape that a multi-pairing check accepts, and the
//! byte layout of a Groth16 verification request.

use vstd::prelude::*;

use crate::bytes::{append_bytes, concat_all, concat_words, words_view};

verus! {

/// Whether a multi-pairing check can take `g1_count` G1 points and `g2_count`
/// G2 points: the same number of each, and at least one pair. On any other
/// shape the check answers `false` without asking the host.
pub fn pairing_shape_valid(g1_count: usize, g2_count: usize) -> (valid: bool)
    ensures
        valid == (g1_count == g2_count && g1_count > 0),
{
    !(g1_count != g2_count || g1_count == 0)
}

/// The byte buffers of a Groth16 verification request.
pub struct Groth16Request {
    /// The verification key identifier.
    pub vk: [u8; 32],
    /// The proof: the G1 point A, the G2 point B and the G1 point C, in order.
    pub proof: Vec<u8>,
    /// The public inputs, flattened in order.
    pub inputs: Vec<u8>,
}

/// Lays out a Groth16 verification request: the proof `A || B || C` and the
/// public inputs concatenated in order.
pub fn groth16_request(
    vk: [u8; 32],
    proof_a: &[u8; 64],
    proof_b: &[u8; 128],
    proof_c: &[u8; 64],
    public_inputs: &Vec<[u8; 32]>,
) -> (request: Groth16Request)
    ensures
        request.vk == vk,
        request.proof@ == proof_a@ + proof_b@ + proof_c@,
        request.proof@.len() == 256,
        request.inputs@ == concat_all(words_view(public_inputs@)),
{
    let mut proof: Vec<u8> = Vec::new();
    append_bytes(&mut proof, proof_a.as_slice());
    append_bytes(&mut proof, proof_b.as_slice());
    append_bytes(&mut proof, proof_c.as_slice());
    let inputs = concat_words(public_inputs);
    Groth16Request { vk, proof, inputs }
}

/// Verifies a Groth16 proof for BN254 with the host. The request is laid out
/// as the host call takes it, but the Soroban host offers no Groth16
/// verification, so no proof passes.
pub fn verify_groth16_proof(
    _env: &soroban_sdk::Env,
    vk: [u8; 32],
    proof_a: [u8; 64],
    proof_b: [u8; 128],
    proof_c: [u8; 64],
    public_inputs: Vec<[u8; 32]>,
) -> (verified: bool)
    ensures
        !verified,
{
    let _request = groth16_request(vk, &proof_a, &proof_b, &proof_c, &public_inputs);
    false
}

} // verus!
