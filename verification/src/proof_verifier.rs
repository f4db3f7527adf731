//! Proof verification dispatch: a proof type selects its verification key, the
//! proof bytes are checked for their minimum length, and a BN254 backend decides.

use vstd::prelude::*;

use crate::bytes::concat_words;
use crate::error::ConversionError;

verus! {

/// The circuits for which the contract verifies proofs.
#[derive(Clone, Copy, Debug, PartialEq, Eq, Structural)]
pub enum ProofType {
    ProofOfBalance,
    ProofOfResidency,
    ProofOfAge,
}

/// The proof type with the discriminant `v`: 0, 1 and 2 in declaration order.
pub open spec fn proof_type_of(v: u32) -> Option<ProofType> {
    if v == 0 {
        Some(ProofType::ProofOfBalance)
    } else if v == 1 {
        Some(ProofType::ProofOfResidency)
    } else if v == 2 {
        Some(ProofType::ProofOfAge)
    } else {
        None
    }
}

impl ProofType {
    /// The discriminant of a proof type.
    pub open spec fn discriminant(self) -> u32 {
        match self {
            ProofType::ProofOfBalance => 0,
            ProofType::ProofOfResidency => 1,
            ProofType::ProofOfAge => 2,
        }
    }

    /// The proof type with discriminant `v`, if there is one.
    pub fn from_u32(v: u32) -> (pt: Option<ProofType>)
        ensures
            pt == proof_type_of(v),
    {
        match v {
            0 => Some(ProofType::ProofOfBalance),
            1 => Some(ProofType::ProofOfResidency),
            2 => Some(ProofType::ProofOfAge),
            _ => None,
        }
    }
}

/// The verification key of balance proofs (a 32-byte placeholder).
pub const VK_BALANCE: [u8; 32] = [
    0x01, 0x01, 0x01, 0x01, 0x01, 0x01, 0x01, 0x01,
    0x01, 0x01, 0x01, 0x01, 0x01, 0x01, 0x01, 0x01,
    0x01, 0x01, 0x01, 0x01, 0x01, 0x01, 0x01, 0x01,
    0x01, 0x01, 0x01, 0x01, 0x01, 0x01, 0x01, 0x01,
];

/// The verification key of residency proofs (a 32-byte placeholder).
pub const VK_RESIDENCY: [u8; 32] = [
    0x02, 0x02, 0x02, 0x02, 0x02, 0x02, 0x02, 0x02,
    0x02, 0x02, 0x02, 0x02, 0x02, 0x02, 0x02, 0x02,
    0x02, 0x02, 0x02, 0x02, 0x02, 0x02, 0x02, 0x02,
    0x02, 0x02, 0x02, 0x02, 0x02, 0x02, 0x02, 0x02,
];

/// The verification key of age proofs (a 32-byte placeholder).
pub const VK_AGE: [u8; 32] = [
    0x03, 0x03, 0x03, 0x03, 0x03, 0x03, 0x03, 0x03,
    0x03, 0x03, 0x03, 0x03, 0x03, 0x03, 0x03, 0x03,
    0x03, 0x03, 0x03, 0x03, 0x03, 0x03, 0x03, 0x03,
    0x03, 0x03, 0x03, 0x03, 0x03, 0x03, 0x03, 0x03,
];

/// The minimum length of a Groth16 proof for BN254, in bytes.
pub const MIN_PROOF_LEN: usize = 128;

/// The verification key of each proof type.
pub open spec fn vk_of(pt: ProofType) -> [u8; 32] {
    match pt {
        ProofType::ProofOfBalance => VK_BALANCE,
        ProofType::ProofOfResidency => VK_RESIDENCY,
        ProofType::ProofOfAge => VK_AGE,
    }
}

/// The verification key of a proof type.
pub fn verification_key(pt: ProofType) -> (vk: [u8; 32])
    ensures
        vk == vk_of(pt),
{
    match pt {
        ProofType::ProofOfBalance => VK_BALANCE,
        ProofType::ProofOfResidency => VK_RESIDENCY,
        ProofType::ProofOfAge => VK_AGE,
    }
}

/// Why a verification request is refused.
#[derive(Clone, Copy, Debug, PartialEq, Eq, Structural)]
pub enum VerifierError {
    InvalidProofData,
    UnknownProofType,
    VerificationFailed,
}

impl VerifierError {
    /// The numeric code of each error.
    pub open spec fn code(self) -> u32 {
        match self {
            VerifierError::InvalidProofData => 1,
            VerifierError::UnknownProofType => 2,
            VerifierError::VerificationFailed => 3,
        }
    }

    /// The numeric code of this error.
    pub fn into_val(&self) -> (code: u32)
        ensures
            code == self.code(),
    {
        match self {
            VerifierError::InvalidProofData => 1,
            VerifierError::UnknownProofType => 2,
            VerifierError::VerificationFailed => 3,
        }
    }

    /// The error with the numeric code `code`, if there is one.
    pub fn try_from_val(code: u32) -> (decoded: Result<VerifierError, ConversionError>)
        ensures
            decoded matches Ok(e) ==> e.code() == code,
            decoded is Err <==> !(1 <= code <= 3),
    {
        match code {
            1 => Ok(VerifierError::InvalidProofData),
            2 => Ok(VerifierError::UnknownProofType),
            3 => Ok(VerifierError::VerificationFailed),
            _ => Err(ConversionError),
        }
    }
}

/// A BN254 proof-verification backend, which callers supply; tests supply a
/// mock in place of the host.
pub trait Bn254Verifier {
    /// Whether this backend accepts `proof_data` as a valid proof under `vk`
    /// for `public_inputs`. Each backend states its own; the default pins
    /// nothing down, so a verified backend must override it.
    open spec fn accepts(&self, vk: Seq<u8>, proof_data: Seq<u8>, public_inputs: Seq<[u8; 32]>) -> bool {
        vstd::pervasive::arbitrary()
    }

    /// Whether `proof_data` is a valid proof under `vk` for `public_inputs`.
    fn verify(
        &self,
        env: &soroban_sdk::Env,
        vk: &[u8; 32],
        proof_data: &Vec<u8>,
        public_inputs: &Vec<[u8; 32]>,
    ) -> (accepted: bool)
        ensures
            accepted == self.accepts(vk@, proof_data@, public_inputs@),
    ;
}

/// The production backend, meant to delegate to the host's BN254 verification.
/// The host exposes no Groth16 verification, so it accepts no proof.
pub struct HostBn254;

impl Bn254Verifier for HostBn254 {
    open spec fn accepts(
        &self,
        vk: Seq<u8>,
        proof_data: Seq<u8>,
        public_inputs: Seq<[u8; 32]>,
    ) -> bool {
        false
    }

    fn verify(
        &self,
        env: &soroban_sdk::Env,
        vk: &[u8; 32],
        proof_data: &Vec<u8>,
        public_inputs: &Vec<[u8; 32]>,
    ) -> (accepted: bool)
        ensures
            !accepted,
    {
        // A Groth16 proof for BN254 is at least 128 bytes.
        if proof_data.len() < MIN_PROOF_LEN {
            return false;
        }
        // The public inputs, flattened into the buffer the host call would take.
        let _inputs_flat = concat_words(public_inputs);
        // No host Groth16 verification is wired up: refuse conservatively.
        false
    }
}

/// The error on which a verification request is refused: an unknown proof type,
/// then a proof shorter than `MIN_PROOF_LEN` bytes.
pub open spec fn verify_error(proof_type: u32, proof_len: int) -> Option<VerifierError> {
    if proof_type_of(proof_type) is None {
        Some(VerifierError::UnknownProofType)
    } else if proof_len < MIN_PROOF_LEN {
        Some(VerifierError::InvalidProofData)
    } else {
        None
    }
}

/// The verification key for a request, or the error that refuses it: the proof
/// type is resolved first, then the proof's length is checked.
pub fn resolve_request(proof_type: u32, proof_data: &Vec<u8>) -> (vk: Result<[u8; 32], VerifierError>)
    ensures
        vk matches Ok(k) ==> verify_error(proof_type, proof_data@.len() as int) is None && k
            == vk_of(proof_type_of(proof_type)->Some_0),
        vk matches Err(e) ==> verify_error(proof_type, proof_data@.len() as int) == Some(e),
{
    // 1. Resolve the proof type.
    let pt = match ProofType::from_u32(proof_type) {
        Some(pt) => pt,
        None => return Err(VerifierError::UnknownProofType),
    };
    // 2. Validate the proof's length.
    if proof_data.len() < MIN_PROOF_LEN {
        return Err(VerifierError::InvalidProofData);
    }
    // 3. Select the verification key.
    Ok(verification_key(pt))
}

/// The proof verification contract.
pub struct Verifier;

impl Verifier {
    /// Resolves the proof type and checks the proof's length, then asks `bn254`
    /// with the proof type's verification key and returns its answer.
    pub fn verify_proof_with<V: Bn254Verifier>(
        env: &soroban_sdk::Env,
        proof_type: u32,
        proof_data: &Vec<u8>,
        public_inputs: &Vec<[u8; 32]>,
        bn254: &V,
    ) -> (verified: Result<bool, VerifierError>)
        ensures
            verified is Ok <==> verify_error(proof_type, proof_data@.len() as int) is None,
            verified matches Err(e) ==> verify_error(proof_type, proof_data@.len() as int) == Some(
                e,
            ),
            verified matches Ok(b) ==> b == bn254.accepts(
                vk_of(proof_type_of(proof_type)->Some_0)@,
                proof_data@,
                public_inputs@,
            ),
    {
        match resolve_request(proof_type, proof_data) {
            Err(e) => Err(e),
            Ok(vk) => Ok(bn254.verify(env, &vk, proof_data, public_inputs)),
        }
    }

    /// Verifies a proof with the host backend, `HostBn254`, which accepts none.
    pub fn verify_proof(
        env: &soroban_sdk::Env,
        proof_type: u32,
        proof_data: &Vec<u8>,
        public_inputs: &Vec<[u8; 32]>,
    ) -> (verified: Result<bool, VerifierError>)
        ensures
            verified is Ok <==> verify_error(proof_type, proof_data@.len() as int) is None,
            verified matches Err(e) ==> verify_error(proof_type, proof_data@.len() as int) == Some(
                e,
            ),
            verify_error(proof_type, proof_data@.len() as int) is None ==> verified == Ok::<
                bool,
                VerifierError,
            >(false),
    {
        match resolve_request(proof_type, proof_data) {
            Err(e) => Err(e),
            Ok(vk) => Ok(HostBn254.verify(env, &vk, proof_data, public_inputs)),
        }
    }
}

// ── Laws ────────────────────────────────────────────────────────────────────

/// Decoding a proof type's discriminant gives the proof type back, and exactly
/// the discriminants 0, 1 and 2 name a proof type.
pub proof fn lemma_proof_type_round_trip(pt: ProofType, v: u32)
    ensures
        proof_type_of(pt.discriminant()) == Some(pt),
        proof_type_of(v) is Some <==> v <= 2,
        proof_type_of(v) matches Some(p) ==> p.discriminant() == v,
{
}

/// The three proof types have three distinct verification keys.
pub proof fn lemma_verification_keys_distinct(a: ProofType, b: ProofType)
    ensures
        vk_of(a) == vk_of(b) ==> a == b,
{
    assert(VK_BALANCE@[0] == 1u8);
    assert(VK_RESIDENCY@[0] == 2u8);
    assert(VK_AGE@[0] == 3u8);
}

/// Each error has its own numeric code, between 1 and 3.
pub proof fn lemma_verifier_error_codes(e1: VerifierError, e2: VerifierError)
    ensures
        1 <= e1.code() <= 3,
        e1.code() == e2.code() ==> e1 == e2,
{
}

/// The length check of a verification request: for a known proof type (0, 1
/// or 2), every proof of at least 128 bytes passes it and every shorter proof
/// is refused with `InvalidProofData`; any other type is refused with
/// `UnknownProofType`, whatever the proof's length.
pub proof fn lemma_length_check_threshold(proof_type: u32, proof_len: int)
    ensures
        proof_type <= 2 && proof_len >= 128 ==> verify_error(proof_type, proof_len) is None,
        proof_type <= 2 && proof_len < 128 ==> verify_error(proof_type, proof_len) == Some(
            VerifierError::InvalidProofData,
        ),
        proof_type > 2 ==> verify_error(proof_type, proof_len) == Some(
            VerifierError::UnknownProofType,
        ),
{
}

} // verus!
