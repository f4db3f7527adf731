use shieldpoint::address::Address;
use shieldpoint::auth::{Auth, AuthError};
use shieldpoint::proof_verifier::{Bn254Verifier, Verifier, VerifierError};
use shieldpoint::registry::Registry;
use soroban_sdk::{Bytes, Env};

struct AlwaysPass;

impl Bn254Verifier for AlwaysPass {
    fn verify(&self, _env: &Env, _vk: &[u8; 32], _proof_data: &Vec<u8>, _public_inputs: &Vec<[u8; 32]>) -> bool {
        true
    }
}

const PK_BYTES: [u8; 32] = [
    0x4c, 0xb5, 0xab, 0xf3, 0x67, 0x8c, 0x4d, 0x1e,
    0x3e, 0x7f, 0xf4, 0x05, 0x55, 0x3c, 0x8d, 0x4c,
    0x9e, 0x36, 0x87, 0x1b, 0x77, 0x6a, 0x0c, 0x3e,
    0x3b, 0x06, 0x79, 0x08, 0xe7, 0x42, 0x65, 0x7a,
];

const AUTH_ID: [u8; 32] = [0xa1; 32];
const VERIFIER_ID: [u8; 32] = [0xa2; 32];

fn make_challenge(contract_id: &[u8; 32], nonce: [u8; 8]) -> Vec<u8> {
    let mut ch = contract_id.to_vec();
    ch.extend_from_slice(&nonce);
    ch
}

fn dummy_proof() -> Vec<u8> {
    vec![0u8; 128]
}

fn proof_hash(env: &Env, proof_data: &Vec<u8>) -> [u8; 32] {
    env.crypto().sha256(&Bytes::from_slice(env, proof_data)).to_array()
}

#[test]
fn full_flow_valid_proof() {
    let env = Env::default();

    // 1. Authenticate (signature check mocked as passing).
    let mut auth = Auth::new();
    let challenge = make_challenge(&AUTH_ID, [0, 0, 0, 0, 0, 0, 0, 1]);
    let sig = vec![0xffu8; 64];
    let authed = auth.authenticate_checked(&env, &AUTH_ID, 100, 1, &challenge, &sig, &PK_BYTES, true);
    assert!(authed.is_ok(), "authentication must succeed");

    // 2. Verify the proof with a backend that always passes.
    let proof = dummy_proof();
    let inputs: Vec<[u8; 32]> = Vec::new();
    let verified = Verifier::verify_proof_with(&env, 0, &proof, &inputs, &AlwaysPass);
    assert_eq!(verified, Ok(true), "proof verification must succeed");

    // 3. Store the proof record in the registry.
    let mut registry = Registry::new();
    let verifier_addr = Address::contract(VERIFIER_ID);
    let user = Address::account([0x77; 32]);
    registry.initialize(verifier_addr).unwrap();
    let hash = proof_hash(&env, &proof);
    let proof_id = registry.store_proof(&verifier_addr, user, 0, hash, true, 100).unwrap();

    // 4. Confirm it was stored.
    assert!(registry.has_proof(proof_id), "proof must be in registry");
    let record = registry.get_proof(proof_id).unwrap();
    assert!(record.user.same(&user));
    assert_eq!(record.proof_type, 0);
    assert_eq!(record.commitment_hash, hash);
    assert!(record.valid);
    let user_proofs = registry.get_user_proofs(&user);
    assert_eq!(user_proofs.len(), 1);
    assert_eq!(user_proofs[0], proof_id);
}

#[test]
fn replay_attack_rejected() {
    let env = Env::default();
    let mut auth = Auth::new();
    let challenge = make_challenge(&AUTH_ID, [0, 0, 0, 0, 0, 0, 0, 2]);
    let sig = vec![0xffu8; 64];
    assert!(auth.authenticate_checked(&env, &AUTH_ID, 100, 1, &challenge, &sig, &PK_BYTES, true).is_ok());
    let second = auth.authenticate_checked(&env, &AUTH_ID, 100, 1, &challenge, &sig, &PK_BYTES, true);
    assert_eq!(second.err(), Some(AuthError::ReplayedNonce));
}

#[test]
fn wrong_proof_type_rejected() {
    let env = Env::default();
    let proof = dummy_proof();
    let inputs: Vec<[u8; 32]> = Vec::new();
    let result = Verifier::verify_proof_with(&env, 99, &proof, &inputs, &AlwaysPass);
    assert_eq!(result, Err(VerifierError::UnknownProofType));
}
