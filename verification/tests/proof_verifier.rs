use shieldpoint::proof_verifier::{
    verification_key, Bn254Verifier, HostBn254, ProofType, Verifier, VerifierError, VK_AGE,
    VK_BALANCE, VK_RESIDENCY,
};
use soroban_sdk::Env;

// ── Mock BN254 verifier ──────────────────────────────────────────────────────

struct MockBn254 {
    should_pass: bool,
}

impl Bn254Verifier for MockBn254 {
    fn verify(
        &self,
        _env: &Env,
        _vk: &[u8; 32],
        _proof_data: &Vec<u8>,
        _public_inputs: &Vec<[u8; 32]>,
    ) -> bool {
        self.should_pass
    }
}

/// Accepts only proofs checked under the expected key.
struct KeyCheckingBn254 {
    expected_vk: [u8; 32],
}

impl Bn254Verifier for KeyCheckingBn254 {
    fn verify(
        &self,
        _env: &Env,
        vk: &[u8; 32],
        _proof_data: &Vec<u8>,
        _public_inputs: &Vec<[u8; 32]>,
    ) -> bool {
        *vk == self.expected_vk
    }
}

fn dummy_proof() -> Vec<u8> {
    vec![0u8; 128]
}

fn short_proof() -> Vec<u8> {
    vec![0u8; 64]
}

fn empty_inputs() -> Vec<[u8; 32]> {
    Vec::new()
}

fn one_input() -> Vec<[u8; 32]> {
    vec![[0xabu8; 32]]
}

#[test]
fn test_verify_proof_of_balance_success() {
    let env = Env::default();
    let mock = MockBn254 { should_pass: true };
    let result = Verifier::verify_proof_with(&env, 0, &dummy_proof(), &one_input(), &mock);
    assert_eq!(result, Ok(true), "expected successful balance proof verification");
}

#[test]
fn test_verify_proof_of_residency_success() {
    let env = Env::default();
    let mock = MockBn254 { should_pass: true };
    let result = Verifier::verify_proof_with(&env, 1, &dummy_proof(), &empty_inputs(), &mock);
    assert_eq!(result, Ok(true));
}

#[test]
fn test_verify_proof_of_age_success() {
    let env = Env::default();
    let mock = MockBn254 { should_pass: true };
    let result = Verifier::verify_proof_with(&env, 2, &dummy_proof(), &empty_inputs(), &mock);
    assert_eq!(result, Ok(true));
}

#[test]
fn test_verify_proof_failing_proof() {
    let env = Env::default();
    let mock = MockBn254 { should_pass: false };
    let result = Verifier::verify_proof_with(&env, 0, &dummy_proof(), &empty_inputs(), &mock);
    assert_eq!(result, Ok(false), "expected failing proof to return false");
}

#[test]
fn test_verify_proof_rejects_short_proof() {
    let env = Env::default();
    let mock = MockBn254 { should_pass: true };
    let result = Verifier::verify_proof_with(&env, 0, &short_proof(), &empty_inputs(), &mock);
    assert_eq!(result, Err(VerifierError::InvalidProofData));
}

#[test]
fn test_verify_proof_rejects_unknown_type() {
    let env = Env::default();
    let mock = MockBn254 { should_pass: true };
    let result = Verifier::verify_proof_with(&env, 99, &dummy_proof(), &empty_inputs(), &mock);
    assert_eq!(result, Err(VerifierError::UnknownProofType));
}

#[test]
fn test_all_three_proof_types_use_distinct_vks() {
    assert_ne!(VK_BALANCE, VK_RESIDENCY);
    assert_ne!(VK_BALANCE, VK_AGE);
    assert_ne!(VK_RESIDENCY, VK_AGE);
}

#[test]
fn unknown_type_is_reported_before_short_proof() {
    let env = Env::default();
    let mock = MockBn254 { should_pass: true };
    let result = Verifier::verify_proof_with(&env, 3, &short_proof(), &empty_inputs(), &mock);
    assert_eq!(result, Err(VerifierError::UnknownProofType));
}

#[test]
fn proof_of_exactly_minimum_length_is_accepted_for_checking() {
    let env = Env::default();
    let mock = MockBn254 { should_pass: true };
    assert_eq!(
        Verifier::verify_proof_with(&env, 0, &vec![7u8; 127], &empty_inputs(), &mock),
        Err(VerifierError::InvalidProofData)
    );
    assert_eq!(Verifier::verify_proof_with(&env, 0, &vec![7u8; 128], &empty_inputs(), &mock), Ok(true));
}

#[test]
fn backend_receives_the_key_of_the_proof_type() {
    let env = Env::default();
    let cases = [(0u32, VK_BALANCE), (1, VK_RESIDENCY), (2, VK_AGE)];
    for (pt, vk) in cases {
        let backend = KeyCheckingBn254 { expected_vk: vk };
        assert_eq!(Verifier::verify_proof_with(&env, pt, &dummy_proof(), &one_input(), &backend), Ok(true));
    }
    let wrong = KeyCheckingBn254 { expected_vk: VK_AGE };
    assert_eq!(Verifier::verify_proof_with(&env, 0, &dummy_proof(), &one_input(), &wrong), Ok(false));
}

#[test]
fn host_backend_accepts_no_proof() {
    let env = Env::default();
    assert_eq!(Verifier::verify_proof(&env, 0, &dummy_proof(), &one_input()), Ok(false));
    assert_eq!(Verifier::verify_proof(&env, 1, &short_proof(), &one_input()), Err(VerifierError::InvalidProofData));
    assert_eq!(Verifier::verify_proof(&env, 7, &dummy_proof(), &one_input()), Err(VerifierError::UnknownProofType));
    assert!(!HostBn254.verify(&env, &VK_BALANCE, &dummy_proof(), &one_input()));
}

#[test]
fn proof_type_discriminants() {
    assert_eq!(ProofType::from_u32(0), Some(ProofType::ProofOfBalance));
    assert_eq!(ProofType::from_u32(1), Some(ProofType::ProofOfResidency));
    assert_eq!(ProofType::from_u32(2), Some(ProofType::ProofOfAge));
    assert_eq!(ProofType::from_u32(3), None);
    assert_eq!(ProofType::from_u32(u32::MAX), None);
    assert_eq!(verification_key(ProofType::ProofOfBalance), [1u8; 32]);
    assert_eq!(verification_key(ProofType::ProofOfResidency), [2u8; 32]);
    assert_eq!(verification_key(ProofType::ProofOfAge), [3u8; 32]);
}

#[test]
fn verifier_error_codes_round_trip() {
    for e in [
        VerifierError::InvalidProofData,
        VerifierError::UnknownProofType,
        VerifierError::VerificationFailed,
    ] {
        assert_eq!(VerifierError::try_from_val(e.into_val()), Ok(e));
    }
    assert_eq!(VerifierError::InvalidProofData.into_val(), 1);
    assert_eq!(VerifierError::UnknownProofType.into_val(), 2);
    assert_eq!(VerifierError::VerificationFailed.into_val(), 3);
    assert!(VerifierError::try_from_val(0).is_err());
    assert!(VerifierError::try_from_val(4).is_err());
}
