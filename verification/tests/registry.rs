use shieldpoint::address::Address;
use shieldpoint::registry::{ProofDetails, Registry, RegistryError};

fn verifier_address() -> Address {
    Address::contract([0x11; 32])
}

fn user() -> Address {
    Address::account([0x22; 32])
}

const TIMESTAMP: u64 = 12_345;

#[test]
fn test_initialize_and_store_proof() {
    let mut registry = Registry::new();
    let verifier_addr = verifier_address();
    let user = user();
    let proof_hash = [0xabu8; 32];

    assert_eq!(registry.initialize(verifier_addr), Ok(()));
    let proof_id = registry.store_proof(&verifier_addr, user, 0, proof_hash, true, TIMESTAMP).unwrap();

    assert_eq!(proof_id, 1u64);
    assert!(registry.has_proof(proof_id));

    let stored = registry.get_proof(proof_id).unwrap();
    assert!(stored.user.same(&user));
    assert_eq!(stored.proof_type, 0);
    assert_eq!(stored.commitment_hash, proof_hash);
    assert!(stored.valid);
    assert!(stored.timestamp > 0);

    let user_proofs = registry.get_user_proofs(&user);
    assert_eq!(user_proofs.len(), 1);
    assert_eq!(user_proofs[0], proof_id);
}

#[test]
fn test_store_proof_rejected_for_unauthorised_invoker() {
    let mut registry = Registry::new();
    let user = user();
    let proof_hash = [0xabu8; 32];
    // The verifier contract was never registered.
    let result = registry.store_proof(&user, user, 0, proof_hash, true, TIMESTAMP);
    assert_eq!(result, Err(RegistryError::Unauthorised));
}

#[test]
fn store_by_other_invoker_is_refused_and_changes_nothing() {
    let mut registry = Registry::new();
    registry.initialize(verifier_address()).unwrap();
    let intruder = Address::contract([0x33; 32]);
    let result = registry.store_proof(&intruder, user(), 1, [1u8; 32], false, TIMESTAMP);
    assert_eq!(result, Err(RegistryError::Unauthorised));
    assert!(!registry.has_proof(1));
    assert_eq!(registry.next_proof_id(), 1);
    assert!(registry.get_user_proofs(&user()).is_empty());
    // An account with the same 32 bytes as the verifier contract is another address.
    let lookalike = Address::account([0x11; 32]);
    assert_eq!(registry.store_proof(&lookalike, user(), 1, [1u8; 32], false, TIMESTAMP), Err(RegistryError::Unauthorised));
}

#[test]
fn initialize_twice_is_refused() {
    let mut registry = Registry::new();
    assert_eq!(registry.initialize(verifier_address()), Ok(()));
    assert_eq!(registry.initialize(Address::contract([0x44; 32])), Err(RegistryError::AlreadyInitialised));
    assert!(registry.verifier_contract().unwrap().same(&verifier_address()));
}

#[test]
fn proof_ids_are_sequential_and_per_user_lists_grow() {
    let mut registry = Registry::new();
    let v = verifier_address();
    let alice = user();
    let bob = Address::account([0x55; 32]);
    registry.initialize(v).unwrap();
    assert_eq!(registry.store_proof(&v, alice, 0, [1u8; 32], true, 10), Ok(1));
    assert_eq!(registry.store_proof(&v, bob, 1, [2u8; 32], false, 11), Ok(2));
    assert_eq!(registry.store_proof(&v, alice, 2, [3u8; 32], true, 12), Ok(3));
    assert_eq!(registry.get_user_proofs(&alice), vec![1, 3]);
    assert_eq!(registry.get_user_proofs(&bob), vec![2]);
    let second = registry.get_proof(2).unwrap();
    assert!(second.user.same(&bob));
    assert_eq!(second.proof_type, 1);
    assert_eq!(second.commitment_hash, [2u8; 32]);
    assert_eq!(second.timestamp, 11);
    assert!(!second.valid);
    assert_eq!(registry.next_proof_id(), 4);
}

#[test]
fn missing_proof_is_not_found() {
    let registry = Registry::new();
    assert_eq!(registry.get_proof(1).err(), Some(RegistryError::NotFound));
    assert!(!registry.has_proof(1));
    assert!(registry.get_user_proofs(&user()).is_empty());
}

#[test]
fn restore_keeps_stored_state() {
    let details = ProofDetails { user: user(), proof_type: 2, commitment_hash: [9u8; 32], timestamp: 5, valid: true };
    let restored = Registry::restore(Some(verifier_address()), Some(8), vec![(7, details)], vec![(user(), vec![7])]);
    assert!(restored.verifier_contract().unwrap().same(&verifier_address()));
    assert_eq!(restored.next_proof_id(), 8);
    assert_eq!(restored.get_proof(7).unwrap().proof_type, 2);
    assert_eq!(restored.get_user_proofs(&user()), vec![7]);
    assert_eq!(restored.proof_records().len(), 1);
    assert_eq!(restored.user_proof_records().len(), 1);
    let fresh = Registry::restore(None, None, Vec::new(), Vec::new());
    assert_eq!(fresh.next_proof_id(), 1);
    assert!(fresh.verifier_contract().is_none());
}

#[test]
fn registry_error_codes_round_trip() {
    for e in [
        RegistryError::NotInitialised,
        RegistryError::AlreadyInitialised,
        RegistryError::NotFound,
        RegistryError::Unauthorised,
    ] {
        assert_eq!(RegistryError::try_from_val(e.into_val()), Ok(e));
    }
    assert_eq!(RegistryError::Unauthorised.into_val(), 4);
    assert!(RegistryError::try_from_val(5).is_err());
}

#[test]
fn restore_lets_the_last_entry_of_an_id_count() {
    let first = ProofDetails { user: user(), proof_type: 1, commitment_hash: [1u8; 32], timestamp: 5, valid: true };
    let second = ProofDetails { user: user(), proof_type: 2, commitment_hash: [2u8; 32], timestamp: 6, valid: false };
    let restored = Registry::restore(None, None, vec![(3, first), (3, second)], vec![(user(), vec![1]), (user(), vec![3])]);
    assert_eq!(restored.get_proof(3).unwrap().proof_type, 2);
    assert_eq!(restored.get_user_proofs(&user()), vec![3]);
    assert_eq!(restored.proof_records().len(), 1);
}
