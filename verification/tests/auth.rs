use ed25519_dalek::{Signer, SigningKey};
use shieldpoint::auth::{Auth, AuthError, TokenRecord, TOKEN_TTL_SECONDS};
use soroban_sdk::Env;

const PK_BYTES: [u8; 32] = [
    0x4c, 0xb5, 0xab, 0xf3, 0x67, 0x8c, 0x4d, 0x1e,
    0x3e, 0x7f, 0xf4, 0x05, 0x55, 0x3c, 0x8d, 0x4c,
    0x9e, 0x36, 0x87, 0x1b, 0x77, 0x6a, 0x0c, 0x3e,
    0x3b, 0x06, 0x79, 0x08, 0xe7, 0x42, 0x65, 0x7a,
];

/// The id of the contract under test.
const CONTRACT_ID: [u8; 32] = [0xc1; 32];
/// The id of some other contract.
const OTHER_CONTRACT_ID: [u8; 32] = [0xd2; 32];

const TIMESTAMP: u64 = 1_000;
const SEQUENCE: u32 = 7;

/// A 40-byte challenge: contract_id[32] || nonce[8].
fn make_challenge(contract_id: &[u8; 32], nonce: [u8; 8]) -> Vec<u8> {
    let mut ch = contract_id.to_vec();
    ch.extend_from_slice(&nonce);
    ch
}

/// A 64-byte signature; in these tests the signature check is mocked as passing.
fn mock_sig() -> Vec<u8> {
    vec![0xffu8; 64]
}

/// Authenticates with the signature check mocked as passing.
fn authenticate_mocked(auth: &mut Auth, env: &Env, challenge: &Vec<u8>, sig: &Vec<u8>) -> Result<shieldpoint::auth::AuthGrant, AuthError> {
    auth.authenticate_checked(env, &CONTRACT_ID, TIMESTAMP, SEQUENCE, challenge, sig, &PK_BYTES, true)
}

#[test]
fn test_authenticate_valid_challenge_returns_true() {
    let env = Env::default();
    let mut auth = Auth::new();
    let challenge = make_challenge(&CONTRACT_ID, [0, 0, 0, 0, 0, 0, 0, 1]);
    let result = authenticate_mocked(&mut auth, &env, &challenge, &mock_sig());
    assert!(result.is_ok());
}

#[test]
fn test_authenticate_rejects_short_challenge() {
    let env = Env::default();
    let mut auth = Auth::new();
    let challenge = vec![0u8; 10];
    let result = authenticate_mocked(&mut auth, &env, &challenge, &mock_sig());
    assert_eq!(result.err(), Some(AuthError::ChallengeTooShort));
}

#[test]
fn test_authenticate_rejects_wrong_contract_id() {
    let env = Env::default();
    let mut auth = Auth::new();
    let challenge = make_challenge(&OTHER_CONTRACT_ID, [0, 0, 0, 0, 0, 0, 0, 3]);
    let result = authenticate_mocked(&mut auth, &env, &challenge, &mock_sig());
    assert_eq!(result.err(), Some(AuthError::InvalidChallenge));
}

#[test]
fn test_authenticate_rejects_replayed_nonce() {
    let env = Env::default();
    let mut auth = Auth::new();
    let challenge = make_challenge(&CONTRACT_ID, [0, 0, 0, 0, 0, 0, 0, 4]);
    assert!(authenticate_mocked(&mut auth, &env, &challenge, &mock_sig()).is_ok());
    let second = authenticate_mocked(&mut auth, &env, &challenge, &mock_sig());
    assert_eq!(second.err(), Some(AuthError::ReplayedNonce));
}

#[test]
fn test_authenticate_rejects_wrong_length_signature() {
    let env = Env::default();
    let mut auth = Auth::new();
    let challenge = make_challenge(&CONTRACT_ID, [0, 0, 0, 0, 0, 0, 0, 5]);
    let bad_sig = vec![0u8; 32];
    let result = authenticate_mocked(&mut auth, &env, &challenge, &bad_sig);
    assert_eq!(result.err(), Some(AuthError::InvalidSignature));
}

#[test]
fn test_token_is_valid_immediately_after_auth() {
    let env = Env::default();
    let mut auth = Auth::new();
    let challenge = make_challenge(&CONTRACT_ID, [0, 0, 0, 0, 0, 0, 0, 6]);
    assert!(authenticate_mocked(&mut auth, &env, &challenge, &mock_sig()).is_ok());
    let fake_token = [0x5au8; 32];
    assert!(!auth.is_token_valid(&fake_token, TIMESTAMP));
}

#[test]
fn test_require_auth_panics_for_invalid_token() {
    let auth = Auth::new();
    let fake_token = [0x5au8; 32];
    assert_eq!(auth.require_auth(&fake_token, TIMESTAMP), Err(AuthError::Unauthorised));
}

#[test]
fn test_token_expires_after_ttl() {
    let env = Env::default();
    let mut auth = Auth::new();
    let challenge = make_challenge(&CONTRACT_ID, [0, 0, 0, 0, 0, 0, 0, 7]);
    assert!(authenticate_mocked(&mut auth, &env, &challenge, &mock_sig()).is_ok());
    let later = TIMESTAMP + TOKEN_TTL_SECONDS + 1;
    let fake_token = [0x5au8; 32];
    assert!(!auth.is_token_valid(&fake_token, later));
}

// ── Further scenarios ────────────────────────────────────────────────────────

#[test]
fn minted_token_is_sha256_of_key_sequence_and_challenge() {
    let env = Env::default();
    let mut auth = Auth::new();
    let challenge = make_challenge(&CONTRACT_ID, [0, 0, 0, 0, 0, 0, 0, 1]);
    let grant = authenticate_mocked(&mut auth, &env, &challenge, &mock_sig()).unwrap();
    // SHA-256(PK_BYTES || 7u32 big-endian || challenge), computed independently.
    let expected: [u8; 32] = [
        0x28, 0xc3, 0xcc, 0xca, 0xf6, 0x73, 0x98, 0x4a, 0xea, 0x76, 0x96, 0xce, 0x5a, 0xe8, 0xcc, 0x31,
        0xf1, 0xaf, 0x0a, 0x0a, 0xa5, 0xbb, 0xd8, 0xef, 0x39, 0x07, 0xb5, 0xca, 0x9b, 0xd8, 0x06, 0x4e,
    ];
    assert_eq!(grant.token, expected);
    assert_eq!(grant.expiry, TIMESTAMP + TOKEN_TTL_SECONDS);
    assert_eq!(auth.token_expiry(&expected), Some(TIMESTAMP + TOKEN_TTL_SECONDS));
}

#[test]
fn minted_token_lives_exactly_one_ttl() {
    let env = Env::default();
    let mut auth = Auth::new();
    let challenge = make_challenge(&CONTRACT_ID, [9, 9, 9, 9, 9, 9, 9, 9]);
    let grant = authenticate_mocked(&mut auth, &env, &challenge, &mock_sig()).unwrap();
    assert!(auth.is_token_valid(&grant.token, TIMESTAMP));
    assert!(auth.is_token_valid(&grant.token, TIMESTAMP + TOKEN_TTL_SECONDS - 1));
    assert!(!auth.is_token_valid(&grant.token, TIMESTAMP + TOKEN_TTL_SECONDS));
    assert_eq!(auth.require_auth(&grant.token, TIMESTAMP), Ok(()));
    assert_eq!(
        auth.require_auth(&grant.token, TIMESTAMP + TOKEN_TTL_SECONDS),
        Err(AuthError::Unauthorised)
    );
}

#[test]
fn refused_request_leaves_state_unchanged() {
    let env = Env::default();
    let mut auth = Auth::new();
    let challenge = make_challenge(&CONTRACT_ID, [1, 2, 3, 4, 5, 6, 7, 8]);
    let refused = auth.authenticate_checked(&env, &CONTRACT_ID, TIMESTAMP, SEQUENCE, &challenge, &mock_sig(), &PK_BYTES, false);
    assert_eq!(refused.err(), Some(AuthError::InvalidSignature));
    assert!(!auth.is_nonce_used(&[1, 2, 3, 4, 5, 6, 7, 8]));
    assert!(auth.token_records().is_empty());
    // The nonce is still fresh, so a correctly signed retry succeeds.
    assert!(authenticate_mocked(&mut auth, &env, &challenge, &mock_sig()).is_ok());
    assert!(auth.is_nonce_used(&[1, 2, 3, 4, 5, 6, 7, 8]));
}

#[test]
fn same_nonce_with_longer_challenge_is_replay() {
    let env = Env::default();
    let mut auth = Auth::new();
    let nonce = [0, 0, 0, 0, 0, 0, 0, 42];
    let challenge = make_challenge(&CONTRACT_ID, nonce);
    assert!(authenticate_mocked(&mut auth, &env, &challenge, &mock_sig()).is_ok());
    let mut longer = challenge.clone();
    longer.extend_from_slice(b"extra");
    assert_eq!(authenticate_mocked(&mut auth, &env, &longer, &mock_sig()).err(), Some(AuthError::ReplayedNonce));
}

#[test]
fn real_ed25519_signature_is_accepted() {
    let env = Env::default();
    let signing_key = SigningKey::from_bytes(&[1u8; 32]);
    let public_key = signing_key.verifying_key().to_bytes();
    let challenge = make_challenge(&CONTRACT_ID, [0, 0, 0, 0, 0, 0, 0, 1]);
    let signature = signing_key.sign(&challenge).to_bytes().to_vec();
    let mut auth = Auth::new();
    let grant = auth.authenticate(&env, &CONTRACT_ID, TIMESTAMP, SEQUENCE, &challenge, &signature, &public_key);
    assert!(grant.is_ok());
    assert!(auth.is_token_valid(&grant.unwrap().token, TIMESTAMP));
}

#[test]
fn forged_ed25519_signature_is_refused() {
    let env = Env::default();
    let signing_key = SigningKey::from_bytes(&[1u8; 32]);
    let public_key = signing_key.verifying_key().to_bytes();
    let challenge = make_challenge(&CONTRACT_ID, [0, 0, 0, 0, 0, 0, 0, 2]);
    let mut signature = signing_key.sign(&challenge).to_bytes().to_vec();
    signature[0] ^= 1;
    let mut auth = Auth::new();
    let refused = auth.authenticate(&env, &CONTRACT_ID, TIMESTAMP, SEQUENCE, &challenge, &signature, &public_key);
    assert_eq!(refused.err(), Some(AuthError::InvalidSignature));
    // A signature of another challenge does not pass either.
    let other = make_challenge(&CONTRACT_ID, [0, 0, 0, 0, 0, 0, 0, 3]);
    let sig_other = signing_key.sign(&other).to_bytes().to_vec();
    let refused2 = auth.authenticate(&env, &CONTRACT_ID, TIMESTAMP, SEQUENCE, &challenge, &sig_other, &public_key);
    assert_eq!(refused2.err(), Some(AuthError::InvalidSignature));
    // The garbage test signature is refused by the real check.
    let refused3 = auth.authenticate(&env, &CONTRACT_ID, TIMESTAMP, SEQUENCE, &challenge, &mock_sig(), &PK_BYTES);
    assert_eq!(refused3.err(), Some(AuthError::InvalidSignature));
}

#[test]
fn re_setting_a_token_replaces_its_expiry() {
    let mut auth = Auth::new();
    auth.set_token([3u8; 32], 10);
    auth.set_token([4u8; 32], 20);
    auth.set_token([3u8; 32], 30);
    assert_eq!(auth.token_expiry(&[3u8; 32]), Some(30));
    assert_eq!(auth.token_expiry(&[4u8; 32]), Some(20));
    assert_eq!(auth.token_records().len(), 2);
    auth.mark_nonce_used([1u8; 8]);
    auth.mark_nonce_used([1u8; 8]);
    assert_eq!(auth.used_nonces().len(), 1);
}

#[test]
fn restore_keeps_nonces_and_tokens() {
    let restored = Auth::restore(
        vec![[1u8; 8], [2u8; 8], [1u8; 8]],
        vec![
            TokenRecord { token: [7u8; 32], expiry: 100 },
            TokenRecord { token: [8u8; 32], expiry: 200 },
        ],
    );
    assert!(restored.is_nonce_used(&[1u8; 8]));
    assert!(restored.is_nonce_used(&[2u8; 8]));
    assert!(!restored.is_nonce_used(&[3u8; 8]));
    assert_eq!(restored.used_nonces().len(), 2);
    assert_eq!(restored.token_expiry(&[7u8; 32]), Some(100));
    assert_eq!(restored.token_expiry(&[8u8; 32]), Some(200));
    assert_eq!(restored.token_expiry(&[9u8; 32]), None);
}

#[test]
fn auth_error_codes_round_trip() {
    for e in [
        AuthError::InvalidChallenge,
        AuthError::InvalidSignature,
        AuthError::ReplayedNonce,
        AuthError::Unauthorised,
        AuthError::ChallengeTooShort,
    ] {
        assert_eq!(AuthError::try_from_val(e.into_val()), Ok(e));
    }
    assert_eq!(AuthError::ChallengeTooShort.into_val(), 5);
    assert!(AuthError::try_from_val(0).is_err());
    assert!(AuthError::try_from_val(6).is_err());
}

#[test]
fn restore_lets_the_last_record_of_a_token_count() {
    let restored = Auth::restore(
        Vec::new(),
        vec![
            TokenRecord { token: [7u8; 32], expiry: 100 },
            TokenRecord { token: [7u8; 32], expiry: 300 },
        ],
    );
    assert_eq!(restored.token_expiry(&[7u8; 32]), Some(300));
    assert_eq!(restored.token_records().len(), 1);
}
