//! The boundary to the Soroban host and to the Ed25519 implementation that the
//! host itself uses. Every item here is trusted: its contract is read from the
//! outside crate's source, not proved.

use vstd::prelude::*;

verus! {

/// `soroban_sdk::Env`, the Soroban environment, carried through the library as
/// an opaque handle: nothing inside it is read by verified code.
#[verifier::external_type_specification]
#[verifier::external_body]
pub struct ExEnv(soroban_sdk::Env);

/// SHA-256 of a byte string, as the Soroban host computes it.
pub uninterp spec fn sha256_digest(data: Seq<u8>) -> Seq<u8>;

/// Whether `ed25519_dalek::VerifyingKey::verify_strict` accepts `signature` as a
/// signature of `message` under the 32-byte key `public_key` (a key that does not
/// decode to a curve point is not accepted).
pub uninterp spec fn ed25519_verify_strict(
    public_key: Seq<u8>,
    message: Seq<u8>,
    signature: Seq<u8>,
) -> bool;

/// Calls `soroban_sdk::crypto::Crypto::sha256` on the bytes of `data`.
///
/// Claimed: the 32 bytes returned are the host's SHA-256 of `data`, a function
/// of `data` alone. Not claimed: that the host never runs out of its metering
/// budget, on which the host call traps instead of returning.
#[verifier::external_body]
pub(crate) fn sha256(env: &soroban_sdk::Env, data: &Vec<u8>) -> (digest: [u8; 32])
    ensures
        digest@ == sha256_digest(data@),
{
    env.crypto().sha256(&soroban_sdk::Bytes::from_slice(env, data.as_slice())).to_array()
}

/// Calls `ed25519_dalek::VerifyingKey::from_bytes` and then
/// `VerifyingKey::verify_strict`, the two steps by which the Soroban host's
/// `ed25519_verify` decides; the host traps where this returns `false`.
///
/// Claimed: the result is `ed25519_verify_strict` of the three byte strings,
/// with `false` for a key that does not decode.
#[verifier::external_body]
pub(crate) fn ed25519_signature_valid(
    public_key: &[u8; 32],
    message: &Vec<u8>,
    signature: &[u8; 64],
) -> (accepted: bool)
    ensures
        accepted == ed25519_verify_strict(public_key@, message@, signature@),
{
    match ed25519_dalek::VerifyingKey::from_bytes(public_key) {
        Ok(key) => key.verify_strict(
            message.as_slice(),
            &ed25519_dalek::Signature::from_bytes(signature),
        ).is_ok(),
        Err(_) => false,
    }
}

/// Calls `<soroban_sdk::Env as Default>::default`, which creates a fresh test host.
/// Nothing is claimed of the environment returned.
#[verifier::external_body]
pub(crate) fn default_env() -> soroban_sdk::Env {
    soroban_sdk::Env::default()
}

} // verus!
