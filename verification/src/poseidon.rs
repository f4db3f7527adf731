//! A hash of up to eight 32-byte inputs. The host offers no native Poseidon
//! hash over byte inputs, so the hash is SHA-256 of a salted, length-prefixed
//! encoding of the inputs.

use vstd::prelude::*;

use crate::bytes::{append_bytes, concat_all, concat_words, lemma_concat_words, words_view};
use crate::host::{default_env, sha256, sha256_digest};

verus! {

/// The largest number of inputs the hash takes.
pub const MAX_POSEIDON_INPUTS: usize = 8;

/// The domain-separation salt, the ASCII bytes of `poseidon-hash-v1`.
pub const POSEIDON_SALT: [u8; 16] = [
    0x70, 0x6f, 0x73, 0x65, 0x69, 0x64, 0x6f, 0x6e,
    0x2d, 0x68, 0x61, 0x73, 0x68, 0x2d, 0x76, 0x31,
];

/// The bytes hashed for `inputs`: the salt, the number of inputs as one byte,
/// then the inputs in order.
pub open spec fn poseidon_preimage(inputs: Seq<[u8; 32]>) -> Seq<u8> {
    POSEIDON_SALT@ + seq![inputs.len() as u8] + concat_all(words_view(inputs))
}

/// The hash of `inputs`.
pub open spec fn poseidon_digest(inputs: Seq<[u8; 32]>) -> Seq<u8> {
    sha256_digest(poseidon_preimage(inputs))
}

/// Hashes up to eight inputs in a fresh environment.
pub fn poseidon_hash(inputs: Vec<[u8; 32]>) -> (digest: [u8; 32])
    requires
        inputs@.len() <= MAX_POSEIDON_INPUTS,
    ensures
        digest@ == poseidon_digest(inputs@),
{
    let env = default_env();
    poseidon_hash_with_env(&env, inputs)
}

/// Hashes up to eight inputs: with the host's native Poseidon primitive where
/// there is one, else with the SHA-256 fallback.
pub fn poseidon_hash_with_env(env: &soroban_sdk::Env, inputs: Vec<[u8; 32]>) -> (digest: [u8; 32])
    requires
        inputs@.len() <= MAX_POSEIDON_INPUTS,
    ensures
        digest@ == poseidon_digest(inputs@),
{
    match try_native_poseidon_hash(env, &inputs) {
        Some(digest) => digest,
        None => sha256_fallback(env, &inputs),
    }
}

/// The host's native Poseidon hash. The SDK exposes a Poseidon permutation
/// but no Poseidon hash over byte inputs, so there is none to use.
fn try_native_poseidon_hash(_env: &soroban_sdk::Env, _inputs: &Vec<[u8; 32]>) -> (digest: Option<
    [u8; 32],
>)
    ensures
        digest is None,
{
    None
}

/// SHA-256 of the salted, length-prefixed inputs.
fn sha256_fallback(env: &soroban_sdk::Env, inputs: &Vec<[u8; 32]>) -> (digest: [u8; 32])
    requires
        inputs@.len() <= MAX_POSEIDON_INPUTS,
    ensures
        digest@ == poseidon_digest(inputs@),
{
    let mut data: Vec<u8> = Vec::new();
    append_bytes(&mut data, POSEIDON_SALT.as_slice());
    data.push(inputs.len() as u8);
    let flat = concat_words(inputs);
    append_bytes(&mut data, flat.as_slice());
    assert(data@ =~= poseidon_preimage(inputs@));
    sha256(env, &data)
}

/// Distinct lists of at most eight inputs have distinct preimages, so the hash
/// separates them as far as SHA-256 does.
pub proof fn lemma_preimage_injective(a: Seq<[u8; 32]>, b: Seq<[u8; 32]>)
    requires
        a.len() <= MAX_POSEIDON_INPUTS,
        b.len() <= MAX_POSEIDON_INPUTS,
        poseidon_preimage(a) == poseidon_preimage(b),
    ensures
        a == b,
{
    assert(poseidon_preimage(a)[16] == a.len() as u8);
    assert(poseidon_preimage(b)[16] == b.len() as u8);
    assert(a.len() == b.len());
    lemma_concat_words(a);
    lemma_concat_words(b);
    let ca = concat_all(words_view(a));
    let cb = concat_all(words_view(b));
    assert(ca =~= poseidon_preimage(a).subrange(17, 17 + 32 * a.len() as int));
    assert(cb =~= poseidon_preimage(b).subrange(17, 17 + 32 * b.len() as int));
    assert forall|i: int| 0 <= i < a.len() implies a[i] == b[i] by {
        assert(ca.subrange(32 * i, 32 * i + 32) == a[i]@);
        assert(cb.subrange(32 * i, 32 * i + 32) == b[i]@);
        assert(a[i] =~= b[i]);
    }
    assert(a =~= b);
}

/// For every list of at most eight inputs, including a list of one, the hash
/// is SHA-256 of a byte string that starts with the ASCII bytes of
/// `poseidon-hash-v1`, then holds the number of inputs as one byte, then each
/// input in order as a 32-byte block, and nothing else.
pub proof fn lemma_poseidon_digest_layout(inputs: Seq<[u8; 32]>)
    requires
        inputs.len() <= MAX_POSEIDON_INPUTS,
    ensures
        poseidon_digest(inputs) == sha256_digest(poseidon_preimage(inputs)),
        poseidon_preimage(inputs).len() == 17 + 32 * inputs.len(),
        poseidon_preimage(inputs).subrange(0, 16) == seq![
            0x70u8, 0x6f, 0x73, 0x65, 0x69, 0x64, 0x6f, 0x6e,
            0x2d, 0x68, 0x61, 0x73, 0x68, 0x2d, 0x76, 0x31,
        ],
        poseidon_preimage(inputs)[16] == inputs.len(),
        forall|i: int|
            0 <= i < inputs.len() ==> #[trigger] poseidon_preimage(inputs).subrange(
                17 + 32 * i,
                17 + 32 * i + 32,
            ) == inputs[i]@,
{
    lemma_concat_words(inputs);
    let p = poseidon_preimage(inputs);
    let c = concat_all(words_view(inputs));
    assert(p.subrange(0, 16) =~= seq![
        0x70u8, 0x6f, 0x73, 0x65, 0x69, 0x64, 0x6f, 0x6e,
        0x2d, 0x68, 0x61, 0x73, 0x68, 0x2d, 0x76, 0x31,
    ]);
    assert forall|i: int| 0 <= i < inputs.len() implies #[trigger] p.subrange(
        17 + 32 * i,
        17 + 32 * i + 32,
    ) == inputs[i]@ by {
        assert(p.subrange(17 + 32 * i, 17 + 32 * i + 32) =~= c.subrange(32 * i, 32 * i + 32));
    }
}

} // verus!
