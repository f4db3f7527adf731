//! Challenge authentication: a party proves control of an Ed25519 key by
//! signing a challenge bound to this contract and a fresh nonce, and receives an
//! ephemeral token that is valid for a fixed number of ledger seconds.

use vstd::prelude::*;

use crate::bytes::bytes_equal;
use crate::error::ConversionError;
use crate::keyed::{
    has_key, inserted_map, keyed_map, keys_distinct, lemma_inserted_map_prefix, lemma_keyed_map_at,
    lemma_keyed_map_push, lemma_keyed_map_update,
};
use crate::host::{ed25519_signature_valid, ed25519_verify_strict, sha256, sha256_digest};

verus! {

/// Auth tokens expire after this many ledger seconds (about one hour).
pub const TOKEN_TTL_SECONDS: u64 = 3600;

/// Minimum challenge length: the contract id (32 bytes) and the nonce (8 bytes).
pub const MIN_CHALLENGE_LEN: usize = 40;

/// The keys under which the contract keeps its state.
#[derive(Clone, Copy, Debug, PartialEq, Eq, Structural)]
pub enum DataKey {
    /// The set of nonces that were used.
    UsedNonces,
    /// The active tokens with their expiry timestamps.
    AuthTokens,
    /// The contract's own id.
    ContractId,
}

/// Why an authentication request is refused.
#[derive(Clone, Copy, Debug, PartialEq, Eq, Structural)]
pub enum AuthError {
    InvalidChallenge,
    InvalidSignature,
    ReplayedNonce,
    Unauthorised,
    ChallengeTooShort,
}

impl AuthError {
    /// The numeric code of each error.
    pub open spec fn code(self) -> u32 {
        match self {
            AuthError::InvalidChallenge => 1,
            AuthError::InvalidSignature => 2,
            AuthError::ReplayedNonce => 3,
            AuthError::Unauthorised => 4,
            AuthError::ChallengeTooShort => 5,
        }
    }

    /// The numeric code of this error.
    pub fn into_val(&self) -> (code: u32)
        ensures
            code == self.code(),
    {
        match self {
            AuthError::InvalidChallenge => 1,
            AuthError::InvalidSignature => 2,
            AuthError::ReplayedNonce => 3,
            AuthError::Unauthorised => 4,
            AuthError::ChallengeTooShort => 5,
        }
    }

    /// The error with the numeric code `code`, if there is one.
    pub fn try_from_val(code: u32) -> (decoded: Result<AuthError, ConversionError>)
        ensures
            decoded matches Ok(e) ==> e.code() == code,
            decoded is Err <==> !(1 <= code <= 5),
    {
        match code {
            1 => Ok(AuthError::InvalidChallenge),
            2 => Ok(AuthError::InvalidSignature),
            3 => Ok(AuthError::ReplayedNonce),
            4 => Ok(AuthError::Unauthorised),
            5 => Ok(AuthError::ChallengeTooShort),
            _ => Err(ConversionError),
        }
    }
}

/// An active token and the ledger timestamp from which on it is expired.
#[derive(Clone, Copy, Debug)]
pub struct TokenRecord {
    pub token: [u8; 32],
    pub expiry: u64,
}

/// What a successful authentication grants: a fresh token and its expiry.
#[derive(Clone, Copy, Debug)]
pub struct AuthGrant {
    pub token: [u8; 32],
    pub expiry: u64,
}

/// The abstract state of the contract: the used nonces, and each active token
/// with its expiry timestamp.
pub struct AuthView {
    pub used_nonces: Set<Seq<u8>>,
    pub tokens: Map<Seq<u8>, u64>,
}

/// The state of the authentication contract.
pub struct Auth {
    used_nonces: Vec<[u8; 8]>,
    tokens: Vec<TokenRecord>,
}

/// No nonce occurs twice.
pub open spec fn nonces_distinct(nonces: Seq<[u8; 8]>) -> bool {
    forall|i: int, j: int|
        0 <= i < nonces.len() && 0 <= j < nonces.len() && i != j ==> #[trigger] nonces[i]@
            != #[trigger] nonces[j]@
}

/// The set of nonces held in a list.
pub open spec fn nonce_set(nonces: Seq<[u8; 8]>) -> Set<Seq<u8>> {
    Set::new(|n: Seq<u8>| exists|i: int| 0 <= i < nonces.len() && #[trigger] nonces[i]@ == n)
}

/// The tokens of a list of records, each with its expiry.
pub open spec fn token_entries(records: Seq<TokenRecord>) -> Seq<(Seq<u8>, u64)> {
    records.map_values(|r: TokenRecord| (r.token@, r.expiry))
}

impl View for Auth {
    type V = AuthView;

    closed spec fn view(&self) -> AuthView {
        AuthView { used_nonces: nonce_set(self.used_nonces@), tokens: keyed_map(token_entries(self.tokens@)) }
    }
}

// ── The decision, stated over the abstract state ────────────────────────────

/// The nonce of a challenge: its bytes 32 up to 40.
pub open spec fn challenge_nonce(challenge: Seq<u8>) -> Seq<u8> {
    challenge.subrange(32, 40)
}

/// The big-endian bytes of a 32-bit ledger sequence number.
pub open spec fn u32_be_bytes(x: u32) -> Seq<u8> {
    seq![(x >> 24u32) as u8, (x >> 16u32) as u8, (x >> 8u32) as u8, x as u8]
}

/// The bytes hashed into a token: the public key, the ledger sequence number in
/// big-endian order, and the challenge.
pub open spec fn token_preimage(public_key: Seq<u8>, sequence: u32, challenge: Seq<u8>) -> Seq<u8> {
    public_key + u32_be_bytes(sequence) + challenge
}

/// The token minted for an authentication.
pub open spec fn minted_token(public_key: Seq<u8>, sequence: u32, challenge: Seq<u8>) -> Seq<u8> {
    sha256_digest(token_preimage(public_key, sequence, challenge))
}

/// Whether the host accepts `signature` as an Ed25519 signature of `challenge`
/// under `public_key`: it must be 64 bytes long and pass strict verification.
pub open spec fn host_accepts(public_key: Seq<u8>, challenge: Seq<u8>, signature: Seq<u8>) -> bool {
    signature.len() == 64 && ed25519_verify_strict(public_key, challenge, signature)
}

/// The error on which an authentication request is refused, checked in order:
/// the challenge's length, its contract id prefix, its nonce, then the signature.
pub open spec fn authenticate_error(
    s: AuthView,
    contract_id: Seq<u8>,
    challenge: Seq<u8>,
    signature: Seq<u8>,
    signature_accepted: bool,
) -> Option<AuthError> {
    if challenge.len() < MIN_CHALLENGE_LEN {
        Some(AuthError::ChallengeTooShort)
    } else if challenge.subrange(0, 32) != contract_id {
        Some(AuthError::InvalidChallenge)
    } else if s.used_nonces.contains(challenge_nonce(challenge)) {
        Some(AuthError::ReplayedNonce)
    } else if signature.len() != 64 || !signature_accepted {
        Some(AuthError::InvalidSignature)
    } else {
        None
    }
}

/// The state after an authentication request, or the error that refuses it.
pub open spec fn authenticate_outcome(
    s: AuthView,
    contract_id: Seq<u8>,
    timestamp: u64,
    sequence: u32,
    challenge: Seq<u8>,
    signature: Seq<u8>,
    public_key: Seq<u8>,
    signature_accepted: bool,
) -> Result<AuthView, AuthError> {
    match authenticate_error(s, contract_id, challenge, signature, signature_accepted) {
        Some(e) => Err(e),
        None => Ok(
            AuthView {
                used_nonces: s.used_nonces.insert(challenge_nonce(challenge)),
                tokens: s.tokens.insert(
                    minted_token(public_key, sequence, challenge),
                    (timestamp + TOKEN_TTL_SECONDS) as u64,
                ),
            },
        ),
    }
}

/// Whether `token` is active and not expired at ledger time `now`.
pub open spec fn token_valid(s: AuthView, token: Seq<u8>, now: u64) -> bool {
    s.tokens.contains_key(token) && now < s.tokens[token]
}

// ── Executable contract ─────────────────────────────────────────────────────

fn copy_nonce(challenge: &Vec<u8>) -> (nonce: [u8; 8])
    requires
        challenge@.len() >= 40,
    ensures
        nonce@ == challenge_nonce(challenge@),
{
    let mut nonce: [u8; 8] = [0u8; 8];
    let mut i: usize = 0;
    while i < 8
        invariant
            i <= 8,
            challenge@.len() >= 40,
            forall|j: int| 0 <= j < i ==> nonce@[j] == challenge@[32 + j],
        decreases 8 - i,
    {
        nonce[i] = challenge[32 + i];
        i = i + 1;
    }
    assert(nonce@ =~= challenge_nonce(challenge@));
    nonce
}

fn copy_contract_prefix(challenge: &Vec<u8>) -> (prefix: [u8; 32])
    requires
        challenge@.len() >= 40,
    ensures
        prefix@ == challenge@.subrange(0, 32),
{
    let mut prefix: [u8; 32] = [0u8; 32];
    let mut i: usize = 0;
    while i < 32
        invariant
            i <= 32,
            challenge@.len() >= 40,
            forall|j: int| 0 <= j < i ==> prefix@[j] == challenge@[j],
        decreases 32 - i,
    {
        prefix[i] = challenge[i];
        i = i + 1;
    }
    assert(prefix@ =~= challenge@.subrange(0, 32));
    prefix
}

fn signature_array(signature: &Vec<u8>) -> (sig: [u8; 64])
    requires
        signature@.len() == 64,
    ensures
        sig@ == signature@,
{
    let mut sig: [u8; 64] = [0u8; 64];
    let mut i: usize = 0;
    while i < 64
        invariant
            i <= 64,
            signature@.len() == 64,
            forall|j: int| 0 <= j < i ==> sig@[j] == signature@[j],
        decreases 64 - i,
    {
        sig[i] = signature[i];
        i = i + 1;
    }
    assert(sig@ =~= signature@);
    sig
}

fn token_input(public_key: &[u8; 32], sequence: u32, challenge: &Vec<u8>) -> (buf: Vec<u8>)
    ensures
        buf@ == token_preimage(public_key@, sequence, challenge@),
{
    let mut buf: Vec<u8> = Vec::new();
    crate::bytes::append_bytes(&mut buf, public_key.as_slice());
    let seq_bytes: [u8; 4] = [
        (sequence >> 24u32) as u8,
        (sequence >> 16u32) as u8,
        (sequence >> 8u32) as u8,
        sequence as u8,
    ];
    assert(seq_bytes@ =~= u32_be_bytes(sequence));
    crate::bytes::append_bytes(&mut buf, seq_bytes.as_slice());
    crate::bytes::append_bytes(&mut buf, challenge.as_slice());
    buf
}

impl Auth {
    #[verifier::type_invariant]
    spec fn inv(self) -> bool {
        &&& nonces_distinct(self.used_nonces@)
        &&& keys_distinct(token_entries(self.tokens@))
    }

    /// A contract with no used nonce and no token.
    pub fn new() -> (auth: Auth)
        ensures
            auth@.used_nonces == Set::<Seq<u8>>::empty(),
            auth@.tokens == Map::<Seq<u8>, u64>::empty(),
    {
        let auth = Auth { used_nonces: Vec::new(), tokens: Vec::new() };
        assert(auth@.used_nonces =~= Set::<Seq<u8>>::empty());
        assert(auth@.tokens =~= Map::<Seq<u8>, u64>::empty());
        auth
    }

    /// The used nonces, each once.
    pub fn used_nonces(&self) -> (nonces: &Vec<[u8; 8]>)
        ensures
            nonce_set(nonces@) == self@.used_nonces,
            nonces_distinct(nonces@),
    {
        proof {
            use_type_invariant(self);
        }
        &self.used_nonces
    }

    /// The active tokens with their expiry, each token once.
    pub fn token_records(&self) -> (records: &Vec<TokenRecord>)
        ensures
            keyed_map(token_entries(records@)) == self@.tokens,
            keys_distinct(token_entries(records@)),
    {
        proof {
            use_type_invariant(self);
        }
        &self.tokens
    }

    /// Whether `nonce` was used.
    pub fn is_nonce_used(&self, nonce: &[u8; 8]) -> (used: bool)
        ensures
            used == self@.used_nonces.contains(nonce@),
    {
        let mut i: usize = 0;
        while i < self.used_nonces.len()
            invariant
                i <= self.used_nonces@.len(),
                forall|j: int| 0 <= j < i ==> #[trigger] self.used_nonces@[j]@ != nonce@,
            decreases self.used_nonces@.len() - i,
        {
            let candidate: [u8; 8] = self.used_nonces[i];
            if bytes_equal(candidate.as_slice(), nonce.as_slice()) {
                assert(self.used_nonces@[i as int]@ == nonce@);
                return true;
            }
            i = i + 1;
        }
        proof {
            if nonce_set(self.used_nonces@).contains(nonce@) {
                let j = choose|j: int|
                    0 <= j < self.used_nonces@.len() && #[trigger] self.used_nonces@[j]@ == nonce@;
                assert(self.used_nonces@[j]@ != nonce@);
            }
        }
        false
    }

    /// The index of the record that holds `token`, if any.
    fn find_token(&self, token: &[u8; 32]) -> (found: Option<usize>)
        ensures
            found matches Some(i) ==> i < self.tokens@.len() && self.tokens@[i as int].token@
                == token@,
            found is None ==> !has_key(token_entries(self.tokens@), token@),
    {
        let mut i: usize = 0;
        while i < self.tokens.len()
            invariant
                i <= self.tokens@.len(),
                forall|j: int| 0 <= j < i ==> #[trigger] self.tokens@[j].token@ != token@,
            decreases self.tokens@.len() - i,
        {
            let candidate: [u8; 32] = self.tokens[i].token;
            if bytes_equal(candidate.as_slice(), token.as_slice()) {
                return Some(i);
            }
            i = i + 1;
        }
        proof {
            let es = token_entries(self.tokens@);
            if has_key(es, token@) {
                let j = choose|j: int| 0 <= j < es.len() && #[trigger] es[j].0 == token@;
                assert(self.tokens@[j].token@ == es[j].0);
            }
        }
        None
    }

    /// The expiry of `token`, if it is active.
    pub fn token_expiry(&self, token: &[u8; 32]) -> (expiry: Option<u64>)
        ensures
            expiry is Some <==> self@.tokens.contains_key(token@),
            expiry matches Some(e) ==> e == self@.tokens[token@],
    {
        proof {
            use_type_invariant(self);
        }
        match self.find_token(token) {
            Some(i) => {
                proof {
                    lemma_keyed_map_at(token_entries(self.tokens@), i as int);
                }
                Some(self.tokens[i].expiry)
            },
            None => None,
        }
    }

    /// Records `nonce` as used.
    pub fn mark_nonce_used(&mut self, nonce: [u8; 8])
        ensures
            final(self)@.used_nonces == old(self)@.used_nonces.insert(nonce@),
            final(self)@.tokens == old(self)@.tokens,
    {
        proof {
            use_type_invariant(&*self);
        }
        if self.is_nonce_used(&nonce) {
            assert(final(self)@.used_nonces =~= old(self)@.used_nonces.insert(nonce@));
            return;
        }
        let mut nonces: Vec<[u8; 8]> = Vec::new();
        std::mem::swap(&mut nonces, &mut self.used_nonces);
        let ghost before = nonces@;
        nonces.push(nonce);
        proof {
            assert forall|i: int, j: int|
                0 <= i < nonces@.len() && 0 <= j < nonces@.len() && i != j implies #[trigger] nonces@[i]@
                != #[trigger] nonces@[j]@ by {
                if i == before.len() {
                    assert(nonces@[j] == before[j]);
                    assert(nonce_set(before).contains(before[j]@));
                } else if j == before.len() {
                    assert(nonces@[i] == before[i]);
                    assert(nonce_set(before).contains(before[i]@));
                } else {
                    assert(nonces@[i] == before[i] && nonces@[j] == before[j]);
                }
            }
            assert forall|n: Seq<u8>| nonce_set(nonces@).contains(n) <==> nonce_set(before).insert(
                nonce@,
            ).contains(n) by {
                if nonce_set(before).contains(n) {
                    let i = choose|i: int| 0 <= i < before.len() && #[trigger] before[i]@ == n;
                    assert(nonces@[i] == before[i]);
                }
                if nonce_set(nonces@).contains(n) && n != nonce@ {
                    let i = choose|i: int| 0 <= i < nonces@.len() && #[trigger] nonces@[i]@ == n;
                    assert(nonces@[i] == before[i]);
                }
                if n == nonce@ {
                    assert(nonces@[before.len() as int]@ == n);
                }
            }
            assert(nonce_set(nonces@) =~= nonce_set(before).insert(nonce@));
        }
        self.used_nonces = nonces;
    }

    /// Sets the expiry of `token`, adding the token if it is not active.
    pub fn set_token(&mut self, token: [u8; 32], expiry: u64)
        ensures
            final(self)@.tokens == old(self)@.tokens.insert(token@, expiry),
            final(self)@.used_nonces == old(self)@.used_nonces,
    {
        proof {
            use_type_invariant(&*self);
        }
        let found = self.find_token(&token);
        let mut records: Vec<TokenRecord> = Vec::new();
        std::mem::swap(&mut records, &mut self.tokens);
        let ghost before = token_entries(records@);
        let record = TokenRecord { token, expiry };
        match found {
            Some(i) => {
                records[i] = record;
                proof {
                    lemma_keyed_map_update(before, i as int, expiry);
                    assert(token_entries(records@) =~= before.update(i as int, (before[i as int].0, expiry)));
                }
            },
            None => {
                records.push(record);
                proof {
                    lemma_keyed_map_push(before, token@, expiry);
                    assert(token_entries(records@) =~= before.push((token@, expiry)));
                }
            },
        }
        self.tokens = records;
    }

    /// A contract state that holds each nonce of `nonces` and each token record
    /// of `records`; where a token occurs more than once, its last record counts.
    pub fn restore(nonces: Vec<[u8; 8]>, records: Vec<TokenRecord>) -> (auth: Auth)
        ensures
            auth@.used_nonces == nonce_set(nonces@),
            auth@.tokens == inserted_map(token_entries(records@)),
    {
        let mut auth = Auth::new();
        let mut i: usize = 0;
        while i < nonces.len()
            invariant
                i <= nonces@.len(),
                auth@.used_nonces == nonce_set(nonces@.subrange(0, i as int)),
                auth@.tokens == Map::<Seq<u8>, u64>::empty(),
            decreases nonces@.len() - i,
        {
            auth.mark_nonce_used(nonces[i]);
            proof {
                let pre = nonces@.subrange(0, i as int);
                let post = nonces@.subrange(0, i + 1);
                assert forall|n: Seq<u8>| nonce_set(post).contains(n) <==> nonce_set(pre).insert(
                    nonces@[i as int]@,
                ).contains(n) by {
                    if nonce_set(pre).contains(n) {
                        let k = choose|k: int| 0 <= k < pre.len() && #[trigger] pre[k]@ == n;
                        assert(post[k] == pre[k]);
                    }
                    if nonce_set(post).contains(n) && n != nonces@[i as int]@ {
                        let k = choose|k: int| 0 <= k < post.len() && #[trigger] post[k]@ == n;
                        assert(post[k] == pre[k]);
                    }
                    if n == nonces@[i as int]@ {
                        assert(post[i as int]@ == n);
                    }
                }
                assert(nonce_set(post) =~= nonce_set(pre).insert(nonces@[i as int]@));
            }
            i = i + 1;
        }
        assert(nonces@.subrange(0, nonces@.len() as int) =~= nonces@);
        assert(token_entries(records@).subrange(0, 0) =~= Seq::<(Seq<u8>, u64)>::empty());
        let mut k: usize = 0;
        while k < records.len()
            invariant
                k <= records@.len(),
                auth@.used_nonces == nonce_set(nonces@),
                auth@.tokens == inserted_map(token_entries(records@).subrange(0, k as int)),
            decreases records@.len() - k,
        {
            let r = records[k];
            auth.set_token(r.token, r.expiry);
            proof {
                lemma_inserted_map_prefix(token_entries(records@), k as int);
            }
            k = k + 1;
        }
        assert(token_entries(records@).subrange(0, records@.len() as int) =~= token_entries(records@));
        auth
    }

    /// Whether `token` is active and not expired at ledger time `now`.
    pub fn is_token_valid(&self, token: &[u8; 32], now: u64) -> (valid: bool)
        ensures
            valid == token_valid(self@, token@, now),
    {
        match self.token_expiry(token) {
            Some(expiry) => now < expiry,
            None => false,
        }
    }

    /// Refuses with `Unauthorised` unless `token` is active and not expired at
    /// ledger time `now`.
    pub fn require_auth(&self, token: &[u8; 32], now: u64) -> (checked: Result<(), AuthError>)
        ensures
            checked is Ok <==> token_valid(self@, token@, now),
            checked matches Err(e) ==> e == AuthError::Unauthorised,
    {
        if !self.is_token_valid(token, now) {
            return Err(AuthError::Unauthorised);
        }
        Ok(())
    }

    /// Validates a signed challenge and mints a token, given whether the host
    /// accepted `signature` as an Ed25519 signature of `challenge` under
    /// `public_key`.
    ///
    /// `challenge` must be `contract_id || nonce || ...`, with an unused nonce.
    /// On success the nonce is marked used and the token
    /// `SHA-256(public_key || sequence (big-endian) || challenge)` is stored with
    /// expiry `timestamp + TOKEN_TTL_SECONDS`. On refusal the state is unchanged.
    pub fn authenticate_checked(
        &mut self,
        env: &soroban_sdk::Env,
        contract_id: &[u8; 32],
        ledger_timestamp: u64,
        ledger_sequence: u32,
        challenge: &Vec<u8>,
        signature: &Vec<u8>,
        public_key: &[u8; 32],
        signature_accepted: bool,
    ) -> (granted: Result<AuthGrant, AuthError>)
        requires
            authenticate_error(old(self)@, contract_id@, challenge@, signature@, signature_accepted)
                is None ==> ledger_timestamp <= u64::MAX - TOKEN_TTL_SECONDS,
        ensures
            granted matches Err(e) ==> authenticate_outcome(
                old(self)@,
                contract_id@,
                ledger_timestamp,
                ledger_sequence,
                challenge@,
                signature@,
                public_key@,
                signature_accepted,
            ) == Err::<AuthView, AuthError>(e) && final(self)@ == old(self)@,
            granted matches Ok(g) ==> authenticate_outcome(
                old(self)@,
                contract_id@,
                ledger_timestamp,
                ledger_sequence,
                challenge@,
                signature@,
                public_key@,
                signature_accepted,
            ) == Ok::<AuthView, AuthError>(final(self)@) && g.token@ == minted_token(
                public_key@,
                ledger_sequence,
                challenge@,
            ) && g.expiry == ledger_timestamp + TOKEN_TTL_SECONDS,
    {
        // 1. Length guard.
        if challenge.len() < MIN_CHALLENGE_LEN {
            return Err(AuthError::ChallengeTooShort);
        }
        // 2. The challenge must be bound to this contract.
        let claimed = copy_contract_prefix(challenge);
        if !bytes_equal(claimed.as_slice(), contract_id.as_slice()) {
            return Err(AuthError::InvalidChallenge);
        }
        // 3. The nonce must be fresh.
        let nonce = copy_nonce(challenge);
        if self.is_nonce_used(&nonce) {
            return Err(AuthError::ReplayedNonce);
        }
        // 4. The signature must be 64 bytes and accepted.
        if signature.len() != 64 || !signature_accepted {
            return Err(AuthError::InvalidSignature);
        }
        // 5. Mark the nonce as used.
        self.mark_nonce_used(nonce);
        // 6. Mint the token.
        let preimage = token_input(public_key, ledger_sequence, challenge);
        let token = sha256(env, &preimage);
        let expiry = ledger_timestamp + TOKEN_TTL_SECONDS;
        self.set_token(token, expiry);
        Ok(AuthGrant { token, expiry })
    }

    /// Validates a signed challenge and mints a token (see
    /// [`Auth::authenticate_checked`]); the signature is checked by Ed25519
    /// strict verification, as the Soroban host checks it.
    pub fn authenticate(
        &mut self,
        env: &soroban_sdk::Env,
        contract_id: &[u8; 32],
        ledger_timestamp: u64,
        ledger_sequence: u32,
        challenge: &Vec<u8>,
        signature: &Vec<u8>,
        public_key: &[u8; 32],
    ) -> (granted: Result<AuthGrant, AuthError>)
        requires
            authenticate_error(old(self)@, contract_id@, challenge@, signature@, true) is None
                ==> ledger_timestamp <= u64::MAX - TOKEN_TTL_SECONDS,
        ensures
            granted matches Err(e) ==> authenticate_outcome(
                old(self)@,
                contract_id@,
                ledger_timestamp,
                ledger_sequence,
                challenge@,
                signature@,
                public_key@,
                host_accepts(public_key@, challenge@, signature@),
            ) == Err::<AuthView, AuthError>(e) && final(self)@ == old(self)@,
            granted matches Ok(g) ==> authenticate_outcome(
                old(self)@,
                contract_id@,
                ledger_timestamp,
                ledger_sequence,
                challenge@,
                signature@,
                public_key@,
                host_accepts(public_key@, challenge@, signature@),
            ) == Ok::<AuthView, AuthError>(final(self)@) && g.token@ == minted_token(
                public_key@,
                ledger_sequence,
                challenge@,
            ) && g.expiry == ledger_timestamp + TOKEN_TTL_SECONDS,
    {
        let accepted = if signature.len() == 64 {
            let sig = signature_array(signature);
            ed25519_signature_valid(public_key, challenge, &sig)
        } else {
            false
        };
        self.authenticate_checked(
            env,
            contract_id,
            ledger_timestamp,
            ledger_sequence,
            challenge,
            signature,
            public_key,
            accepted,
        )
    }
}

// ── Laws ────────────────────────────────────────────────────────────────────

/// Each error has its own numeric code, between 1 and 5, so that decoding the
/// code of an error gives the error back.
pub proof fn lemma_auth_error_codes(e1: AuthError, e2: AuthError)
    ensures
        1 <= e1.code() <= 5,
        e1.code() == e2.code() ==> e1 == e2,
{
}

/// A challenge that is not bound to this contract is refused with
/// `InvalidChallenge`, whatever the state, signature and key: a challenge minted
/// for one contract cannot be replayed on another.
pub proof fn lemma_foreign_challenge_rejected(
    s: AuthView,
    contract_id: Seq<u8>,
    timestamp: u64,
    sequence: u32,
    challenge: Seq<u8>,
    signature: Seq<u8>,
    public_key: Seq<u8>,
    signature_accepted: bool,
)
    requires
        challenge.len() >= MIN_CHALLENGE_LEN,
        challenge.subrange(0, 32) != contract_id,
    ensures
        authenticate_outcome(
            s,
            contract_id,
            timestamp,
            sequence,
            challenge,
            signature,
            public_key,
            signature_accepted,
        ) == Err::<AuthView, AuthError>(AuthError::InvalidChallenge),
{
}

/// A nonce is used at most once: after a successful authentication, every later
/// request for this contract whose challenge carries the same nonce is refused
/// with `ReplayedNonce`, whatever its signature, key and ledger.
pub proof fn lemma_nonce_single_use(
    s: AuthView,
    contract_id: Seq<u8>,
    timestamp: u64,
    sequence: u32,
    challenge: Seq<u8>,
    signature: Seq<u8>,
    public_key: Seq<u8>,
    signature_accepted: bool,
    later_timestamp: u64,
    later_sequence: u32,
    later_challenge: Seq<u8>,
    later_signature: Seq<u8>,
    later_public_key: Seq<u8>,
    later_accepted: bool,
)
    requires
        authenticate_outcome(
            s,
            contract_id,
            timestamp,
            sequence,
            challenge,
            signature,
            public_key,
            signature_accepted,
        ) is Ok,
        later_challenge.len() >= MIN_CHALLENGE_LEN,
        later_challenge.subrange(0, 32) == contract_id,
        challenge_nonce(later_challenge) == challenge_nonce(challenge),
    ensures
        authenticate_outcome(
            authenticate_outcome(
                s,
                contract_id,
                timestamp,
                sequence,
                challenge,
                signature,
                public_key,
                signature_accepted,
            )->Ok_0,
            contract_id,
            later_timestamp,
            later_sequence,
            later_challenge,
            later_signature,
            later_public_key,
            later_accepted,
        ) == Err::<AuthView, AuthError>(AuthError::ReplayedNonce),
{
}

/// A successful authentication keeps every used nonce used and every other
/// token's expiry, and adds its own nonce and token.
pub proof fn lemma_authenticate_only_adds(
    s: AuthView,
    contract_id: Seq<u8>,
    timestamp: u64,
    sequence: u32,
    challenge: Seq<u8>,
    signature: Seq<u8>,
    public_key: Seq<u8>,
    signature_accepted: bool,
    other: Seq<u8>,
)
    requires
        authenticate_outcome(
            s,
            contract_id,
            timestamp,
            sequence,
            challenge,
            signature,
            public_key,
            signature_accepted,
        ) is Ok,
    ensures
        ({
            let post = authenticate_outcome(
                s,
                contract_id,
                timestamp,
                sequence,
                challenge,
                signature,
                public_key,
                signature_accepted,
            )->Ok_0;
            &&& s.used_nonces.subset_of(post.used_nonces)
            &&& post.used_nonces.contains(challenge_nonce(challenge))
            &&& post.tokens.contains_key(minted_token(public_key, sequence, challenge))
            &&& (s.tokens.contains_key(other) && other != minted_token(public_key, sequence, challenge))
                ==> post.tokens.contains_key(other) && post.tokens[other] == s.tokens[other]
        }),
{
}

/// The token minted by a successful authentication at ledger time `timestamp`
/// is valid at exactly the ledger times before `timestamp + TOKEN_TTL_SECONDS`:
/// valid immediately, expired once the TTL has passed.
pub proof fn lemma_minted_token_lifetime(
    s: AuthView,
    contract_id: Seq<u8>,
    timestamp: u64,
    sequence: u32,
    challenge: Seq<u8>,
    signature: Seq<u8>,
    public_key: Seq<u8>,
    signature_accepted: bool,
    now: u64,
)
    requires
        timestamp <= u64::MAX - TOKEN_TTL_SECONDS,
        authenticate_outcome(
            s,
            contract_id,
            timestamp,
            sequence,
            challenge,
            signature,
            public_key,
            signature_accepted,
        ) is Ok,
    ensures
        token_valid(
            authenticate_outcome(
                s,
                contract_id,
                timestamp,
                sequence,
                challenge,
                signature,
                public_key,
                signature_accepted,
            )->Ok_0,
            minted_token(public_key, sequence, challenge),
            now,
        ) <==> now < timestamp + TOKEN_TTL_SECONDS,
{
}

/// An authentication request: its arguments and the ledger it meets.
pub struct AuthRequest {
    pub contract_id: Seq<u8>,
    pub timestamp: u64,
    pub sequence: u32,
    pub challenge: Seq<u8>,
    pub signature: Seq<u8>,
    pub public_key: Seq<u8>,
    pub signature_accepted: bool,
}

/// The outcome of a request on state `s`.
pub open spec fn request_outcome(s: AuthView, r: AuthRequest) -> Result<AuthView, AuthError> {
    authenticate_outcome(
        s,
        r.contract_id,
        r.timestamp,
        r.sequence,
        r.challenge,
        r.signature,
        r.public_key,
        r.signature_accepted,
    )
}

/// The state after one request; a refused request leaves the state as it was.
pub open spec fn auth_step(s: AuthView, r: AuthRequest) -> AuthView {
    match request_outcome(s, r) {
        Ok(post) => post,
        Err(_) => s,
    }
}

/// The state after a sequence of requests, in order.
pub open spec fn auth_run(s: AuthView, requests: Seq<AuthRequest>) -> AuthView
    decreases requests.len(),
{
    if requests.len() == 0 {
        s
    } else {
        auth_step(auth_run(s, requests.drop_last()), requests.last())
    }
}

proof fn lemma_auth_run_take_step(s: AuthView, requests: Seq<AuthRequest>, k: int)
    requires
        0 <= k < requests.len(),
    ensures
        auth_run(s, requests.take(k + 1)) == auth_step(auth_run(s, requests.take(k)), requests[k]),
{
    assert(requests.take(k + 1).drop_last() =~= requests.take(k));
}

proof fn lemma_used_nonces_grow_along_run(s: AuthView, requests: Seq<AuthRequest>, i: int, k: int)
    requires
        0 <= i <= k <= requests.len(),
    ensures
        auth_run(s, requests.take(i)).used_nonces.subset_of(auth_run(s, requests.take(k)).used_nonces),
    decreases k - i,
{
    if i < k {
        lemma_used_nonces_grow_along_run(s, requests, i, k - 1);
        lemma_auth_run_take_step(s, requests, k - 1);
    }
}

/// Over any sequence of requests to one contract, each nonce is accepted at
/// most once: once a request succeeds, no later request with the same nonce
/// succeeds, and every later request for this contract whose challenge carries
/// that nonce is refused with `ReplayedNonce`, whatever its further bytes,
/// signature, key and ledger.
pub proof fn lemma_each_nonce_accepted_once(
    s: AuthView,
    requests: Seq<AuthRequest>,
    i: int,
    j: int,
)
    requires
        0 <= i < j < requests.len(),
        request_outcome(auth_run(s, requests.take(i)), requests[i]) is Ok,
    ensures
        request_outcome(auth_run(s, requests.take(j)), requests[j]) is Ok ==> challenge_nonce(
            requests[i].challenge,
        ) != challenge_nonce(requests[j].challenge),
        ({
            let later = requests[j];
            later.challenge.len() >= MIN_CHALLENGE_LEN && later.challenge.subrange(0, 32)
                == later.contract_id && challenge_nonce(later.challenge) == challenge_nonce(
                requests[i].challenge,
            )
        }) ==> request_outcome(auth_run(s, requests.take(j)), requests[j]) == Err::<
            AuthView,
            AuthError,
        >(AuthError::ReplayedNonce),
{
    lemma_auth_run_take_step(s, requests, i);
    lemma_used_nonces_grow_along_run(s, requests, i + 1, j);
    let n = challenge_nonce(requests[i].challenge);
    assert(auth_run(s, requests.take(i + 1)).used_nonces.contains(n));
    assert(auth_run(s, requests.take(j)).used_nonces.contains(n));
}

/// A request whose challenge has at least 40 bytes, starts with this contract's
/// id, and carries an unused nonce in bytes 32 up to 40, with an accepted
/// 64-byte signature, is granted whatever bytes follow the nonce: the nonce
/// becomes used and the token SHA-256(public key || sequence (big-endian) ||
/// challenge) is stored with expiry `timestamp + 3600`.
pub proof fn lemma_well_formed_request_is_granted(
    s: AuthView,
    contract_id: Seq<u8>,
    timestamp: u64,
    sequence: u32,
    challenge: Seq<u8>,
    signature: Seq<u8>,
    public_key: Seq<u8>,
)
    requires
        challenge.len() >= 40,
        challenge.subrange(0, 32) == contract_id,
        !s.used_nonces.contains(challenge.subrange(32, 40)),
        signature.len() == 64,
        timestamp <= u64::MAX - 3600,
    ensures
        authenticate_outcome(
            s,
            contract_id,
            timestamp,
            sequence,
            challenge,
            signature,
            public_key,
            true,
        ) == Ok::<AuthView, AuthError>(
            AuthView {
                used_nonces: s.used_nonces.insert(challenge.subrange(32, 40)),
                tokens: s.tokens.insert(
                    sha256_digest(
                        public_key + seq![
                            (sequence >> 24u32) as u8,
                            (sequence >> 16u32) as u8,
                            (sequence >> 8u32) as u8,
                            sequence as u8,
                        ] + challenge,
                    ),
                    (timestamp + 3600) as u64,
                ),
            },
        ),
{
}

/// A request is refused as a replay only when the exact 8-byte nonce it
/// carries, bytes 32 up to 40 of its challenge, was used before.
pub proof fn lemma_replay_only_on_used_nonce(
    s: AuthView,
    contract_id: Seq<u8>,
    timestamp: u64,
    sequence: u32,
    challenge: Seq<u8>,
    signature: Seq<u8>,
    public_key: Seq<u8>,
    signature_accepted: bool,
)
    ensures
        authenticate_outcome(
            s,
            contract_id,
            timestamp,
            sequence,
            challenge,
            signature,
            public_key,
            signature_accepted,
        ) == Err::<AuthView, AuthError>(AuthError::ReplayedNonce) ==> challenge.len() >= 40
            && s.used_nonces.contains(challenge.subrange(32, 40)),
{
}

} // verus!
