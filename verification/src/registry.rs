//! The proof registry: an authorised verifier contract stores a record of each
//! verified proof under a fresh sequential id, and anyone reads the records
//! back by id or by user.

use vstd::prelude::*;

use crate::address::Address;
use crate::error::ConversionError;
use crate::keyed::{
    has_key, inserted_map, keyed_map, keys_distinct, lemma_inserted_map_prefix, lemma_keyed_map_at,
    lemma_keyed_map_empty, lemma_keyed_map_push, lemma_keyed_map_update,
};

verus! {

/// The keys under which the contract keeps its state.
#[derive(Clone, Copy, Debug, PartialEq, Eq, Structural)]
pub enum DataKey {
    /// The proof records by id.
    Proofs,
    /// The proof ids of each user.
    UserProofs,
    /// The id of the next proof.
    NextProofId,
    /// The verifier contract that may store proofs.
    VerifierContract,
}

/// What is recorded of a verified proof.
#[derive(Clone, Copy, Debug)]
pub struct ProofDetails {
    pub user: Address,
    pub proof_type: u32,
    pub commitment_hash: [u8; 32],
    pub timestamp: u64,
    pub valid: bool,
}

/// Why a registry request is refused.
#[derive(Clone, Copy, Debug, PartialEq, Eq, Structural)]
pub enum RegistryError {
    NotInitialised,
    AlreadyInitialised,
    NotFound,
    Unauthorised,
}

impl RegistryError {
    /// The numeric code of each error.
    pub open spec fn code(self) -> u32 {
        match self {
            RegistryError::NotInitialised => 1,
            RegistryError::AlreadyInitialised => 2,
            RegistryError::NotFound => 3,
            RegistryError::Unauthorised => 4,
        }
    }

    /// The numeric code of this error.
    pub fn into_val(&self) -> (code: u32)
        ensures
            code == self.code(),
    {
        match self {
            RegistryError::NotInitialised => 1,
            RegistryError::AlreadyInitialised => 2,
            RegistryError::NotFound => 3,
            RegistryError::Unauthorised => 4,
        }
    }

    /// The error with the numeric code `code`, if there is one.
    pub fn try_from_val(code: u32) -> (decoded: Result<RegistryError, ConversionError>)
        ensures
            decoded matches Ok(e) ==> e.code() == code,
            decoded is Err <==> !(1 <= code <= 4),
    {
        match code {
            1 => Ok(RegistryError::NotInitialised),
            2 => Ok(RegistryError::AlreadyInitialised),
            3 => Ok(RegistryError::NotFound),
            4 => Ok(RegistryError::Unauthorised),
            _ => Err(ConversionError),
        }
    }
}

/// The event published when a proof is stored: its id, user, type, commitment
/// hash and validity.
#[derive(Clone, Copy, Debug)]
pub enum ProofRegistryEvent {
    ProofStored(u64, Address, u32, [u8; 32], bool),
}

/// The abstract state of the registry.
pub struct RegistryView {
    /// The verifier contract, once the registry is initialised.
    pub verifier_contract: Option<Address>,
    /// The id that the next stored proof receives.
    pub next_proof_id: u64,
    /// The proof records by id.
    pub proofs: Map<u64, ProofDetails>,
    /// The ids of each user's proofs, in the order stored.
    pub user_proofs: Map<Address, Seq<u64>>,
}

/// The per-user entries, with each id list read as a sequence.
pub open spec fn user_entries(entries: Seq<(Address, Vec<u64>)>) -> Seq<(Address, Seq<u64>)> {
    entries.map_values(|e: (Address, Vec<u64>)| (e.0, e.1@))
}

/// The state of the registry contract.
pub struct Registry {
    verifier_contract: Option<Address>,
    next_proof_id: u64,
    proofs: Vec<(u64, ProofDetails)>,
    user_proofs: Vec<(Address, Vec<u64>)>,
}

impl View for Registry {
    type V = RegistryView;

    closed spec fn view(&self) -> RegistryView {
        RegistryView {
            verifier_contract: self.verifier_contract,
            next_proof_id: self.next_proof_id,
            proofs: keyed_map(self.proofs@),
            user_proofs: keyed_map(user_entries(self.user_proofs@)),
        }
    }
}

// ── The decisions, stated over the abstract state ───────────────────────────

/// The proof ids of `user`; none if the user has stored no proof.
pub open spec fn user_ids(s: RegistryView, user: Address) -> Seq<u64> {
    if s.user_proofs.contains_key(user) {
        s.user_proofs[user]
    } else {
        Seq::empty()
    }
}

/// The state after initialising with `verifier`, or the error that refuses it.
pub open spec fn initialize_outcome(s: RegistryView, verifier: Address) -> Result<
    RegistryView,
    RegistryError,
> {
    if s.verifier_contract is Some {
        Err(RegistryError::AlreadyInitialised)
    } else {
        Ok(RegistryView { verifier_contract: Some(verifier), next_proof_id: 1, ..s })
    }
}

/// The state after the invoker `invoker` stores a proof, or the error that
/// refuses it. Only the registered verifier contract may store; a registry with
/// no verifier contract authorises no invoker.
pub open spec fn store_outcome(
    s: RegistryView,
    invoker: Address,
    details: ProofDetails,
) -> Result<RegistryView, RegistryError> {
    if s.verifier_contract != Some(invoker) {
        Err(RegistryError::Unauthorised)
    } else {
        let id = s.next_proof_id;
        Ok(
            RegistryView {
                verifier_contract: s.verifier_contract,
                next_proof_id: (id + 1) as u64,
                proofs: s.proofs.insert(id, details),
                user_proofs: s.user_proofs.insert(details.user, user_ids(s, details.user).push(id)),
            },
        )
    }
}

/// A registry state that its operations keep: ids are handed out from 1 on, so
/// exactly the ids from 1 below the next id are stored; each user's id list
/// names, in increasing order, proofs recorded for that user; every stored
/// proof is named in its user's list, so it lies in exactly one list; and an
/// uninitialised registry holds nothing.
pub open spec fn registry_consistent(s: RegistryView) -> bool {
    &&& 1 <= s.next_proof_id
    &&& forall|id: u64| #[trigger] s.proofs.contains_key(id) <==> 1 <= id < s.next_proof_id
    &&& forall|u: Address, i: int|
        #![trigger s.user_proofs[u][i]]
        s.user_proofs.contains_key(u) && 0 <= i < s.user_proofs[u].len() ==> s.proofs.contains_key(
            s.user_proofs[u][i],
        ) && s.proofs[s.user_proofs[u][i]].user == u
    &&& forall|u: Address, i: int, j: int|
        #![trigger s.user_proofs[u][i], s.user_proofs[u][j]]
        s.user_proofs.contains_key(u) && 0 <= i < j < s.user_proofs[u].len()
            ==> s.user_proofs[u][i] < s.user_proofs[u][j]
    &&& forall|id: u64|
        #![trigger s.proofs[id]]
        s.proofs.contains_key(id) ==> s.user_proofs.contains_key(s.proofs[id].user)
            && s.user_proofs[s.proofs[id].user].contains(id)
    &&& s.verifier_contract is None ==> s.next_proof_id == 1 && s.user_proofs.is_empty()
}

// ── Executable contract ─────────────────────────────────────────────────────

fn copy_ids(ids: &Vec<u64>) -> (copy: Vec<u64>)
    ensures
        copy@ == ids@,
{
    let mut copy: Vec<u64> = Vec::new();
    let mut i: usize = 0;
    while i < ids.len()
        invariant
            i <= ids@.len(),
            copy@ == ids@.subrange(0, i as int),
        decreases ids@.len() - i,
    {
        copy.push(ids[i]);
        i = i + 1;
        assert(copy@ =~= ids@.subrange(0, i as int));
    }
    assert(ids@.subrange(0, ids@.len() as int) =~= ids@);
    copy
}

impl Registry {
    #[verifier::type_invariant]
    spec fn inv(self) -> bool {
        &&& keys_distinct(self.proofs@)
        &&& keys_distinct(user_entries(self.user_proofs@))
    }

    /// An uninitialised registry with no proof.
    pub fn new() -> (r: Registry)
        ensures
            r@.verifier_contract is None,
            r@.next_proof_id == 1,
            r@.proofs == Map::<u64, ProofDetails>::empty(),
            r@.user_proofs == Map::<Address, Seq<u64>>::empty(),
            registry_consistent(r@),
    {
        let r = Registry {
            verifier_contract: None,
            next_proof_id: 1,
            proofs: Vec::new(),
            user_proofs: Vec::new(),
        };
        proof {
            lemma_keyed_map_empty(r.proofs@);
            lemma_keyed_map_empty(user_entries(r.user_proofs@));
        }
        r
    }

    /// The verifier contract, once the registry is initialised.
    pub fn verifier_contract(&self) -> (v: Option<Address>)
        ensures
            v == self@.verifier_contract,
    {
        self.verifier_contract
    }

    /// The id that the next stored proof receives.
    pub fn next_proof_id(&self) -> (id: u64)
        ensures
            id == self@.next_proof_id,
    {
        self.next_proof_id
    }

    /// The proof records, each id once.
    pub fn proof_records(&self) -> (records: &Vec<(u64, ProofDetails)>)
        ensures
            keyed_map(records@) == self@.proofs,
            keys_distinct(records@),
    {
        proof {
            use_type_invariant(self);
        }
        &self.proofs
    }

    /// The per-user id lists, each user once.
    pub fn user_proof_records(&self) -> (records: &Vec<(Address, Vec<u64>)>)
        ensures
            keyed_map(user_entries(records@)) == self@.user_proofs,
            keys_distinct(user_entries(records@)),
    {
        proof {
            use_type_invariant(self);
        }
        &self.user_proofs
    }

    /// The index of the record with id `id`, if any.
    fn find_proof(&self, id: u64) -> (found: Option<usize>)
        ensures
            found matches Some(i) ==> i < self.proofs@.len() && self.proofs@[i as int].0 == id,
            found is None ==> !has_key(self.proofs@, id),
    {
        let mut i: usize = 0;
        while i < self.proofs.len()
            invariant
                i <= self.proofs@.len(),
                forall|j: int| 0 <= j < i ==> #[trigger] self.proofs@[j].0 != id,
            decreases self.proofs@.len() - i,
        {
            if self.proofs[i].0 == id {
                return Some(i);
            }
            i = i + 1;
        }
        None
    }

    /// The index of the entry of `user`, if any.
    fn find_user(&self, user: &Address) -> (found: Option<usize>)
        ensures
            found matches Some(i) ==> i < self.user_proofs@.len() && self.user_proofs@[i as int].0
                == *user,
            found is None ==> !has_key(user_entries(self.user_proofs@), *user),
    {
        let mut i: usize = 0;
        while i < self.user_proofs.len()
            invariant
                i <= self.user_proofs@.len(),
                forall|j: int| 0 <= j < i ==> #[trigger] self.user_proofs@[j].0 != *user,
            decreases self.user_proofs@.len() - i,
        {
            if self.user_proofs[i].0.same(user) {
                return Some(i);
            }
            i = i + 1;
        }
        proof {
            let es = user_entries(self.user_proofs@);
            if has_key(es, *user) {
                let j = choose|j: int| 0 <= j < es.len() && #[trigger] es[j].0 == *user;
                assert(self.user_proofs@[j].0 == es[j].0);
            }
        }
        None
    }

    /// Records `details` under `id`, replacing any record with that id.
    fn set_proof(&mut self, id: u64, details: ProofDetails)
        ensures
            final(self)@ == (RegistryView {
                proofs: old(self)@.proofs.insert(id, details),
                ..old(self)@
            }),
    {
        proof {
            use_type_invariant(&*self);
        }
        let found = self.find_proof(id);
        let mut records: Vec<(u64, ProofDetails)> = Vec::new();
        std::mem::swap(&mut records, &mut self.proofs);
        let ghost before = records@;
        match found {
            Some(i) => {
                records[i] = (id, details);
                proof {
                    lemma_keyed_map_update(before, i as int, details);
                    assert(before.update(i as int, (before[i as int].0, details)) == records@);
                }
            },
            None => {
                records.push((id, details));
                proof {
                    lemma_keyed_map_push(before, id, details);
                }
            },
        }
        self.proofs = records;
    }

    /// Appends `id` to the id list of `user`, creating the list if needed.
    fn append_user_proof(&mut self, user: Address, id: u64)
        ensures
            final(self)@ == (RegistryView {
                user_proofs: old(self)@.user_proofs.insert(user, user_ids(old(self)@, user).push(id)),
                ..old(self)@
            }),
    {
        proof {
            use_type_invariant(&*self);
        }
        let found = self.find_user(&user);
        let mut entries: Vec<(Address, Vec<u64>)> = Vec::new();
        std::mem::swap(&mut entries, &mut self.user_proofs);
        let ghost before = user_entries(entries@);
        match found {
            Some(i) => {
                let mut ids = copy_ids(&entries[i].1);
                ids.push(id);
                proof {
                    lemma_keyed_map_at(before, i as int);
                    lemma_keyed_map_update(before, i as int, ids@);
                }
                entries[i] = (user, ids);
                assert(user_entries(entries@) =~= before.update(i as int, (before[i as int].0, ids@)));
            },
            None => {
                let mut ids: Vec<u64> = Vec::new();
                ids.push(id);
                entries.push((user, ids));
                proof {
                    lemma_keyed_map_push(before, user, ids@);
                    assert(user_entries(entries@) =~= before.push((user, ids@)));
                    assert(ids@ =~= Seq::<u64>::empty().push(id));
                }
            },
        }
        self.user_proofs = entries;
    }

    /// A registry holding the given stored state: the verifier contract, the
    /// next proof id (1 when absent), the proof records and the per-user id
    /// lists; where an id or a user occurs more than once, its last entry counts.
    pub fn restore(
        verifier_contract: Option<Address>,
        next_proof_id: Option<u64>,
        proofs: Vec<(u64, ProofDetails)>,
        user_proofs: Vec<(Address, Vec<u64>)>,
    ) -> (r: Registry)
        ensures
            r@.verifier_contract == verifier_contract,
            r@.next_proof_id == (match next_proof_id {
                Some(n) => n,
                None => 1,
            }),
            r@.proofs == inserted_map(proofs@),
            r@.user_proofs == inserted_map(user_entries(user_proofs@)),
    {
        let mut r = Registry::new();
        assert(proofs@.subrange(0, 0) =~= Seq::<(u64, ProofDetails)>::empty());
        let mut i: usize = 0;
        while i < proofs.len()
            invariant
                i <= proofs@.len(),
                r@.verifier_contract is None,
                r@.next_proof_id == 1,
                r@.user_proofs == Map::<Address, Seq<u64>>::empty(),
                r@.proofs == inserted_map(proofs@.subrange(0, i as int)),
            decreases proofs@.len() - i,
        {
            let (id, details) = proofs[i];
            r.set_proof(id, details);
            proof {
                lemma_inserted_map_prefix(proofs@, i as int);
            }
            i = i + 1;
        }
        assert(proofs@.subrange(0, proofs@.len() as int) =~= proofs@);
        assert(user_entries(user_proofs@).subrange(0, 0) =~= Seq::<(Address, Seq<u64>)>::empty());
        let mut k: usize = 0;
        while k < user_proofs.len()
            invariant
                k <= user_proofs@.len(),
                r@.verifier_contract is None,
                r@.next_proof_id == 1,
                r@.proofs == inserted_map(proofs@),
                r@.user_proofs == inserted_map(user_entries(user_proofs@).subrange(0, k as int)),
            decreases user_proofs@.len() - k,
        {
            let user = user_proofs[k].0;
            let ids = copy_ids(&user_proofs[k].1);
            r.set_user_ids(user, ids);
            proof {
                lemma_inserted_map_prefix(user_entries(user_proofs@), k as int);
            }
            k = k + 1;
        }
        assert(user_entries(user_proofs@).subrange(0, user_proofs@.len() as int) =~= user_entries(
            user_proofs@,
        ));
        proof {
            use_type_invariant(&r);
        }
        r.verifier_contract = verifier_contract;
        r.next_proof_id = match next_proof_id {
            Some(n) => n,
            None => 1,
        };
        r
    }

    /// Sets the id list of `user` to `ids`.
    fn set_user_ids(&mut self, user: Address, ids: Vec<u64>)
        ensures
            final(self)@ == (RegistryView {
                user_proofs: old(self)@.user_proofs.insert(user, ids@),
                ..old(self)@
            }),
    {
        proof {
            use_type_invariant(&*self);
        }
        let found = self.find_user(&user);
        let mut entries: Vec<(Address, Vec<u64>)> = Vec::new();
        std::mem::swap(&mut entries, &mut self.user_proofs);
        let ghost before = user_entries(entries@);
        let ghost ids_view = ids@;
        match found {
            Some(i) => {
                proof {
                    lemma_keyed_map_update(before, i as int, ids_view);
                }
                entries[i] = (user, ids);
                assert(user_entries(entries@) =~= before.update(i as int, (before[i as int].0, ids_view)));
            },
            None => {
                entries.push((user, ids));
                proof {
                    lemma_keyed_map_push(before, user, ids_view);
                    assert(user_entries(entries@) =~= before.push((user, ids_view)));
                }
            },
        }
        self.user_proofs = entries;
    }

    /// Registers the verifier contract that may store proofs, and starts the
    /// proof ids at 1. Refused with `AlreadyInitialised` once a verifier is set.
    pub fn initialize(&mut self, verifier_contract: Address) -> (done: Result<(), RegistryError>)
        ensures
            done matches Ok(_) ==> initialize_outcome(old(self)@, verifier_contract) == Ok::<
                RegistryView,
                RegistryError,
            >(final(self)@),
            done matches Err(e) ==> initialize_outcome(old(self)@, verifier_contract) == Err::<
                RegistryView,
                RegistryError,
            >(e) && final(self)@ == old(self)@,
    {
        if self.verifier_contract.is_some() {
            return Err(RegistryError::AlreadyInitialised);
        }
        proof {
            use_type_invariant(&*self);
        }
        self.verifier_contract = Some(verifier_contract);
        self.next_proof_id = 1;
        Ok(())
    }

    /// Stores a record of a verified proof under the next proof id, appends the
    /// id to the user's list, and returns the id. Only the registered verifier
    /// contract may store: any other invoker, or any invoker while no verifier
    /// is registered, is refused with `Unauthorised`.
    pub fn store_proof(
        &mut self,
        invoker: &Address,
        user: Address,
        proof_type: u32,
        commitment_hash: [u8; 32],
        proof_valid: bool,
        ledger_timestamp: u64,
    ) -> (stored: Result<u64, RegistryError>)
        requires
            old(self)@.verifier_contract == Some(*invoker) ==> old(self)@.next_proof_id < u64::MAX,
        ensures
            ({
                let details = ProofDetails {
                    user,
                    proof_type,
                    commitment_hash,
                    timestamp: ledger_timestamp,
                    valid: proof_valid,
                };
                &&& stored matches Ok(id) ==> id == old(self)@.next_proof_id && store_outcome(
                    old(self)@,
                    *invoker,
                    details,
                ) == Ok::<RegistryView, RegistryError>(final(self)@)
                &&& stored matches Err(e) ==> store_outcome(old(self)@, *invoker, details) == Err::<
                    RegistryView,
                    RegistryError,
                >(e) && final(self)@ == old(self)@
            }),
    {
        let verifier = match self.verifier_contract {
            Some(v) => v,
            None => return Err(RegistryError::Unauthorised),
        };
        if !invoker.same(&verifier) {
            return Err(RegistryError::Unauthorised);
        }
        let proof_id = self.next_proof_id;
        let details = ProofDetails {
            user,
            proof_type,
            commitment_hash,
            timestamp: ledger_timestamp,
            valid: proof_valid,
        };
        self.set_proof(proof_id, details);
        self.append_user_proof(user, proof_id);
        proof {
            use_type_invariant(&*self);
        }
        self.next_proof_id = proof_id + 1;
        Ok(proof_id)
    }

    /// The record of the proof with id `proof_id`; `NotFound` if there is none.
    pub fn get_proof(&self, proof_id: u64) -> (found: Result<ProofDetails, RegistryError>)
        ensures
            found is Ok <==> self@.proofs.contains_key(proof_id),
            found matches Ok(d) ==> d == self@.proofs[proof_id],
            found matches Err(e) ==> e == RegistryError::NotFound,
    {
        proof {
            use_type_invariant(self);
        }
        match self.find_proof(proof_id) {
            Some(i) => {
                proof {
                    lemma_keyed_map_at(self.proofs@, i as int);
                }
                Ok(self.proofs[i].1)
            },
            None => Err(RegistryError::NotFound),
        }
    }

    /// The ids of the proofs stored for `user`, in the order stored.
    pub fn get_user_proofs(&self, user: &Address) -> (ids: Vec<u64>)
        ensures
            ids@ == user_ids(self@, *user),
    {
        proof {
            use_type_invariant(self);
        }
        match self.find_user(user) {
            Some(i) => {
                proof {
                    lemma_keyed_map_at(user_entries(self.user_proofs@), i as int);
                }
                copy_ids(&self.user_proofs[i].1)
            },
            None => Vec::new(),
        }
    }

    /// Whether a proof with id `proof_id` is stored.
    pub fn has_proof(&self, proof_id: u64) -> (stored: bool)
        ensures
            stored == self@.proofs.contains_key(proof_id),
    {
        proof {
            use_type_invariant(self);
        }
        match self.find_proof(proof_id) {
            Some(i) => {
                proof {
                    lemma_keyed_map_at(self.proofs@, i as int);
                }
                true
            },
            None => false,
        }
    }
}

// ── Laws ────────────────────────────────────────────────────────────────────

/// Each error has its own numeric code, between 1 and 4.
pub proof fn lemma_registry_error_codes(e1: RegistryError, e2: RegistryError)
    ensures
        1 <= e1.code() <= 4,
        e1.code() == e2.code() ==> e1 == e2,
{
}

/// A registry is initialised at most once: after a successful `initialize`
/// every further one is refused with `AlreadyInitialised`, and the first proof
/// stored afterwards receives id 1.
pub proof fn lemma_initialize_once(s: RegistryView, verifier: Address, other: Address)
    requires
        initialize_outcome(s, verifier) is Ok,
    ensures
        initialize_outcome(initialize_outcome(s, verifier)->Ok_0, other) == Err::<
            RegistryView,
            RegistryError,
        >(RegistryError::AlreadyInitialised),
        initialize_outcome(s, verifier)->Ok_0.next_proof_id == 1,
        initialize_outcome(s, verifier)->Ok_0.verifier_contract == Some(verifier),
{
}

/// Only the registered verifier contract stores proofs: any other invoker, and
/// every invoker of an uninitialised registry, is refused with `Unauthorised`.
pub proof fn lemma_only_verifier_stores(s: RegistryView, invoker: Address, details: ProofDetails)
    requires
        s.verifier_contract != Some(invoker),
    ensures
        store_outcome(s, invoker, details) == Err::<RegistryView, RegistryError>(
            RegistryError::Unauthorised,
        ),
{
}

/// A stored proof reads back: after a successful store, the new id names the
/// record just stored, the user's id list ends with it, and the next id is one
/// higher.
pub proof fn lemma_store_then_read(s: RegistryView, invoker: Address, details: ProofDetails)
    requires
        store_outcome(s, invoker, details) is Ok,
        s.next_proof_id < u64::MAX,
    ensures
        ({
            let post = store_outcome(s, invoker, details)->Ok_0;
            let id = s.next_proof_id;
            &&& post.proofs.contains_key(id)
            &&& post.proofs[id] == details
            &&& user_ids(post, details.user) == user_ids(s, details.user).push(id)
            &&& post.next_proof_id == id + 1
        }),
{
}

/// In a consistent registry, storing a proof overwrites nothing: every record
/// stored before keeps its id and contents, and every other user's id list is
/// unchanged.
pub proof fn lemma_store_keeps_records(
    s: RegistryView,
    invoker: Address,
    details: ProofDetails,
    id: u64,
    other_user: Address,
)
    requires
        registry_consistent(s),
        store_outcome(s, invoker, details) is Ok,
        s.proofs.contains_key(id),
        other_user != details.user,
    ensures
        store_outcome(s, invoker, details)->Ok_0.proofs.contains_key(id),
        store_outcome(s, invoker, details)->Ok_0.proofs[id] == s.proofs[id],
        user_ids(store_outcome(s, invoker, details)->Ok_0, other_user) == user_ids(s, other_user),
{
    assert(id < s.next_proof_id);
}

/// The registry's operations keep it consistent: a new registry is consistent,
/// and so is every state reached from a consistent one by `initialize` or
/// `store_proof`.
pub proof fn lemma_operations_keep_consistency(
    s: RegistryView,
    verifier: Address,
    invoker: Address,
    details: ProofDetails,
)
    requires
        registry_consistent(s),
        s.next_proof_id < u64::MAX,
    ensures
        initialize_outcome(s, verifier) matches Ok(post) ==> registry_consistent(post),
        store_outcome(s, invoker, details) matches Ok(post) ==> registry_consistent(post),
{
    if let Ok(post) = initialize_outcome(s, verifier) {
        assert(s.proofs =~= Map::<u64, ProofDetails>::empty()) by {
            assert forall|x: u64| !s.proofs.contains_key(x) by {
                if s.proofs.contains_key(x) {
                    assert(1 <= x < s.next_proof_id);
                }
            }
        }
        assert(s.user_proofs =~= Map::<Address, Seq<u64>>::empty());
        assert(post.proofs == s.proofs);
    }
    if let Ok(post) = store_outcome(s, invoker, details) {
        let id = s.next_proof_id;
        let u0 = details.user;
        let old_ids = user_ids(s, u0);
        assert(!s.proofs.contains_key(id));
        assert(post.user_proofs[u0] == old_ids.push(id));
        assert forall|x: u64| #[trigger] post.proofs.contains_key(x) <==> 1 <= x
            < post.next_proof_id by {
            if x != id {
                assert(post.proofs.contains_key(x) == s.proofs.contains_key(x));
            }
        }
        assert forall|u: Address, i: int|
            post.user_proofs.contains_key(u) && 0 <= i < post.user_proofs[u].len() implies post.proofs.contains_key(
            #[trigger] post.user_proofs[u][i],
        ) && post.proofs[post.user_proofs[u][i]].user == u by {
            if u == u0 {
                if i < old_ids.len() {
                    assert(s.user_proofs.contains_key(u0));
                    assert(old_ids[i] == s.user_proofs[u0][i]);
                    assert(s.proofs.contains_key(old_ids[i]));
                    assert(old_ids[i] < id);
                }
            } else {
                assert(s.user_proofs[u][i] == post.user_proofs[u][i]);
                assert(s.proofs.contains_key(s.user_proofs[u][i]));
                assert(s.user_proofs[u][i] < id);
            }
        }
        assert forall|u: Address, i: int, j: int|
            post.user_proofs.contains_key(u) && 0 <= i < j < post.user_proofs[u].len() implies #[trigger] post.user_proofs[u][i]
            < #[trigger] post.user_proofs[u][j] by {
            if u == u0 {
                if j < old_ids.len() {
                    assert(old_ids[i] == s.user_proofs[u0][i]);
                    assert(old_ids[j] == s.user_proofs[u0][j]);
                } else {
                    assert(s.user_proofs.contains_key(u0));
                    assert(old_ids[i] == s.user_proofs[u0][i]);
                    assert(s.proofs.contains_key(old_ids[i]));
                }
            } else {
                assert(s.user_proofs[u][i] == post.user_proofs[u][i]);
                assert(s.user_proofs[u][j] == post.user_proofs[u][j]);
            }
        }
        assert forall|x: u64| #[trigger] post.proofs.contains_key(x) implies post.user_proofs.contains_key(
            post.proofs[x].user,
        ) && post.user_proofs[post.proofs[x].user].contains(x) by {
            if x == id {
                assert(post.proofs[x].user == u0);
                assert(post.user_proofs[u0][old_ids.len() as int] == id);
            } else {
                assert(s.proofs.contains_key(x));
                assert(post.proofs[x] == s.proofs[x]);
                let u = s.proofs[x].user;
                assert(s.user_proofs.contains_key(u) && s.user_proofs[u].contains(x));
                let k = choose|k: int| 0 <= k < s.user_proofs[u].len() && s.user_proofs[u][k] == x;
                if u == u0 {
                    assert(old_ids == s.user_proofs[u0]);
                    assert(post.user_proofs[u0][k] == x);
                } else {
                    assert(post.user_proofs[u] == s.user_proofs[u]);
                    assert(post.user_proofs[u][k] == x);
                }
            }
        }
    }
}

/// In a consistent registry, a stored proof is named in exactly one user's id
/// list: the list of the user it was recorded for.
pub proof fn lemma_proof_in_one_list(s: RegistryView, id: u64, u: Address)
    requires
        registry_consistent(s),
        s.proofs.contains_key(id),
    ensures
        s.user_proofs.contains_key(s.proofs[id].user) && s.user_proofs[s.proofs[id].user].contains(
            id,
        ),
        s.user_proofs.contains_key(u) && s.user_proofs[u].contains(id) ==> u == s.proofs[id].user,
{
    if s.user_proofs.contains_key(u) && s.user_proofs[u].contains(id) {
        let k = choose|k: int| 0 <= k < s.user_proofs[u].len() && s.user_proofs[u][k] == id;
        assert(s.proofs[s.user_proofs[u][k]].user == u);
    }
}

/// A call made to the registry.
pub enum RegistryCall {
    /// `initialize` with the given verifier contract.
    Initialize(Address),
    /// `store_proof` by the given invoker, recording the given details.
    Store(Address, ProofDetails),
}

/// The state after one call; a refused call leaves the state as it was.
pub open spec fn registry_step(s: RegistryView, call: RegistryCall) -> RegistryView {
    match call {
        RegistryCall::Initialize(v) => match initialize_outcome(s, v) {
            Ok(post) => post,
            Err(_) => s,
        },
        RegistryCall::Store(invoker, details) => match store_outcome(s, invoker, details) {
            Ok(post) => post,
            Err(_) => s,
        },
    }
}

/// The state after a sequence of calls, in order.
pub open spec fn registry_run(s: RegistryView, calls: Seq<RegistryCall>) -> RegistryView
    decreases calls.len(),
{
    if calls.len() == 0 {
        s
    } else {
        registry_step(registry_run(s, calls.drop_last()), calls.last())
    }
}

/// The state of a new registry.
pub open spec fn fresh_registry() -> RegistryView {
    RegistryView {
        verifier_contract: None,
        next_proof_id: 1,
        proofs: Map::empty(),
        user_proofs: Map::empty(),
    }
}

proof fn lemma_run_take_step(s: RegistryView, calls: Seq<RegistryCall>, k: int)
    requires
        0 <= k < calls.len(),
    ensures
        registry_run(s, calls.take(k + 1)) == registry_step(registry_run(s, calls.take(k)), calls[k]),
{
    assert(calls.take(k + 1).drop_last() =~= calls.take(k));
}

/// Every registry reached from a new one by any sequence of `initialize` and
/// `store_proof` calls is consistent: exactly the ids from 1 below the next id
/// are stored, each user's list holds, in increasing order, exactly the ids of
/// that user's proofs, and every stored id lies in exactly one list. The next
/// id grows by at most one per call.
pub proof fn lemma_reachable_consistent(calls: Seq<RegistryCall>)
    requires
        calls.len() < u64::MAX - 1,
    ensures
        registry_consistent(registry_run(fresh_registry(), calls)),
        registry_run(fresh_registry(), calls).next_proof_id <= 1 + calls.len(),
    decreases calls.len(),
{
    if calls.len() == 0 {
        let s = fresh_registry();
        assert forall|id: u64| #[trigger] s.proofs.contains_key(id) <==> 1 <= id < s.next_proof_id by {
        }
    } else {
        let pre = calls.drop_last();
        lemma_reachable_consistent(pre);
        let s = registry_run(fresh_registry(), pre);
        match calls.last() {
            RegistryCall::Initialize(v) => {
                lemma_operations_keep_consistency(s, v, v, vstd::pervasive::arbitrary());
            },
            RegistryCall::Store(invoker, details) => {
                lemma_operations_keep_consistency(s, invoker, invoker, details);
            },
        }
    }
}

/// A stored record stays as stored: if a call in a sequence made from a new
/// registry stores a proof, then after every later prefix of the sequence the
/// proof's id still names exactly the details stored, whatever calls follow.
pub proof fn lemma_stored_record_persists(
    calls: Seq<RegistryCall>,
    i: int,
    invoker: Address,
    details: ProofDetails,
    k: int,
)
    requires
        calls.len() < u64::MAX - 1,
        0 <= i < k <= calls.len(),
        calls[i] == RegistryCall::Store(invoker, details),
        store_outcome(registry_run(fresh_registry(), calls.take(i)), invoker, details) is Ok,
    ensures
        ({
            let id = registry_run(fresh_registry(), calls.take(i)).next_proof_id;
            &&& registry_run(fresh_registry(), calls.take(k)).proofs.contains_key(id)
            &&& registry_run(fresh_registry(), calls.take(k)).proofs[id] == details
        }),
    decreases k - i,
{
    let s0 = fresh_registry();
    let id = registry_run(s0, calls.take(i)).next_proof_id;
    if k == i + 1 {
        lemma_run_take_step(s0, calls, i);
        lemma_reachable_consistent(calls.take(i));
        lemma_store_then_read(registry_run(s0, calls.take(i)), invoker, details);
    } else {
        lemma_stored_record_persists(calls, i, invoker, details, k - 1);
        lemma_run_take_step(s0, calls, k - 1);
        lemma_reachable_consistent(calls.take(k - 1));
        let t = registry_run(s0, calls.take(k - 1));
        match calls[k - 1] {
            RegistryCall::Initialize(v) => {
                if t.verifier_contract is None {
                    assert(1 <= id < t.next_proof_id);
                }
            },
            RegistryCall::Store(inv2, d2) => {
                if store_outcome(t, inv2, d2) is Ok {
                    assert(id < t.next_proof_id);
                }
            },
        }
    }
}

/// A store by the registered verifier contract is always accepted, whatever
/// the user already holds: the details are recorded under the next id, the id
/// is appended to the user's list, and the next id grows by one. Any other
/// invoker is refused with `Unauthorised` and nothing changes.
pub proof fn lemma_verifier_store_accepted(s: RegistryView, invoker: Address, details: ProofDetails)
    requires
        s.next_proof_id < u64::MAX,
    ensures
        s.verifier_contract == Some(invoker) ==> store_outcome(s, invoker, details) == Ok::<
            RegistryView,
            RegistryError,
        >(
            RegistryView {
                verifier_contract: s.verifier_contract,
                next_proof_id: (s.next_proof_id + 1) as u64,
                proofs: s.proofs.insert(s.next_proof_id, details),
                user_proofs: s.user_proofs.insert(
                    details.user,
                    (if s.user_proofs.contains_key(details.user) {
                        s.user_proofs[details.user]
                    } else {
                        Seq::empty()
                    }).push(s.next_proof_id),
                ),
            },
        ),
        s.verifier_contract != Some(invoker) ==> store_outcome(s, invoker, details) == Err::<
            RegistryView,
            RegistryError,
        >(RegistryError::Unauthorised),
{
}

} // verus!
