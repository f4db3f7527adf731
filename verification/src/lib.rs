//! Verified core of the ShieldPoint contracts: challenge authentication, proof
//! verification dispatch and the on-chain proof registry, with the byte-level
//! helpers of the crypto module.

pub mod host;
pub mod bytes;
pub mod error;
pub mod auth;
pub mod proof_verifier;
pub mod keyed;
pub mod address;
pub mod registry;
pub mod poseidon;
pub mod bn254;
