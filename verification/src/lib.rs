//! Verified core of a permissioned (ERC-3643 / T-REX style) security-token
//! suite: the token itself, its compliance contract, the identity registry and
//! its storage, on-chain identities with claims, the claim-topic and
//! trusted-issuer registries, and the factory that deploys a token suite.
use vstd::prelude::*;

pub mod key_order;
pub mod addr_map;
pub mod id_map;
pub mod common;
pub mod pair_map;
pub mod token;
pub mod identity_registry;
pub mod identity_registry_storage;
pub mod onchainid;
pub mod claim_topics_registry;
pub mod trusted_issuers_registry;
pub mod compliance;
pub mod factory;

verus! {
} // verus!
