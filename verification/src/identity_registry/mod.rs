//! The identity registry: which on-chain identity (and country) stands
//! behind a wallet, and whether the wallet is verified against the claim
//! topics and trusted issuers.
pub mod state;
pub mod verify;
