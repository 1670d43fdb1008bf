//! The token factory: deploys, for each asset, a claim topics registry, a
//! trusted issuers registry, an identity registry, a compliance contract and
//! the token itself, one after the other, each on the previous one's reply;
//! then records the deployment.
pub mod state;
pub mod deploy;
