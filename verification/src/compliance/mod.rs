//! The compliance contract: per-address limits and a country whitelist that
//! a token consults before moving tokens, and the compliance modules it
//! notifies after tokens moved.
pub mod module;
pub mod msg;
pub mod state;
pub mod can_transfer;
