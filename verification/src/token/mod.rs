//! The permissioned security token (CW-3643).
pub mod types;
pub mod state;
pub mod checks;
pub mod auth;
pub mod admin;
pub mod moves;
pub mod moves2;
pub mod rwa;
pub mod gov;
pub mod wallet;
pub mod queries;
pub mod kyc;
pub mod interfaces;
pub mod laws;
