//! What a compliance module answers and is told.
use vstd::prelude::*;

verus! {

/// Questions a compliance module answers.
#[derive(Debug, PartialEq)]
pub enum ModuleQueryMsg {
    /// Whether moving `amount` from `from` to `to` is allowed.
    CanTransfer { from: String, to: String, amount: u128 },
    /// The module's description.
    ModuleInfo,
}

/// A module's answer to `CanTransfer`.
#[derive(Debug, PartialEq)]
pub struct ModuleCanTransferResponse {
    pub allowed: bool,
    pub reason: Option<String>,
}

/// A module's description.
#[derive(Debug, PartialEq)]
pub struct ModuleInfoResponse {
    pub name: String,
    pub description: Option<String>,
    pub version: String,
}

/// What a module is told after tokens moved.
#[derive(Debug, PartialEq)]
pub enum ModuleExecuteMsg {
    Transferred { from: String, to: String, amount: u128 },
    Created { to: String, amount: u128 },
    Destroyed { from: String, amount: u128 },
}

} // verus!
