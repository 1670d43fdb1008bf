//! The compliance contract's answers.
use vstd::prelude::*;

verus! {

#[derive(Debug, PartialEq)]
pub struct CanTransferResponse {
    pub allowed: bool,
    pub reason: Option<String>,
}

#[derive(Debug, PartialEq)]
pub struct ConfigResponse {
    pub owner: String,
    pub identity_registry: Option<String>,
    pub allowed_countries: Option<Vec<String>>,
    pub module_count: u32,
}

/// A registered module: its address and name.
#[derive(Debug, PartialEq)]
pub struct ModuleInfo {
    pub address: String,
    pub name: String,
}

#[derive(Debug, PartialEq)]
pub struct ModulesResponse {
    pub modules: Vec<ModuleInfo>,
}

#[derive(Debug, PartialEq)]
pub struct ModuleInfoResponse {
    pub info: Option<ModuleInfo>,
}

/// The (empty) migration message.
#[derive(Debug, PartialEq)]
pub struct MigrateMsg {}

} // verus!
