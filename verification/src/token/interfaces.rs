//! The messages the token exchanges with its identity registry and its
//! compliance contract.
use vstd::prelude::*;
use crate::token::checks::{Query, QueryView};
use crate::token::types::{TokenMsg, TokenMsgView};

verus! {

/// Questions to an identity registry.
#[derive(Debug, PartialEq)]
pub enum IrQueryMsg {
    IsVerified { wallet: String },
    Identity { wallet: String },
}

/// An identity registry's verdict on a wallet.
#[derive(Debug, PartialEq)]
pub struct IsVerifiedResponse {
    pub verified: bool,
    pub reason: Option<String>,
}

/// The question to a compliance contract (or rule plugin).
#[derive(Debug, PartialEq)]
pub enum ComplianceQueryMsg {
    CanTransfer { token: String, from: String, to: String, amount: u128 },
}

/// A compliance contract's verdict on a transfer.
#[derive(Debug, PartialEq)]
pub struct CanTransferResponse {
    pub allowed: bool,
    pub reason: Option<String>,
}

/// What the token tells its compliance contract after tokens moved.
#[derive(Debug, PartialEq)]
pub enum ComplianceExecuteMsg {
    Transferred { from: String, to: String, amount: u128 },
    Created { to: String, amount: u128 },
    Destroyed { from: String, amount: u128 },
}

impl IsVerifiedResponse {
    /// The verdict and reason, as the token's checks take them.
    pub fn answer(self) -> (r: (bool, Option<String>))
        ensures
            r == (self.verified, self.reason),
    {
        (self.verified, self.reason)
    }
}

impl CanTransferResponse {
    /// The verdict and reason, as the token's checks take them.
    pub fn answer(self) -> (r: (bool, Option<String>))
        ensures
            r == (self.allowed, self.reason),
    {
        (self.allowed, self.reason)
    }
}

impl Query {
    /// The contract asked, and the question to an identity registry, if
    /// that is what this is.
    pub fn registry_msg(&self) -> (r: Option<(String, IrQueryMsg)>)
        ensures
            match self@ {
                QueryView::IsVerified { registry, wallet } => r matches Some((c, IrQueryMsg::IsVerified { wallet: w }))
                    && c@ == registry && w@ == wallet,
                _ => r is None,
            },
    {
        match self {
            Query::IsVerified { registry, wallet } => Some(
                (registry.clone(), IrQueryMsg::IsVerified { wallet: wallet.clone() }),
            ),
            _ => None,
        }
    }

    /// The contract asked, and the question to a compliance contract or
    /// plugin, if that is what this is.
    pub fn compliance_msg(&self) -> (r: Option<(String, ComplianceQueryMsg)>)
        ensures
            match self@ {
                QueryView::CanTransfer { contract, token, from, to, amount } => r matches Some(
                    (c, ComplianceQueryMsg::CanTransfer { token: t, from: f, to: d, amount: a }),
                ) && c@ == contract && t@ == token && f@ == from && d@ == to && a == amount,
                _ => r is None,
            },
    {
        match self {
            Query::CanTransfer { contract, token, from, to, amount } => Some(
                (
                    contract.clone(),
                    ComplianceQueryMsg::CanTransfer {
                        token: token.clone(),
                        from: from.clone(),
                        to: to.clone(),
                        amount: *amount,
                    },
                ),
            ),
            _ => None,
        }
    }
}

impl TokenMsg {
    /// The compliance contract to call, and what to tell it.
    pub fn compliance_call(&self) -> (r: (String, ComplianceExecuteMsg))
        ensures
            match self@ {
                TokenMsgView::Transferred { compliance, from, to, amount } => r.0@ == compliance && (r.1 matches ComplianceExecuteMsg::Transferred {
                    from: f,
                    to: t,
                    amount: a,
                } && f@ == from && t@ == to && a == amount),
                TokenMsgView::Created { compliance, to, amount } => r.0@ == compliance && (r.1 matches ComplianceExecuteMsg::Created {
                    to: t,
                    amount: a,
                } && t@ == to && a == amount),
                TokenMsgView::Destroyed { compliance, from, amount } => r.0@ == compliance && (r.1 matches ComplianceExecuteMsg::Destroyed {
                    from: f,
                    amount: a,
                } && f@ == from && a == amount),
            },
    {
        match self {
            TokenMsg::Transferred { compliance, from, to, amount } => (
                compliance.clone(),
                ComplianceExecuteMsg::Transferred { from: from.clone(), to: to.clone(), amount: *amount },
            ),
            TokenMsg::Created { compliance, to, amount } => (
                compliance.clone(),
                ComplianceExecuteMsg::Created { to: to.clone(), amount: *amount },
            ),
            TokenMsg::Destroyed { compliance, from, amount } => (
                compliance.clone(),
                ComplianceExecuteMsg::Destroyed { from: from.clone(), amount: *amount },
            ),
        }
    }
}

} // verus!
