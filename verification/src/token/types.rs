//! The token's records, errors, context and outgoing messages.
use vstd::prelude::*;
use crate::common::{AddrInput, StdFailure, StdFailureView, Response, text};
pub use crate::common::Ctx;

verus! {

/// KYC status of an address.
#[derive(Clone, Copy, Debug, PartialEq, Eq, Structural)]
pub enum KycStatus {
    Pending,
    Approved,
    Revoked,
}

/// The `Debug` text of a KYC status.
pub open spec fn kyc_debug(s: KycStatus) -> Seq<char> {
    match s {
        KycStatus::Pending => "Pending"@,
        KycStatus::Approved => "Approved"@,
        KycStatus::Revoked => "Revoked"@,
    }
}

pub fn kyc_debug_string(s: KycStatus) -> (r: String)
    ensures
        r@ == kyc_debug(s),
{
    match s {
        KycStatus::Pending => text("Pending"),
        KycStatus::Approved => text("Approved"),
        KycStatus::Revoked => text("Revoked"),
    }
}

/// A real-world asset registered with the token.
#[derive(Debug)]
pub struct AssetInfo {
    pub id: u64,
    pub reference_id: String,
    pub description: String,
    pub legal_owner: String,
    pub metadata: Option<String>,
    pub total_tokenized: u128,
}

/// A request to redeem tokens against an asset; its tokens are taken from the
/// requester when the request is made.
#[derive(Debug)]
pub struct RedemptionRequest {
    pub id: u64,
    pub asset_id: u64,
    pub requester: String,
    pub amount: u128,
    pub approved: bool,
    pub reason: Option<String>,
}

/// A request to issue tokens against an asset.
#[derive(Debug)]
pub struct IssuanceRequest {
    pub id: u64,
    pub asset_id: u64,
    pub recipient: String,
    pub amount: u128,
    pub approved: bool,
}

/// Multi-signature governance settings.
#[derive(Clone, Copy, Debug, PartialEq, Eq, Structural)]
pub struct GovConfig {
    pub threshold: u32,
    pub timelock_seconds: u64,
}

/// A governance proposal.
#[derive(Debug)]
pub struct GovProposal {
    pub id: u64,
    pub action: String,
    pub proposer: String,
    pub approvals: u32,
    pub executed: bool,
    pub creation_time: u64,
    pub timelock_end: u64,
}

/// Errors of the token contract.
#[derive(Debug)]
pub enum ContractError {
    Std(StdFailure),
    Unauthorized,
    Paused,
    KycNotApproved(String),
    CapReached,
    MintingCapExceeded { attempted: u128, cap: u128, current: u128 },
    InsufficientFunds,
    AssetNotFound,
    InvalidRequest,
    AlreadyApproved,
    NotCompliant(String),
    NotVerified(String),
}

/// A token error with its texts taken by their contents.
pub enum TokenErr {
    Std(StdFailureView),
    Unauthorized,
    Paused,
    KycNotApproved(Seq<char>),
    CapReached,
    MintingCapExceeded { attempted: u128, cap: u128, current: u128 },
    InsufficientFunds,
    AssetNotFound,
    InvalidRequest,
    AlreadyApproved,
    NotCompliant(Seq<char>),
    NotVerified(Seq<char>),
}

impl View for ContractError {
    type V = TokenErr;

    open spec fn view(&self) -> TokenErr {
        match self {
            ContractError::Std(e) => TokenErr::Std(e@),
            ContractError::Unauthorized => TokenErr::Unauthorized,
            ContractError::Paused => TokenErr::Paused,
            ContractError::KycNotApproved(s) => TokenErr::KycNotApproved(s@),
            ContractError::CapReached => TokenErr::CapReached,
            ContractError::MintingCapExceeded { attempted, cap, current } => {
                TokenErr::MintingCapExceeded { attempted: *attempted, cap: *cap, current: *current }
            },
            ContractError::InsufficientFunds => TokenErr::InsufficientFunds,
            ContractError::AssetNotFound => TokenErr::AssetNotFound,
            ContractError::InvalidRequest => TokenErr::InvalidRequest,
            ContractError::AlreadyApproved => TokenErr::AlreadyApproved,
            ContractError::NotCompliant(s) => TokenErr::NotCompliant(s@),
            ContractError::NotVerified(s) => TokenErr::NotVerified(s@),
        }
    }
}

/// Calls the token makes on its compliance contract after it moved tokens.
#[derive(Debug)]
pub enum TokenMsg {
    Transferred { compliance: String, from: String, to: String, amount: u128 },
    Created { compliance: String, to: String, amount: u128 },
    Destroyed { compliance: String, from: String, amount: u128 },
}

/// A call on the compliance contract, with its texts taken by their contents.
pub enum TokenMsgView {
    Transferred { compliance: Seq<char>, from: Seq<char>, to: Seq<char>, amount: u128 },
    Created { compliance: Seq<char>, to: Seq<char>, amount: u128 },
    Destroyed { compliance: Seq<char>, from: Seq<char>, amount: u128 },
}

impl View for TokenMsg {
    type V = TokenMsgView;

    open spec fn view(&self) -> TokenMsgView {
        match self {
            TokenMsg::Transferred { compliance, from, to, amount } => TokenMsgView::Transferred {
                compliance: compliance@,
                from: from@,
                to: to@,
                amount: *amount,
            },
            TokenMsg::Created { compliance, to, amount } => TokenMsgView::Created {
                compliance: compliance@,
                to: to@,
                amount: *amount,
            },
            TokenMsg::Destroyed { compliance, from, amount } => TokenMsgView::Destroyed {
                compliance: compliance@,
                from: from@,
                amount: *amount,
            },
        }
    }
}

pub open spec fn msgs_view(s: Seq<TokenMsg>) -> Seq<TokenMsgView> {
    s.map_values(|m: TokenMsg| m@)
}

pub type TokenResponse = Response<TokenMsg>;

/// An address paired with an amount, as given at instantiation.
#[derive(Debug)]
pub struct InitialBalance {
    pub address: AddrInput,
    pub amount: u128,
}

/// A recipient and amount in a batch transfer.
#[derive(Debug)]
pub struct TransferItem {
    pub recipient: AddrInput,
    pub amount: u128,
}

/// An address and the KYC status to give it.
#[derive(Debug)]
pub struct KycUpdate {
    pub address: AddrInput,
    pub status: KycStatus,
}

} // verus!
