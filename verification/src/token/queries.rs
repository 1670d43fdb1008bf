//! What the token answers when asked.
use vstd::prelude::*;
use crate::common::{AddrInput, StdFailure, text};
use crate::addr_map::{amount_of, enabled_keys, enabled_list};
use crate::id_map::page;
use crate::token::types::{KycStatus, RedemptionRequest, GovProposal};
use crate::token::state::{TokenState, TokenModel, opt_view};
use crate::token::rwa::clone_opt;

verus! {

#[derive(Debug, PartialEq)]
pub struct TokenInfoResponse {
    pub name: String,
    pub symbol: String,
    pub decimals: u8,
    pub total_supply: u128,
}

#[derive(Debug, PartialEq)]
pub struct KycStatusResponse {
    pub address: String,
    pub status: KycStatus,
}

#[derive(Debug, PartialEq)]
pub struct AssetInfoResponse {
    pub asset_id: u64,
    pub reference_id: String,
    pub description: String,
    pub legal_owner: String,
    pub metadata: Option<String>,
    pub total_tokenized: u128,
}

#[derive(Debug, PartialEq)]
pub struct RedeemRequestResponse {
    pub id: u64,
    pub asset_id: u64,
    pub requester: String,
    pub amount: u128,
    pub approved: bool,
    pub reason: Option<String>,
}

#[derive(Debug, PartialEq)]
pub struct RolesResponse {
    pub owner: String,
    pub issuer: String,
    pub controller: String,
}

#[derive(Debug, PartialEq)]
pub struct ValidatorsResponse {
    pub identity_registry: Option<String>,
    pub compliance: Option<String>,
}

#[derive(Debug, PartialEq)]
pub struct AgentsResponse {
    pub agents: Vec<String>,
}

#[derive(Debug, PartialEq)]
pub struct MintingCapResponse {
    pub minting_cap: u128,
    pub current_supply: u128,
    pub available_to_mint: u128,
}

#[derive(Debug, PartialEq)]
pub struct RulePluginsResponse {
    pub plugins: Vec<String>,
}

#[derive(Debug, PartialEq)]
pub struct ComplianceMetricsResponse {
    pub kyc_pending: u32,
    pub kyc_approved: u32,
    pub kyc_revoked: u32,
    pub frozen_count: u32,
    pub denylisted: u32,
}

#[derive(Debug, PartialEq)]
pub struct GovConfigResponse {
    pub members: Vec<String>,
    pub threshold: u32,
    pub timelock_seconds: u64,
}

#[derive(Debug, PartialEq)]
pub struct GovProposalResponse {
    pub id: u64,
    pub action: String,
    pub proposer: String,
    pub approvals: u32,
    pub executed: bool,
    pub creation_time: u64,
    pub timelock_end: u64,
}

/// The (empty) migration message.
#[derive(Debug, PartialEq)]
pub struct MigrateMsg {}

pub open spec fn strings_view(v: Seq<String>) -> Seq<Seq<char>> {
    v.map_values(|x: String| x@)
}

/// The answer of a query that validates one address first.
pub open spec fn checked_answer<T>(r: Result<T, StdFailure>, a: AddrInput, v: T) -> bool {
    match r {
        Ok(x) => a.valid() && x == v,
        Err(e) => !a.valid() && a.rejection == Some(e),
    }
}

/// Number of KYC entries with status `st`.
pub open spec fn status_count(s: Seq<(Seq<char>, KycStatus)>, st: KycStatus) -> nat
    decreases s.len(),
{
    if s.len() == 0 {
        0
    } else {
        status_count(s.drop_last(), st) + if s.last().1 == st {
            1nat
        } else {
            0nat
        }
    }
}

/// Number of KYC entries whose address is flagged in `m`.
pub open spec fn flagged_count(s: Seq<(Seq<char>, KycStatus)>, m: Map<Seq<char>, bool>) -> nat
    decreases s.len(),
{
    if s.len() == 0 {
        0
    } else {
        flagged_count(s.drop_last(), m) + if TokenModel::flag(m, s.last().0) {
            1nat
        } else {
            0nat
        }
    }
}

/// A prefix counts no more of a status than the whole.
pub proof fn lemma_status_count_prefix(s: Seq<(Seq<char>, KycStatus)>, st: KycStatus, i: int)
    requires
        0 <= i <= s.len(),
    ensures
        status_count(s.take(i), st) <= status_count(s, st),
    decreases s.len(),
{
    if i < s.len() {
        assert(s.drop_last().take(i) =~= s.take(i));
        lemma_status_count_prefix(s.drop_last(), st, i);
    } else {
        assert(s.take(i) =~= s);
    }
}

/// A prefix counts no more flagged addresses than the whole.
pub proof fn lemma_flagged_count_prefix(s: Seq<(Seq<char>, KycStatus)>, m: Map<Seq<char>, bool>, i: int)
    requires
        0 <= i <= s.len(),
    ensures
        flagged_count(s.take(i), m) <= flagged_count(s, m),
    decreases s.len(),
{
    if i < s.len() {
        assert(s.drop_last().take(i) =~= s.take(i));
        lemma_flagged_count_prefix(s.drop_last(), m, i);
    } else {
        assert(s.take(i) =~= s);
    }
}

pub open spec fn redeem_answer(r: RedeemRequestResponse, q: RedemptionRequest) -> bool {
    &&& r.id == q.id
    &&& r.asset_id == q.asset_id
    &&& r.requester@ == q.requester@
    &&& r.amount == q.amount
    &&& r.approved == q.approved
    &&& r.reason == q.reason
}

pub open spec fn proposal_answer(r: GovProposalResponse, p: GovProposal) -> bool {
    &&& r.id == p.id
    &&& r.action@ == p.action@
    &&& r.proposer@ == p.proposer@
    &&& r.approvals == p.approvals
    &&& r.executed == p.executed
    &&& r.creation_time == p.creation_time
    &&& r.timelock_end == p.timelock_end
}

/// The page size asked for, by default `default`, at most 100.
pub open spec fn page_limit(limit: Option<u32>, default: u32) -> nat {
    let l = match limit {
        Some(l) => l,
        None => default,
    };
    if l < 100 {
        l as nat
    } else {
        100
    }
}

/// The number of entries a token listing returns at most: the limit as
/// `page_limit` gives it, but at least one, since the listing stops only
/// after adding an entry.
pub open spec fn listing_limit(limit: Option<u32>, default: u32) -> nat {
    if page_limit(limit, default) == 0 {
        1
    } else {
        page_limit(limit, default)
    }
}

fn limit_or(limit: Option<u32>, default: u32) -> (r: usize)
    ensures
        r == listing_limit(limit, default),
{
    let l = match limit {
        Some(l) => l,
        None => default,
    };
    if l == 0 {
        1
    } else if l < 100 {
        l as usize
    } else {
        100
    }
}

fn proposal_response(p: &GovProposal) -> (r: GovProposalResponse)
    ensures
        proposal_answer(r, *p),
{
    GovProposalResponse {
        id: p.id,
        action: p.action.clone(),
        proposer: p.proposer.clone(),
        approvals: p.approvals,
        executed: p.executed,
        creation_time: p.creation_time,
        timelock_end: p.timelock_end,
    }
}

impl TokenState {
    pub fn token_info(&self) -> (r: TokenInfoResponse)
        ensures
            r.name@ == self@.name,
            r.symbol@ == self@.symbol,
            r.decimals == self@.decimals,
            r.total_supply == self@.total_supply,
    {
        TokenInfoResponse {
            name: self.name.clone(),
            symbol: self.symbol.clone(),
            decimals: self.decimals,
            total_supply: self.total_supply,
        }
    }

    /// The balance of `address` (zero when it holds nothing).
    pub fn balance(&self, address: &AddrInput) -> (r: Result<u128, StdFailure>)
        requires
            self.wf(),
        ensures
            checked_answer(r, *address, amount_of(self@.balances, address.text@)),
    {
        let a = address.check()?;
        Ok(self.balance_of(&a))
    }

    /// How much `spender` may move from `owner` (zero when nothing was
    /// approved); `owner` is checked before `spender`.
    pub fn allowance(&self, owner: &AddrInput, spender: &AddrInput) -> (r: Result<u128, StdFailure>)
        requires
            self.wf(),
        ensures
            match r {
                Ok(v) => owner.valid() && spender.valid() && v == self@.allowance(
                    owner.text@,
                    spender.text@,
                ),
                Err(e) => if !owner.valid() {
                    owner.rejection == Some(e)
                } else {
                    !spender.valid() && spender.rejection == Some(e)
                },
            },
    {
        let o = owner.check()?;
        let s = spender.check()?;
        match self.allowances.get(&o, &s) {
            Some(v) => Ok(v),
            None => Ok(0),
        }
    }

    pub fn total_supply(&self) -> (r: u128)
        ensures
            r == self@.total_supply,
    {
        self.total_supply
    }

    /// The KYC status of `address`; `Pending` when none was ever set.
    pub fn kyc_status(&self, address: &AddrInput) -> (r: Result<KycStatusResponse, StdFailure>)
        requires
            self.wf(),
        ensures
            match r {
                Ok(v) => address.valid() && v.address@ == address.text@ && v.status == (
                if self@.kyc.contains_key(address.text@) {
                    self@.kyc[address.text@]
                } else {
                    KycStatus::Pending
                }),
                Err(e) => !address.valid() && address.rejection == Some(e),
            },
    {
        let a = address.check()?;
        let status = match self.kyc.get(&a) {
            Some(s) => *s,
            None => KycStatus::Pending,
        };
        Ok(KycStatusResponse { address: a, status })
    }

    pub fn roles(&self) -> (r: RolesResponse)
        ensures
            r.owner@ == self@.owner,
            r.issuer@ == self@.issuer,
            r.controller@ == self@.controller,
    {
        RolesResponse {
            owner: self.owner.clone(),
            issuer: self.issuer.clone(),
            controller: self.controller.clone(),
        }
    }

    pub fn is_paused(&self) -> (r: bool)
        ensures
            r == self@.paused,
    {
        self.paused
    }

    pub fn cap(&self) -> (r: Option<u128>)
        ensures
            r == self@.cap,
    {
        self.cap
    }

    /// The minting cap, the supply, and what may still be minted (never
    /// below zero).
    pub fn minting_cap_info(&self) -> (r: MintingCapResponse)
        ensures
            r.minting_cap == self@.minting_cap,
            r.current_supply == self@.total_supply,
            r.available_to_mint == (if self@.total_supply < self@.minting_cap {
                self@.minting_cap - self@.total_supply
            } else {
                0
            }),
    {
        MintingCapResponse {
            minting_cap: self.minting_cap,
            current_supply: self.total_supply,
            available_to_mint: self.minting_cap.saturating_sub(self.total_supply),
        }
    }

    /// The configured identity registry and compliance contract.
    pub fn validators(&self) -> (r: ValidatorsResponse)
        ensures
            opt_view(r.identity_registry) == self@.registry_addr(),
            opt_view(r.compliance) == self@.compliance_addr(),
    {
        let identity_registry = match &self.identity_registry {
            Some(Some(a)) => Some(a.clone()),
            _ => None,
        };
        let compliance = match &self.compliance {
            Some(Some(a)) => Some(a.clone()),
            _ => None,
        };
        ValidatorsResponse { identity_registry, compliance }
    }

    /// The enabled agents, in address order.
    pub fn agent_list(&self) -> (r: AgentsResponse)
        requires
            self.wf(),
        ensures
            strings_view(r.agents@) == enabled_keys(self.agents.pairs()),
    {
        AgentsResponse { agents: enabled_list(&self.agents) }
    }

    /// Whether `address` is frozen.
    pub fn frozen(&self, address: &AddrInput) -> (r: Result<bool, StdFailure>)
        requires
            self.wf(),
        ensures
            checked_answer(r, *address, self@.is_frozen(address.text@)),
    {
        let a = address.check()?;
        Ok(crate::token::auth::flag(&self.frozen, &a))
    }

    /// The enabled rule plugins, in address order.
    pub fn plugin_list(&self) -> (r: RulePluginsResponse)
        requires
            self.wf(),
        ensures
            strings_view(r.plugins@) == enabled_keys(self.rule_plugins.pairs()),
    {
        RulePluginsResponse { plugins: enabled_list(&self.rule_plugins) }
    }

    /// Counts over the addresses with a KYC entry: by status, and how many
    /// of them are frozen or denylisted.
    pub fn compliance_metrics(&self) -> (r: ComplianceMetricsResponse)
        requires
            self.wf(),
            status_count(self.kyc.pairs(), KycStatus::Pending) <= u32::MAX,
            status_count(self.kyc.pairs(), KycStatus::Approved) <= u32::MAX,
            status_count(self.kyc.pairs(), KycStatus::Revoked) <= u32::MAX,
            flagged_count(self.kyc.pairs(), self@.frozen) <= u32::MAX,
            flagged_count(self.kyc.pairs(), self@.denylist) <= u32::MAX,
        ensures
            r.kyc_pending == status_count(self.kyc.pairs(), KycStatus::Pending),
            r.kyc_approved == status_count(self.kyc.pairs(), KycStatus::Approved),
            r.kyc_revoked == status_count(self.kyc.pairs(), KycStatus::Revoked),
            r.frozen_count == flagged_count(self.kyc.pairs(), self@.frozen),
            r.denylisted == flagged_count(self.kyc.pairs(), self@.denylist),
    {
        let ghost s = self.kyc.pairs();
        let mut pending: u32 = 0;
        let mut approved: u32 = 0;
        let mut revoked: u32 = 0;
        let mut frozen: u32 = 0;
        let mut denied: u32 = 0;
        let mut i: usize = 0;
        while i < self.kyc.len()
            invariant
                self.wf(),
                s == self.kyc.pairs(),
                status_count(s, KycStatus::Pending) <= u32::MAX,
                status_count(s, KycStatus::Approved) <= u32::MAX,
                status_count(s, KycStatus::Revoked) <= u32::MAX,
                flagged_count(s, self@.frozen) <= u32::MAX,
                flagged_count(s, self@.denylist) <= u32::MAX,
                i <= s.len(),
                pending == status_count(s.take(i as int), KycStatus::Pending),
                approved == status_count(s.take(i as int), KycStatus::Approved),
                revoked == status_count(s.take(i as int), KycStatus::Revoked),
                frozen == flagged_count(s.take(i as int), self@.frozen),
                denied == flagged_count(s.take(i as int), self@.denylist),
            decreases s.len() - i,
        {
            let (a, st) = self.kyc.entry(i);
            assert(s.take(i + 1).drop_last() =~= s.take(i as int));
            proof {
                lemma_status_count_prefix(s, KycStatus::Pending, i + 1);
                lemma_status_count_prefix(s, KycStatus::Approved, i + 1);
                lemma_status_count_prefix(s, KycStatus::Revoked, i + 1);
                lemma_flagged_count_prefix(s, self@.frozen, i + 1);
                lemma_flagged_count_prefix(s, self@.denylist, i + 1);
            }
            match *st {
                KycStatus::Pending => pending = pending + 1,
                KycStatus::Approved => approved = approved + 1,
                KycStatus::Revoked => revoked = revoked + 1,
            }
            if crate::token::auth::flag(&self.frozen, a) {
                frozen = frozen + 1;
            }
            if crate::token::auth::flag(&self.denylist, a) {
                denied = denied + 1;
            }
            i = i + 1;
        }
        assert(s.take(s.len() as int) =~= s);
        ComplianceMetricsResponse {
            kyc_pending: pending,
            kyc_approved: approved,
            kyc_revoked: revoked,
            frozen_count: frozen,
            denylisted: denied,
        }
    }

    /// The governance settings and the enrolled members in address order;
    /// not found until governance is configured.
    pub fn gov_config_info(&self) -> (r: Result<GovConfigResponse, StdFailure>)
        requires
            self.wf(),
        ensures
            match r {
                Ok(v) => self@.gov_config matches Some(c) && v.threshold == c.threshold
                    && v.timelock_seconds == c.timelock_seconds && strings_view(v.members@)
                    == enabled_keys(self.gov_members.pairs()),
                Err(e) => self@.gov_config is None && e == StdFailure::NotFound(e->NotFound_0)
                    && e->NotFound_0@ == "gov_config"@,
            },
    {
        match self.gov_config {
            Some(c) => Ok(
                GovConfigResponse {
                    members: enabled_list(&self.gov_members),
                    threshold: c.threshold,
                    timelock_seconds: c.timelock_seconds,
                },
            ),
            None => Err(StdFailure::NotFound(text("gov_config"))),
        }
    }

    /// One governance proposal.
    pub fn gov_proposal(&self, proposal_id: u64) -> (r: Result<GovProposalResponse, StdFailure>)
        requires
            self.wf(),
        ensures
            match r {
                Ok(v) => self@.gov_proposals.contains_key(proposal_id) && proposal_answer(
                    v,
                    self@.gov_proposals[proposal_id],
                ),
                Err(e) => !self@.gov_proposals.contains_key(proposal_id) && e == StdFailure::NotFound(
                    e->NotFound_0,
                ) && e->NotFound_0@ == "gov_proposal"@,
            },
    {
        match self.gov_proposals.get(proposal_id) {
            Some(p) => Ok(proposal_response(p)),
            None => Err(StdFailure::NotFound(text("gov_proposal"))),
        }
    }

    /// Proposals with ids after `start_after` (default 0), in id order, at
    /// most `limit` of them (default 20, at most 100; a limit of 0 still gives one).
    pub fn gov_proposal_page(&self, start_after: Option<u64>, limit: Option<u32>) -> (r: Vec<
        GovProposalResponse,
    >)
        requires
            self.wf(),
        ensures
            ({
                let pg = page(
                    self.gov_proposals.pairs(),
                    match start_after {
                        Some(s) => s,
                        None => 0,
                    },
                    listing_limit(limit, 20),
                );
                r@.len() == pg.len() && forall|j: int|
                    0 <= j < pg.len() ==> proposal_answer(#[trigger] r@[j], pg[j].1)
            }),
    {
        let start = match start_after {
            Some(s) => s,
            None => 0,
        };
        let lim = limit_or(limit, 20);
        let (lo, hi) = self.gov_proposals.page_bounds(start, lim);
        let ghost s = self.gov_proposals.pairs();
        let ghost pg = page(s, start, lim as nat);
        let mut out: Vec<GovProposalResponse> = Vec::new();
        let mut i: usize = lo;
        while i < hi
            invariant
                s == self.gov_proposals.pairs(),
                pg == s.subrange(lo as int, hi as int),
                lo <= i <= hi,
                hi <= s.len(),
                out@.len() == i - lo,
                forall|j: int| 0 <= j < out@.len() ==> proposal_answer(#[trigger] out@[j], pg[j].1),
            decreases hi - i,
        {
            let (_, p) = self.gov_proposals.entry(i);
            out.push(proposal_response(p));
            i = i + 1;
        }
        out
    }

    /// One registered asset.
    pub fn asset_info(&self, asset_id: u64) -> (r: Result<AssetInfoResponse, StdFailure>)
        requires
            self.wf(),
        ensures
            match r {
                Ok(v) => self@.assets.contains_key(asset_id) && ({
                    let a = self@.assets[asset_id];
                    &&& v.asset_id == a.id
                    &&& v.reference_id@ == a.reference_id@
                    &&& v.description@ == a.description@
                    &&& v.legal_owner@ == a.legal_owner@
                    &&& v.metadata == a.metadata
                    &&& v.total_tokenized == a.total_tokenized
                }),
                Err(e) => !self@.assets.contains_key(asset_id) && e == StdFailure::NotFound(
                    e->NotFound_0,
                ) && e->NotFound_0@ == "asset"@,
            },
    {
        match self.assets.get(asset_id) {
            Some(a) => Ok(
                AssetInfoResponse {
                    asset_id: a.id,
                    reference_id: a.reference_id.clone(),
                    description: a.description.clone(),
                    legal_owner: a.legal_owner.clone(),
                    metadata: clone_opt(&a.metadata),
                    total_tokenized: a.total_tokenized,
                },
            ),
            None => Err(StdFailure::NotFound(text("asset"))),
        }
    }

    /// The transfer limit set for `address`, if any.
    pub fn transfer_limit(&self, address: &AddrInput) -> (r: Result<Option<u128>, StdFailure>)
        requires
            self.wf(),
        ensures
            checked_answer(r, *address, self@.limit_of(address.text@)),
    {
        let a = address.check()?;
        match self.transfer_limits.get(&a) {
            Some(l) => Ok(*l),
            None => Ok(None),
        }
    }

    /// Redemption requests with ids after `start_after` (default 0), in id
    /// order, at most `limit` of them (default 10, at most 100; a limit of 0 still gives one).
    pub fn redemption_requests(&self, start_after: Option<u64>, limit: Option<u32>) -> (r: Vec<
        RedeemRequestResponse,
    >)
        requires
            self.wf(),
        ensures
            ({
                let pg = page(
                    self.redeem_requests.pairs(),
                    match start_after {
                        Some(s) => s,
                        None => 0,
                    },
                    listing_limit(limit, 10),
                );
                r@.len() == pg.len() && forall|j: int|
                    0 <= j < pg.len() ==> redeem_answer(#[trigger] r@[j], pg[j].1)
            }),
    {
        let start = match start_after {
            Some(s) => s,
            None => 0,
        };
        let lim = limit_or(limit, 10);
        let (lo, hi) = self.redeem_requests.page_bounds(start, lim);
        let ghost s = self.redeem_requests.pairs();
        let ghost pg = page(s, start, lim as nat);
        let mut out: Vec<RedeemRequestResponse> = Vec::new();
        let mut i: usize = lo;
        while i < hi
            invariant
                s == self.redeem_requests.pairs(),
                pg == s.subrange(lo as int, hi as int),
                lo <= i <= hi,
                hi <= s.len(),
                out@.len() == i - lo,
                forall|j: int| 0 <= j < out@.len() ==> redeem_answer(#[trigger] out@[j], pg[j].1),
            decreases hi - i,
        {
            let (_, q) = self.redeem_requests.entry(i);
            out.push(
                RedeemRequestResponse {
                    id: q.id,
                    asset_id: q.asset_id,
                    requester: q.requester.clone(),
                    amount: q.amount,
                    approved: q.approved,
                    reason: clone_opt(&q.reason),
                },
            );
            i = i + 1;
        }
        out
    }
}

} // verus!
