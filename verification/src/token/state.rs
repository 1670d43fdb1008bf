//! The token's whole state, its mathematical model, and instantiation.
use vstd::prelude::*;
use crate::common::{AddrInput, StdFailure, Response, text};
use crate::addr_map::AddrMap;
use crate::id_map::IdMap;
use crate::pair_map::{PairMap, PairKey};
use crate::token::types::{
    KycStatus, AssetInfo, RedemptionRequest, IssuanceRequest, GovConfig, GovProposal,
    ContractError, TokenErr, Ctx, TokenResponse, InitialBalance,
};

verus! {

/// The token's state, one field per storage item or map.
pub struct TokenState {
    pub name: String,
    pub symbol: String,
    pub decimals: u8,
    pub total_supply: u128,
    pub balances: AddrMap<u128>,
    pub allowances: PairMap,
    pub owner: String,
    pub issuer: String,
    pub controller: String,
    /// Identity registry: outer `None` while the item was never written.
    pub identity_registry: Option<Option<String>>,
    /// Compliance contract: outer `None` while the item was never written.
    pub compliance: Option<Option<String>>,
    pub paused: bool,
    pub cap: Option<u128>,
    pub minting_cap: u128,
    pub kyc: AddrMap<KycStatus>,
    pub agents: AddrMap<bool>,
    pub frozen: AddrMap<bool>,
    pub denylist: AddrMap<bool>,
    pub rule_plugins: AddrMap<bool>,
    pub asset_seq: u64,
    pub assets: IdMap<AssetInfo>,
    pub redeem_seq: u64,
    pub redeem_requests: IdMap<RedemptionRequest>,
    pub issuance_seq: u64,
    pub issuance_requests: IdMap<IssuanceRequest>,
    pub attestations: AddrMap<String>,
    pub transfer_limits: AddrMap<Option<u128>>,
    /// Governance settings; `None` until they are first set.
    pub gov_config: Option<GovConfig>,
    pub gov_members: AddrMap<bool>,
    pub gov_proposal_seq: u64,
    pub gov_proposals: IdMap<GovProposal>,
    /// For each proposal, the members that approved it, in order.
    pub gov_approvers: IdMap<Vec<String>>,
}

/// The token's state as mathematics.
pub struct TokenModel {
    pub name: Seq<char>,
    pub symbol: Seq<char>,
    pub decimals: u8,
    pub total_supply: u128,
    pub balances: Map<Seq<char>, u128>,
    pub allowances: Map<PairKey, u128>,
    pub owner: Seq<char>,
    pub issuer: Seq<char>,
    pub controller: Seq<char>,
    pub identity_registry: Option<Option<Seq<char>>>,
    pub compliance: Option<Option<Seq<char>>>,
    pub paused: bool,
    pub cap: Option<u128>,
    pub minting_cap: u128,
    pub kyc: Map<Seq<char>, KycStatus>,
    pub agents: Map<Seq<char>, bool>,
    pub frozen: Map<Seq<char>, bool>,
    pub denylist: Map<Seq<char>, bool>,
    pub rule_plugins: Map<Seq<char>, bool>,
    pub asset_seq: u64,
    pub assets: Map<u64, AssetInfo>,
    pub redeem_seq: u64,
    pub redeem_requests: Map<u64, RedemptionRequest>,
    pub issuance_seq: u64,
    pub issuance_requests: Map<u64, IssuanceRequest>,
    pub attestations: Map<Seq<char>, String>,
    pub transfer_limits: Map<Seq<char>, Option<u128>>,
    pub gov_config: Option<GovConfig>,
    pub gov_members: Map<Seq<char>, bool>,
    pub gov_proposal_seq: u64,
    pub gov_proposals: Map<u64, GovProposal>,
    pub gov_approvers: Map<u64, Seq<Seq<char>>>,
}

/// The texts of a list of strings.
pub open spec fn names_view(v: Seq<String>) -> Seq<Seq<char>> {
    v.map_values(|x: String| x@)
}

pub open spec fn opt_view(o: Option<String>) -> Option<Seq<char>> {
    match o {
        Some(s) => Some(s@),
        None => None,
    }
}

pub open spec fn opt_opt_view(o: Option<Option<String>>) -> Option<Option<Seq<char>>> {
    match o {
        Some(i) => Some(opt_view(i)),
        None => None,
    }
}

impl View for TokenState {
    type V = TokenModel;

    open spec fn view(&self) -> TokenModel {
        TokenModel {
            name: self.name@,
            symbol: self.symbol@,
            decimals: self.decimals,
            total_supply: self.total_supply,
            balances: self.balances@,
            allowances: self.allowances@,
            owner: self.owner@,
            issuer: self.issuer@,
            controller: self.controller@,
            identity_registry: opt_opt_view(self.identity_registry),
            compliance: opt_opt_view(self.compliance),
            paused: self.paused,
            cap: self.cap,
            minting_cap: self.minting_cap,
            kyc: self.kyc@,
            agents: self.agents@,
            frozen: self.frozen@,
            denylist: self.denylist@,
            rule_plugins: self.rule_plugins@,
            asset_seq: self.asset_seq,
            assets: self.assets@,
            redeem_seq: self.redeem_seq,
            redeem_requests: self.redeem_requests@,
            issuance_seq: self.issuance_seq,
            issuance_requests: self.issuance_requests@,
            attestations: self.attestations@,
            transfer_limits: self.transfer_limits@,
            gov_config: self.gov_config,
            gov_members: self.gov_members@,
            gov_proposal_seq: self.gov_proposal_seq,
            gov_proposals: self.gov_proposals@,
            gov_approvers: self.gov_approvers@.map_values(|v: Vec<String>| names_view(v@)),
        }
    }
}

/// The tokens a redemption request still holds: its amount until approved.
pub open spec fn pending_amount(r: RedemptionRequest) -> int {
    if r.approved {
        0
    } else {
        r.amount as int
    }
}

pub proof fn lemma_pending_sum_update(s: Seq<(u64, RedemptionRequest)>, i: int, p: (u64, RedemptionRequest))
    requires
        0 <= i < s.len(),
    ensures
        pending_sum(s.update(i, p)) == pending_sum(s) - pending_amount(s[i].1) + pending_amount(p.1),
    decreases s.len(),
{
    if i == s.len() - 1 {
        assert(s.update(i, p).drop_last() =~= s.drop_last());
    } else {
        lemma_pending_sum_update(s.drop_last(), i, p);
        assert(s.update(i, p).drop_last() =~= s.drop_last().update(i, p));
    }
}

pub proof fn lemma_pending_sum_insert(s: Seq<(u64, RedemptionRequest)>, i: int, p: (u64, RedemptionRequest))
    requires
        0 <= i <= s.len(),
    ensures
        pending_sum(s.insert(i, p)) == pending_sum(s) + pending_amount(p.1),
    decreases s.len(),
{
    if i == s.len() {
        assert(s.insert(i, p).drop_last() =~= s);
    } else {
        lemma_pending_sum_insert(s.drop_last(), i, p);
        assert(s.insert(i, p).drop_last() =~= s.drop_last().insert(i, p));
    }
}

/// Sum of the amounts of the redemption requests not yet approved.
pub open spec fn pending_sum(s: Seq<(u64, RedemptionRequest)>) -> int
    decreases s.len(),
{
    if s.len() == 0 {
        0
    } else {
        pending_sum(s.drop_last()) + pending_amount(s.last().1)
    }
}

impl TokenState {
    /// The supply equals the tokens held plus the tokens locked in pending
    /// redemption requests.
    pub open spec fn supply_consistent(&self) -> bool {
        &&& self.total_supply == crate::addr_map::total(self.balances) + pending_sum(
            self.redeem_requests.pairs(),
        )
        &&& forall|id: u64| #[trigger] self@.redeem_requests.contains_key(id) ==> id <= self.redeem_seq
    }

    /// Every map keeps its storage order.
    pub open spec fn wf(&self) -> bool {
        &&& self.balances.wf()
        &&& self.allowances.wf()
        &&& self.kyc.wf()
        &&& self.agents.wf()
        &&& self.frozen.wf()
        &&& self.denylist.wf()
        &&& self.rule_plugins.wf()
        &&& self.assets.wf()
        &&& self.redeem_requests.wf()
        &&& self.issuance_requests.wf()
        &&& self.attestations.wf()
        &&& self.transfer_limits.wf()
        &&& self.gov_members.wf()
        &&& self.gov_proposals.wf()
        &&& self.gov_approvers.wf()
    }
}

impl TokenModel {
    pub open spec fn balance(self, a: Seq<char>) -> u128 {
        if self.balances.contains_key(a) {
            self.balances[a]
        } else {
            0
        }
    }

    pub open spec fn flag(m: Map<Seq<char>, bool>, a: Seq<char>) -> bool {
        m.contains_key(a) && m[a]
    }

    pub open spec fn is_frozen(self, a: Seq<char>) -> bool {
        Self::flag(self.frozen, a)
    }

    pub open spec fn is_denylisted(self, a: Seq<char>) -> bool {
        Self::flag(self.denylist, a)
    }

    pub open spec fn is_agent(self, a: Seq<char>) -> bool {
        Self::flag(self.agents, a)
    }

    pub open spec fn kyc_approved(self, a: Seq<char>) -> bool {
        self.kyc.contains_key(a) && self.kyc[a] == KycStatus::Approved
    }

    /// The per-address transfer limit of `a`, if one is set.
    pub open spec fn limit_of(self, a: Seq<char>) -> Option<u128> {
        if self.transfer_limits.contains_key(a) {
            self.transfer_limits[a]
        } else {
            None
        }
    }

    /// The compliance contract the token calls, if one is configured.
    pub open spec fn compliance_addr(self) -> Option<Seq<char>> {
        match self.compliance {
            Some(Some(c)) => Some(c),
            _ => None,
        }
    }

    /// The identity registry the token consults, if one is configured.
    pub open spec fn registry_addr(self) -> Option<Seq<char>> {
        match self.identity_registry {
            Some(Some(c)) => Some(c),
            _ => None,
        }
    }

    pub open spec fn allowance(self, owner: Seq<char>, spender: Seq<char>) -> u128 {
        if self.allowances.contains_key((owner, spender)) {
            self.allowances[(owner, spender)]
        } else {
            0
        }
    }
}

/// The first rejection among a sequence of address inputs.
pub open spec fn first_rejection(s: Seq<AddrInput>) -> Option<StdFailure>
    decreases s.len(),
{
    if s.len() == 0 {
        None
    } else if s[0].rejection is Some {
        s[0].rejection
    } else {
        first_rejection(s.drop_first())
    }
}

/// The instantiation message, with every address the chain's verdict on it.
#[derive(Debug)]
pub struct InstantiateMsg {
    pub name: String,
    pub symbol: String,
    pub decimals: u8,
    pub initial_balances: Vec<InitialBalance>,
    pub issuer: AddrInput,
    pub controller: AddrInput,
    pub owner: AddrInput,
    pub cap: Option<u128>,
    pub minting_cap: u128,
    pub require_kyc_for_transfer: Option<bool>,
    pub identity_registry: Option<AddrInput>,
    pub compliance: Option<AddrInput>,
}

pub open spec fn opt_inputs(o: Option<AddrInput>) -> Seq<AddrInput> {
    match o {
        Some(a) => seq![a],
        None => seq![],
    }
}

impl InstantiateMsg {
    /// The addresses in the order the token checks them.
    pub open spec fn addresses(&self) -> Seq<AddrInput> {
        seq![self.owner, self.issuer, self.controller] + opt_inputs(self.identity_registry)
            + opt_inputs(self.compliance) + self.initial_balances@.map_values(
            |b: InitialBalance| b.address,
        )
    }

    /// Sum of the initial balances.
    pub open spec fn initial_total(&self) -> int {
        total_of(self.initial_balances@)
    }

    /// The role and validator addresses, checked before any balance.
    pub open spec fn role_addresses(&self) -> Seq<AddrInput> {
        seq![self.owner, self.issuer, self.controller] + opt_inputs(self.identity_registry)
            + opt_inputs(self.compliance)
    }

    /// The addresses checked before the `i`-th initial balance is added.
    pub open spec fn checked_before(&self, i: int) -> Seq<AddrInput> {
        self.role_addresses() + self.initial_balances@.take(i).map_values(|b: InitialBalance| b.address)
    }

    /// Each running total of the initial balances fits in a `u128` once the
    /// addresses checked before it are all accepted.
    pub open spec fn sums_fit(&self) -> bool {
        forall|i: int|
            0 < i <= self.initial_balances@.len() && first_rejection(#[trigger] self.checked_before(i)) is None
                ==> total_of(self.initial_balances@.take(i)) <= u128::MAX
    }
}

pub open spec fn total_of(s: Seq<InitialBalance>) -> int
    decreases s.len(),
{
    if s.len() == 0 {
        0
    } else {
        total_of(s.drop_last()) + s.last().amount
    }
}

/// Balances after writing the initial balances in order (a later entry for
/// the same address replaces an earlier one).
pub open spec fn initial_balances_map(s: Seq<InitialBalance>) -> Map<Seq<char>, u128>
    decreases s.len(),
{
    if s.len() == 0 {
        Map::empty()
    } else {
        initial_balances_map(s.drop_last()).insert(s.last().address.text@, s.last().amount)
    }
}

/// KYC entries after instantiation: every initial holder pending, then the
/// owner, issuer and controller approved.
pub open spec fn initial_kyc_map(
    s: Seq<InitialBalance>,
    owner: Seq<char>,
    issuer: Seq<char>,
    controller: Seq<char>,
) -> Map<Seq<char>, KycStatus> {
    initial_balances_map(s).map_values(|v: u128| KycStatus::Pending).insert(
        owner,
        KycStatus::Approved,
    ).insert(issuer, KycStatus::Approved).insert(controller, KycStatus::Approved)
}

proof fn lemma_total_of_nonneg(s: Seq<InitialBalance>)
    ensures
        total_of(s) >= 0,
    decreases s.len(),
{
    if s.len() > 0 {
        lemma_total_of_nonneg(s.drop_last());
    }
}

pub proof fn lemma_first_rejection_append(a: Seq<AddrInput>, b: Seq<AddrInput>)
    ensures
        first_rejection(a + b) == (if first_rejection(a) is Some {
            first_rejection(a)
        } else {
            first_rejection(b)
        }),
    decreases a.len(),
{
    if a.len() > 0 {
        lemma_first_rejection_append(a.drop_first(), b);
        assert((a + b).drop_first() =~= a.drop_first() + b);
    } else {
        assert(a + b =~= b);
    }
}

proof fn lemma_first_rejection_none(s: Seq<AddrInput>, i: int)
    requires
        first_rejection(s) is None,
        0 <= i < s.len(),
    ensures
        s[i].rejection is None,
    decreases s.len(),
{
    if i > 0 {
        lemma_first_rejection_none(s.drop_first(), i - 1);
    }
}

fn check_opt(o: &Option<AddrInput>) -> (r: Result<Option<String>, StdFailure>)
    ensures
        match r {
            Ok(v) => first_rejection(opt_inputs(*o)) is None && opt_view(v) == match o {
                Some(a) => Some(a.text@),
                None => None::<Seq<char>>,
            },
            Err(e) => first_rejection(opt_inputs(*o)) == Some(e),
        },
{
    match o {
        Some(a) => {
            proof {
                reveal_with_fuel(first_rejection, 2);
            }
            match a.check() {
                Ok(v) => Ok(Some(v)),
                Err(e) => Err(e),
            }
        },
        None => Ok(None),
    }
}

impl TokenState {
    /// Sets up a token: metadata, roles, validators, initial balances (their
    /// holders' KYC pending) and the three roles' KYC approved.
    pub fn instantiate(msg: InstantiateMsg, ctx: &Ctx) -> (r: Result<(TokenState, TokenResponse), ContractError>)
        requires
            msg.sums_fit(),
        ensures
            match r {
                Ok((s, resp)) => {
                    &&& first_rejection(msg.addresses()) is None
                    &&& s.wf()
                    &&& s@.name == msg.name@
                    &&& s@.symbol == msg.symbol@
                    &&& s@.decimals == msg.decimals
                    &&& s@.total_supply == msg.initial_total()
                    &&& s@.balances == initial_balances_map(msg.initial_balances@)
                    &&& s@.owner == msg.owner.text@
                    &&& s@.issuer == msg.issuer.text@
                    &&& s@.controller == msg.controller.text@
                    &&& s@.identity_registry == Some(
                        match msg.identity_registry {
                            Some(a) => Some(a.text@),
                            None => None::<Seq<char>>,
                        },
                    )
                    &&& s@.compliance == Some(
                        match msg.compliance {
                            Some(a) => Some(a.text@),
                            None => None::<Seq<char>>,
                        },
                    )
                    &&& !s@.paused
                    &&& s@.cap == msg.cap
                    &&& s@.minting_cap == msg.minting_cap
                    &&& s@.kyc == initial_kyc_map(
                        msg.initial_balances@,
                        msg.owner.text@,
                        msg.issuer.text@,
                        msg.controller.text@,
                    )
                    &&& s@.allowances.is_empty() && s@.agents.is_empty() && s@.frozen.is_empty()
                    &&& s@.denylist.is_empty() && s@.rule_plugins.is_empty()
                    &&& s@.assets.is_empty() && s@.redeem_requests.is_empty()
                    &&& s@.issuance_requests.is_empty() && s@.attestations.is_empty()
                    &&& s@.transfer_limits.is_empty() && s@.gov_members.is_empty()
                    &&& s@.gov_proposals.is_empty() && s@.gov_approvers.is_empty() && s@.gov_config is None
                    &&& s@.asset_seq == 0 && s@.redeem_seq == 0 && s@.issuance_seq == 0
                    &&& s@.gov_proposal_seq == 0
                    &&& resp.messages@.len() == 0
                    &&& resp.evts().len() == 0
                    &&& resp.attrs() == seq![
                        ("method"@, "instantiate"@),
                        ("name"@, msg.name@),
                        ("symbol"@, msg.symbol@),
                        ("owner"@, msg.owner.text@),
                        ("issuer"@, msg.issuer.text@),
                        ("controller"@, msg.controller.text@),
                        ("deployer"@, ctx.sender.text@),
                    ]
                },
                Err(e) => first_rejection(msg.addresses()) is Some && e@ == TokenErr::Std(
                    first_rejection(msg.addresses())->0@,
                ),
            },
    {
        let ghost addrs = msg.addresses();
        let ghost ob = msg.initial_balances@;
        proof {
            let a3 = seq![msg.owner, msg.issuer, msg.controller];
            let o1 = opt_inputs(msg.identity_registry);
            let o2 = opt_inputs(msg.compliance);
            let bs = ob.map_values(|b: InitialBalance| b.address);
            assert(addrs =~= a3 + (o1 + (o2 + bs)));
            lemma_first_rejection_append(a3, o1 + (o2 + bs));
            lemma_first_rejection_append(o1, o2 + bs);
            lemma_first_rejection_append(o2, bs);
            reveal_with_fuel(first_rejection, 4);
        }
        let owner = match msg.owner.check() {
            Ok(a) => a,
            Err(e) => return Err(ContractError::Std(e)),
        };
        let issuer = match msg.issuer.check() {
            Ok(a) => a,
            Err(e) => return Err(ContractError::Std(e)),
        };
        let controller = match msg.controller.check() {
            Ok(a) => a,
            Err(e) => return Err(ContractError::Std(e)),
        };
        let ir = match check_opt(&msg.identity_registry) {
            Ok(a) => a,
            Err(e) => return Err(ContractError::Std(e)),
        };
        let comp = match check_opt(&msg.compliance) {
            Ok(a) => a,
            Err(e) => return Err(ContractError::Std(e)),
        };
        let ghost bs = ob.map_values(|b: InitialBalance| b.address);
        let mut balances: AddrMap<u128> = AddrMap::new();
        let mut kyc: AddrMap<KycStatus> = AddrMap::new();
        let mut total: u128 = 0;
        let mut i: usize = 0;
        let ghost roles = msg.role_addresses();
        proof {
            assert(first_rejection(addrs) == first_rejection(bs));
            assert(roles =~= seq![msg.owner, msg.issuer, msg.controller] + (opt_inputs(msg.identity_registry)
                + opt_inputs(msg.compliance)));
            lemma_first_rejection_append(seq![msg.owner, msg.issuer, msg.controller], opt_inputs(msg.identity_registry)
                + opt_inputs(msg.compliance));
            lemma_first_rejection_append(opt_inputs(msg.identity_registry), opt_inputs(msg.compliance));
            assert(first_rejection(roles) is None);
        }
        while i < msg.initial_balances.len()
            invariant
                addrs == msg.addresses(),
                first_rejection(addrs) == first_rejection(bs),
                ob == msg.initial_balances@,
                bs == ob.map_values(|b: InitialBalance| b.address),
                i <= ob.len(),
                balances.wf(),
                kyc.wf(),
                total == total_of(ob.take(i as int)),
                msg.sums_fit(),
                roles == msg.role_addresses(),
                first_rejection(roles) is None,
                first_rejection(bs.take(i as int)) is None,
                balances@ == initial_balances_map(ob.take(i as int)),
                kyc@ == initial_balances_map(ob.take(i as int)).map_values(
                    |v: u128| KycStatus::Pending,
                ),
            decreases ob.len() - i,
        {
            let ib = &msg.initial_balances[i];
            let ghost pre = ob.take(i as int);
            assert(ob.take(i + 1) =~= pre.push(ob[i as int]));
            assert(ob.take(i + 1).drop_last() =~= pre);
            assert(bs.take(i + 1) =~= bs.take(i as int) + seq![bs[i as int]]);
            proof {
                lemma_first_rejection_append(bs.take(i as int), seq![bs[i as int]]);
                reveal_with_fuel(first_rejection, 2);
            }
            let addr = match ib.address.check() {
                Ok(a) => a,
                Err(e) => {
                    proof {
                        assert(bs[i as int] == ib.address);
                        assert(first_rejection(seq![bs[i as int]]) == bs[i as int].rejection);
                        assert(first_rejection(bs.take(i + 1)) == Some(e));
                        assert(bs =~= bs.take(i + 1) + bs.skip(i + 1));
                        lemma_first_rejection_append(bs.take(i + 1), bs.skip(i + 1));
                    }
                    return Err(ContractError::Std(e));
                },
            };
            proof {
                lemma_total_of_nonneg(pre);
                assert(first_rejection(bs.take(i + 1)) is None);
                assert(ob.take(i + 1).map_values(|b: InitialBalance| b.address) =~= bs.take(i + 1));
                assert(msg.checked_before(i + 1) =~= roles + bs.take(i + 1));
                lemma_first_rejection_append(roles, bs.take(i + 1));
                assert(first_rejection(msg.checked_before(i + 1)) is None);
            }
            let addr2 = addr.clone();
            balances.insert(addr, ib.amount);
            kyc.insert(addr2, KycStatus::Pending);
            total = total + ib.amount;
            i = i + 1;
            proof {
                assert(kyc@ =~= initial_balances_map(ob.take(i as int)).map_values(
                    |v: u128| KycStatus::Pending,
                ));
            }
        }
        assert(ob.take(ob.len() as int) =~= ob);
        assert(bs.take(bs.len() as int) =~= bs);
        kyc.insert(owner.clone(), KycStatus::Approved);
        kyc.insert(issuer.clone(), KycStatus::Approved);
        kyc.insert(controller.clone(), KycStatus::Approved);
        let mut resp: TokenResponse = Response::new();
        resp.attr("method", text("instantiate"));
        resp.attr("name", msg.name.clone());
        resp.attr("symbol", msg.symbol.clone());
        resp.attr("owner", msg.owner.text.clone());
        resp.attr("issuer", msg.issuer.text.clone());
        resp.attr("controller", msg.controller.text.clone());
        resp.attr("deployer", ctx.sender.text.clone());
        let s = TokenState {
            name: msg.name,
            symbol: msg.symbol,
            decimals: msg.decimals,
            total_supply: total,
            balances,
            allowances: PairMap::new(),
            owner,
            issuer,
            controller,
            identity_registry: Some(ir),
            compliance: Some(comp),
            paused: false,
            cap: msg.cap,
            minting_cap: msg.minting_cap,
            kyc,
            agents: AddrMap::new(),
            frozen: AddrMap::new(),
            denylist: AddrMap::new(),
            rule_plugins: AddrMap::new(),
            asset_seq: 0,
            assets: IdMap::new(),
            redeem_seq: 0,
            redeem_requests: IdMap::new(),
            issuance_seq: 0,
            issuance_requests: IdMap::new(),
            attestations: AddrMap::new(),
            transfer_limits: AddrMap::new(),
            gov_config: None,
            gov_members: AddrMap::new(),
            gov_proposal_seq: 0,
            gov_proposals: IdMap::new(),
            gov_approvers: IdMap::new(),
        };
        assert(s@.gov_approvers =~= Map::<u64, Seq<Seq<char>>>::empty());
        Ok((s, resp))
    }
}

/// The two validator items that a migration initialises when absent.
#[derive(Debug)]
pub struct ValidatorItems {
    pub identity_registry: Option<Option<String>>,
    pub compliance: Option<Option<String>>,
}

impl ValidatorItems {
    /// Migration: writes an empty validator where none was ever written, and
    /// leaves a written one as it is.
    pub fn migrate(&mut self) -> (resp: TokenResponse)
        ensures
            final(self).identity_registry == (match old(self).identity_registry {
                Some(v) => Some(v),
                None => Some(None::<String>),
            }),
            final(self).compliance == (match old(self).compliance {
                Some(v) => Some(v),
                None => Some(None::<String>),
            }),
            resp.messages@.len() == 0,
            resp.evts().len() == 0,
            resp.attrs() == seq![("action"@, "migrate"@)],
    {
        if self.identity_registry.is_none() {
            self.identity_registry = Some(None);
        }
        if self.compliance.is_none() {
            self.compliance = Some(None);
        }
        let mut resp: TokenResponse = Response::new();
        resp.attr("action", text("migrate"));
        resp
    }
}

} // verus!
