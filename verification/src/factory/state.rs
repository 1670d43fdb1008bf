//! The factory's records, configuration and queries.
use vstd::prelude::*;
use crate::common::{AddrInput, StdFailure, StdFailureView, Response, Ctx, text, decimal, decimal_string};
use crate::addr_map::AddrMap;
use crate::id_map::{IdMap, page};

verus! {

/// The claims a token's holders need: required topics, and the issuers
/// trusted for them with the topics of each.
#[derive(Debug)]
pub struct ClaimDetails {
    pub claim_topics: Vec<u32>,
    pub issuers: Vec<String>,
    pub issuer_claims: Vec<Vec<u32>>,
}

/// The factory's configuration.
#[derive(Debug)]
pub struct Config {
    pub admin: String,
    pub token_code_id: u64,
    pub ctr_code_id: u64,
    pub tir_code_id: u64,
    pub compliance_code_id: u64,
    pub ir_code_id: u64,
    pub identity_registry_storage: String,
    pub onchainid_code_id: u64,
    pub default_owner: String,
    pub default_issuer: String,
    pub default_controller: String,
}

/// A deployment in progress, with the addresses deployed so far.
#[derive(Debug)]
pub struct PendingDeployment {
    pub asset_id: u64,
    pub name: String,
    pub symbol: String,
    pub reference_id: String,
    pub description: String,
    pub legal_owner: String,
    pub metadata: Option<String>,
    pub deployed_at: u64,
    pub minting_cap: u128,
    pub claim_details: ClaimDetails,
    pub ctr_addr: Option<String>,
    pub tir_addr: Option<String>,
    pub ir_addr: Option<String>,
    pub compliance_addr: Option<String>,
}

/// A deployed token and the contracts deployed with it.
#[derive(Debug)]
pub struct TokenInfo {
    pub asset_id: u64,
    pub contract_address: String,
    pub name: String,
    pub symbol: String,
    pub reference_id: String,
    pub description: String,
    pub legal_owner: String,
    pub metadata: Option<String>,
    pub deployed_at: u64,
    pub identity_registry: String,
    pub trusted_issuers_registry: String,
    pub claim_topics_registry: String,
    pub compliance: String,
}

/// Errors of the factory.
#[derive(Debug)]
pub enum FactoryError {
    Std(StdFailure),
    Unauthorized,
    TokenNotFound { asset_id: u64 },
    AssetAlreadyTokenized { contract: String },
    InvalidCodeId,
}

pub enum FactoryErr {
    Std(StdFailureView),
    Unauthorized,
    TokenNotFound { asset_id: u64 },
    AssetAlreadyTokenized { contract: Seq<char> },
    InvalidCodeId,
}

impl View for FactoryError {
    type V = FactoryErr;

    open spec fn view(&self) -> FactoryErr {
        match self {
            FactoryError::Std(e) => FactoryErr::Std(e@),
            FactoryError::Unauthorized => FactoryErr::Unauthorized,
            FactoryError::TokenNotFound { asset_id } => FactoryErr::TokenNotFound { asset_id: *asset_id },
            FactoryError::AssetAlreadyTokenized { contract } => FactoryErr::AssetAlreadyTokenized {
                contract: contract@,
            },
            FactoryError::InvalidCodeId => FactoryErr::InvalidCodeId,
        }
    }
}

/// The instantiation message of a contract the factory deploys.
#[derive(Debug)]
pub enum InstantiateBody {
    ClaimTopics { owner: String, required_topics: Vec<u32> },
    TrustedIssuers { owner: String },
    IdentityRegistry {
        owner: String,
        trusted_issuers: Option<String>,
        claim_topics: Option<String>,
        identity_storage: Option<String>,
    },
    Compliance { owner: String, identity_registry: Option<String> },
    Token {
        name: String,
        symbol: String,
        decimals: u8,
        initial_balances: Vec<(String, u128)>,
        issuer: String,
        controller: String,
        owner: String,
        cap: Option<u128>,
        minting_cap: u128,
        require_kyc_for_transfer: Option<bool>,
        identity_registry: Option<String>,
        compliance: Option<String>,
    },
}

/// A contract instantiation whose reply comes back under `reply_id` when
/// it succeeds.
#[derive(Debug)]
pub struct Deploy {
    pub admin: String,
    pub code_id: u64,
    pub label: String,
    pub reply_id: u64,
    pub body: InstantiateBody,
}

pub type FactoryResponse = Response<Deploy>;

#[derive(Debug, PartialEq)]
pub struct ConfigResponse {
    pub admin: String,
    pub token_code_id: u64,
    pub ctr_code_id: u64,
    pub tir_code_id: u64,
    pub compliance_code_id: u64,
    pub ir_code_id: u64,
    pub identity_registry_storage: String,
    pub onchainid_code_id: u64,
    pub default_owner: String,
    pub default_issuer: String,
    pub default_controller: String,
}

#[derive(Debug, PartialEq)]
pub struct TokenInfoResponse {
    pub asset_id: u64,
    pub contract_address: String,
    pub name: String,
    pub symbol: String,
    pub reference_id: String,
    pub description: String,
    pub legal_owner: String,
    pub metadata: Option<String>,
    pub deployed_at: u64,
    pub identity_registry: String,
    pub trusted_issuers_registry: String,
    pub claim_topics_registry: String,
    pub compliance: String,
}

#[derive(Debug, PartialEq)]
pub struct AllTokensResponse {
    pub tokens: Vec<TokenInfoResponse>,
}

#[derive(Debug, PartialEq)]
pub struct AssetIdResponse {
    pub asset_id: u64,
}

/// The (empty) migration message.
#[derive(Debug, PartialEq)]
pub struct MigrateMsg {}

/// The instantiation message of the factory.
#[derive(Debug)]
pub struct InstantiateMsg {
    pub token_code_id: u64,
    pub ctr_code_id: u64,
    pub tir_code_id: u64,
    pub compliance_code_id: u64,
    pub ir_code_id: u64,
    pub identity_registry_storage: AddrInput,
    pub onchainid_code_id: u64,
    pub default_owner: AddrInput,
    pub default_issuer: AddrInput,
    pub default_controller: AddrInput,
}

/// The factory's state.
pub struct FactoryState {
    pub config: Config,
    pub token_seq: u64,
    pub pending: Option<PendingDeployment>,
    pub tokens: IdMap<TokenInfo>,
    pub token_to_asset: AddrMap<u64>,
}

/// The first rejected address among `addrs`, if any.
pub open spec fn first_rejected(addrs: Seq<AddrInput>) -> Option<StdFailure>
    decreases addrs.len(),
{
    if addrs.len() == 0 {
        None
    } else if !addrs[0].valid() {
        addrs[0].rejection
    } else {
        first_rejected(addrs.drop_first())
    }
}

pub open spec fn plain(resp: FactoryResponse, attrs: Seq<(Seq<char>, Seq<char>)>) -> bool {
    &&& resp.messages@.len() == 0
    &&& resp.evts().len() == 0
    &&& resp.attrs() == attrs
}

pub fn clone_opt(o: &Option<String>) -> (r: Option<String>)
    ensures
        r == *o,
{
    match o {
        Some(s) => Some(s.clone()),
        None => None,
    }
}

pub open spec fn token_answer(r: TokenInfoResponse, t: TokenInfo) -> bool {
    &&& r.asset_id == t.asset_id
    &&& r.contract_address == t.contract_address
    &&& r.name == t.name
    &&& r.symbol == t.symbol
    &&& r.reference_id == t.reference_id
    &&& r.description == t.description
    &&& r.legal_owner == t.legal_owner
    &&& r.metadata == t.metadata
    &&& r.deployed_at == t.deployed_at
    &&& r.identity_registry == t.identity_registry
    &&& r.trusted_issuers_registry == t.trusted_issuers_registry
    &&& r.claim_topics_registry == t.claim_topics_registry
    &&& r.compliance == t.compliance
}

fn token_response(t: &TokenInfo) -> (r: TokenInfoResponse)
    ensures
        token_answer(r, *t),
{
    TokenInfoResponse {
        asset_id: t.asset_id,
        contract_address: t.contract_address.clone(),
        name: t.name.clone(),
        symbol: t.symbol.clone(),
        reference_id: t.reference_id.clone(),
        description: t.description.clone(),
        legal_owner: t.legal_owner.clone(),
        metadata: clone_opt(&t.metadata),
        deployed_at: t.deployed_at,
        identity_registry: t.identity_registry.clone(),
        trusted_issuers_registry: t.trusted_issuers_registry.clone(),
        claim_topics_registry: t.claim_topics_registry.clone(),
        compliance: t.compliance.clone(),
    }
}

impl FactoryState {
    pub open spec fn wf(&self) -> bool {
        &&& self.tokens.wf()
        &&& self.token_to_asset.wf()
    }

    /// The lookup by contract agrees with the token records, the records'
    /// ids are all issued, and the deployment in progress (if any) has an
    /// issued id not yet recorded.
    pub open spec fn records_consistent(&self) -> bool {
        &&& forall|a: Seq<char>|
            #[trigger] self.token_to_asset@.contains_key(a) ==> self.tokens@.contains_key(
                self.token_to_asset@[a],
            ) && self.tokens@[self.token_to_asset@[a]].contract_address@ == a
        &&& forall|k: u64| #[trigger] self.tokens@.contains_key(k) ==> k <= self.token_seq
        &&& self.pending matches Some(p) ==> p.asset_id <= self.token_seq && !self.tokens@.contains_key(
            p.asset_id,
        )
    }

    /// Sets up the factory with the caller as admin.
    pub fn instantiate(ctx: &Ctx, msg: InstantiateMsg) -> (r: Result<(FactoryState, FactoryResponse), FactoryError>)
        ensures
            match r {
                Ok((s, resp)) => {
                    &&& first_rejected(
                        seq![msg.identity_registry_storage, msg.default_owner, msg.default_issuer, msg.default_controller],
                    ) is None
                    &&& s.wf() && s.records_consistent()
                    &&& s.config == Config {
                        admin: ctx.sender.text,
                        token_code_id: msg.token_code_id,
                        ctr_code_id: msg.ctr_code_id,
                        tir_code_id: msg.tir_code_id,
                        compliance_code_id: msg.compliance_code_id,
                        ir_code_id: msg.ir_code_id,
                        identity_registry_storage: msg.identity_registry_storage.text,
                        onchainid_code_id: msg.onchainid_code_id,
                        default_owner: msg.default_owner.text,
                        default_issuer: msg.default_issuer.text,
                        default_controller: msg.default_controller.text,
                    }
                    &&& s.token_seq == 0 && s.pending is None
                    &&& s.tokens@.is_empty() && s.token_to_asset@.is_empty()
                    &&& plain(
                        resp,
                        seq![
                            ("method"@, "instantiate"@),
                            ("admin"@, ctx.sender.text@),
                            ("token_code_id"@, decimal(msg.token_code_id as nat)),
                            ("ctr_code_id"@, decimal(msg.ctr_code_id as nat)),
                            ("tir_code_id"@, decimal(msg.tir_code_id as nat)),
                            ("compliance_code_id"@, decimal(msg.compliance_code_id as nat)),
                        ],
                    )
                },
                Err(e) => first_rejected(
                    seq![msg.identity_registry_storage, msg.default_owner, msg.default_issuer, msg.default_controller],
                ) matches Some(f) && e == FactoryError::Std(f),
            },
    {
        let ghost addrs = seq![msg.identity_registry_storage, msg.default_owner, msg.default_issuer, msg.default_controller];
        assert(addrs.drop_first() =~= seq![msg.default_owner, msg.default_issuer, msg.default_controller]);
        assert(addrs.drop_first().drop_first() =~= seq![msg.default_issuer, msg.default_controller]);
        assert(addrs.drop_first().drop_first().drop_first() =~= seq![msg.default_controller]);
        assert(addrs.drop_first().drop_first().drop_first().drop_first() =~= Seq::<AddrInput>::empty());
        proof {
            reveal_with_fuel(first_rejected, 5);
        }
        let irs = match msg.identity_registry_storage.check() {
            Ok(a) => a,
            Err(e) => return Err(FactoryError::Std(e)),
        };
        let owner = match msg.default_owner.check() {
            Ok(a) => a,
            Err(e) => return Err(FactoryError::Std(e)),
        };
        let issuer = match msg.default_issuer.check() {
            Ok(a) => a,
            Err(e) => return Err(FactoryError::Std(e)),
        };
        let controller = match msg.default_controller.check() {
            Ok(a) => a,
            Err(e) => return Err(FactoryError::Std(e)),
        };
        let config = Config {
            admin: ctx.sender.text.clone(),
            token_code_id: msg.token_code_id,
            ctr_code_id: msg.ctr_code_id,
            tir_code_id: msg.tir_code_id,
            compliance_code_id: msg.compliance_code_id,
            ir_code_id: msg.ir_code_id,
            identity_registry_storage: irs,
            onchainid_code_id: msg.onchainid_code_id,
            default_owner: owner,
            default_issuer: issuer,
            default_controller: controller,
        };
        let s = FactoryState {
            config,
            token_seq: 0,
            pending: None,
            tokens: IdMap::new(),
            token_to_asset: AddrMap::new(),
        };
        let mut resp: FactoryResponse = Response::new();
        resp.attr("method", text("instantiate"));
        resp.attr("admin", ctx.sender.text.clone());
        resp.attr("token_code_id", decimal_string(msg.token_code_id as u128));
        resp.attr("ctr_code_id", decimal_string(msg.ctr_code_id as u128));
        resp.attr("tir_code_id", decimal_string(msg.tir_code_id as u128));
        resp.attr("compliance_code_id", decimal_string(msg.compliance_code_id as u128));
        assert(resp.attrs() =~= seq![
            ("method"@, "instantiate"@),
            ("admin"@, ctx.sender.text@),
            ("token_code_id"@, decimal(msg.token_code_id as nat)),
            ("ctr_code_id"@, decimal(msg.ctr_code_id as nat)),
            ("tir_code_id"@, decimal(msg.tir_code_id as nat)),
            ("compliance_code_id"@, decimal(msg.compliance_code_id as nat)),
        ]);
        Ok((s, resp))
    }

    /// The configuration.
    pub fn config_info(&self) -> (r: ConfigResponse)
        ensures
            r.admin == self.config.admin,
            r.token_code_id == self.config.token_code_id,
            r.ctr_code_id == self.config.ctr_code_id,
            r.tir_code_id == self.config.tir_code_id,
            r.compliance_code_id == self.config.compliance_code_id,
            r.ir_code_id == self.config.ir_code_id,
            r.identity_registry_storage == self.config.identity_registry_storage,
            r.onchainid_code_id == self.config.onchainid_code_id,
            r.default_owner == self.config.default_owner,
            r.default_issuer == self.config.default_issuer,
            r.default_controller == self.config.default_controller,
    {
        let c = &self.config;
        ConfigResponse {
            admin: c.admin.clone(),
            token_code_id: c.token_code_id,
            ctr_code_id: c.ctr_code_id,
            tir_code_id: c.tir_code_id,
            compliance_code_id: c.compliance_code_id,
            ir_code_id: c.ir_code_id,
            identity_registry_storage: c.identity_registry_storage.clone(),
            onchainid_code_id: c.onchainid_code_id,
            default_owner: c.default_owner.clone(),
            default_issuer: c.default_issuer.clone(),
            default_controller: c.default_controller.clone(),
        }
    }

    /// The token deployed for `asset_id`.
    pub fn token(&self, asset_id: u64) -> (r: Result<TokenInfoResponse, StdFailure>)
        requires
            self.wf(),
        ensures
            match r {
                Ok(v) => self.tokens@.contains_key(asset_id) && token_answer(v, self.tokens@[asset_id]),
                Err(e) => !self.tokens@.contains_key(asset_id) && (e matches StdFailure::NotFound(k) && k@
                    == "token"@),
            },
    {
        match self.tokens.get(asset_id) {
            Some(t) => Ok(token_response(t)),
            None => Err(StdFailure::NotFound(text("token"))),
        }
    }

    /// Tokens with asset ids after `start_after` (default: all), in id
    /// order, at most `limit` of them (default 30, at most 100).
    pub fn all_tokens(&self, start_after: Option<u64>, limit: Option<u32>) -> (r: AllTokensResponse)
        requires
            self.wf(),
            start_after != Some(u64::MAX),
        ensures
            ({
                let pg = page(
                    self.tokens.pairs(),
                    match start_after {
                        Some(s) => s,
                        None => 0,
                    },
                    crate::token::queries::page_limit(limit, 30),
                );
                r.tokens@.len() == pg.len() && forall|j: int|
                    0 <= j < pg.len() ==> token_answer(#[trigger] r.tokens@[j], pg[j].1)
            }),
    {
        let start = match start_after {
            Some(s) => s,
            None => 0,
        };
        let l = match limit {
            Some(l) => l,
            None => 30,
        };
        let lim: usize = if l < 100 { l as usize } else { 100 };
        let (lo, hi) = self.tokens.page_bounds(start, lim);
        let ghost s = self.tokens.pairs();
        let ghost pg = page(s, start, lim as nat);
        let mut out: Vec<TokenInfoResponse> = Vec::new();
        let mut i: usize = lo;
        while i < hi
            invariant
                s == self.tokens.pairs(),
                pg == s.subrange(lo as int, hi as int),
                lo <= i <= hi,
                hi <= s.len(),
                out@.len() == i - lo,
                forall|j: int| 0 <= j < out@.len() ==> token_answer(#[trigger] out@[j], pg[j].1),
            decreases hi - i,
        {
            let (_, t) = self.tokens.entry(i);
            out.push(token_response(t));
            i = i + 1;
        }
        AllTokensResponse { tokens: out }
    }

    /// The asset id of the token deployed at `contract`.
    pub fn asset_id_by_contract(&self, contract: &AddrInput) -> (r: Result<AssetIdResponse, StdFailure>)
        requires
            self.wf(),
        ensures
            match r {
                Ok(v) => contract.valid() && self.token_to_asset@.contains_key(contract.text@) && v.asset_id
                    == self.token_to_asset@[contract.text@],
                Err(e) => if !contract.valid() {
                    contract.rejection == Some(e)
                } else {
                    !self.token_to_asset@.contains_key(contract.text@) && (e matches StdFailure::NotFound(k)
                        && k@ == "token"@)
                },
            },
    {
        let a = contract.check()?;
        match self.token_to_asset.get(&a) {
            Some(id) => Ok(AssetIdResponse { asset_id: *id }),
            None => Err(StdFailure::NotFound(text("token"))),
        }
    }

    /// Admin only: hands the admin role to `new_admin`.
    pub fn update_admin(&mut self, ctx: &Ctx, new_admin: AddrInput) -> (r: Result<FactoryResponse, FactoryError>)
        ensures
            match r {
                Ok(resp) => ctx.sender.text@ == old(self).config.admin@ && new_admin.valid() && *final(self)
                    == (FactoryState { config: Config { admin: new_admin.text, ..old(self).config }, ..*old(self) })
                    && plain(resp, seq![("method"@, "update_admin"@), ("new_admin"@, new_admin.text@)]),
                Err(e) => *final(self) == *old(self) && if ctx.sender.text@ != old(self).config.admin@ {
                    e@ == FactoryErr::Unauthorized
                } else {
                    !new_admin.valid() && e@ == FactoryErr::Std(new_admin.rejection->0@)
                },
            },
    {
        if ctx.sender.text != self.config.admin {
            return Err(FactoryError::Unauthorized);
        }
        let a = match new_admin.check() {
            Ok(a) => a,
            Err(e) => return Err(FactoryError::Std(e)),
        };
        self.config.admin = a;
        let ghost nv = new_admin.text@;
        let mut resp: FactoryResponse = Response::new();
        resp.attr("method", text("update_admin"));
        resp.attr("new_admin", new_admin.text);
        assert(resp.attrs() =~= seq![("method"@, "update_admin"@), ("new_admin"@, nv)]);
        Ok(resp)
    }
}

} // verus!
