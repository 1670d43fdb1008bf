//! Creating a token: the chain of deployments, each started on the reply
//! to the previous one, and the configuration that drives it.
use vstd::prelude::*;
use crate::common::{AddrInput, StdFailure, Response, Ctx, Event, Attribute, text, join, decimal, decimal_string};
use crate::factory::state::{
    FactoryState, FactoryError, FactoryErr, FactoryResponse, Config, PendingDeployment, TokenInfo,
    ClaimDetails, Deploy, InstantiateBody, first_rejected, plain, clone_opt,
};

verus! {

/// Reply ids of the deployments, in the order they happen.
pub const REPLY_CTR: u64 = 1;
pub const REPLY_TIR: u64 = 2;
pub const REPLY_IR: u64 = 3;
pub const REPLY_COMPLIANCE: u64 = 4;
pub const REPLY_TOKEN: u64 = 5;

/// What `CreateToken` asks for.
#[derive(Debug)]
pub struct CreateTokenMsg {
    pub reference_id: String,
    pub name: String,
    pub symbol: String,
    pub decimals: u8,
    pub description: String,
    pub legal_owner: AddrInput,
    pub metadata: Option<String>,
    pub initial_supply: Option<u128>,
    pub initial_holder: Option<String>,
    pub minting_cap: u128,
    pub claim_details: ClaimDetails,
}

/// What `UpdateConfig` changes: each field given replaces the current one.
#[derive(Debug)]
pub struct ConfigUpdate {
    pub token_code_id: Option<u64>,
    pub ctr_code_id: Option<u64>,
    pub tir_code_id: Option<u64>,
    pub compliance_code_id: Option<u64>,
    pub ir_code_id: Option<u64>,
    pub identity_registry_storage: Option<AddrInput>,
    pub onchainid_code_id: Option<u64>,
    pub default_owner: Option<AddrInput>,
    pub default_issuer: Option<AddrInput>,
    pub default_controller: Option<AddrInput>,
}

pub open spec fn given(o: Option<AddrInput>) -> Seq<AddrInput> {
    match o {
        Some(a) => seq![a],
        None => seq![],
    }
}

/// The addresses an update gives, in the order they are checked.
pub open spec fn update_addresses(u: ConfigUpdate) -> Seq<AddrInput> {
    given(u.identity_registry_storage) + given(u.default_owner) + given(u.default_issuer) + given(
        u.default_controller,
    )
}

pub open spec fn pick(o: Option<u64>, d: u64) -> u64 {
    match o {
        Some(v) => v,
        None => d,
    }
}

pub open spec fn pick_addr(o: Option<AddrInput>, d: String) -> String {
    match o {
        Some(a) => a.text,
        None => d,
    }
}

/// The configuration after `u`.
pub open spec fn updated(c: Config, u: ConfigUpdate) -> Config {
    Config {
        admin: c.admin,
        token_code_id: pick(u.token_code_id, c.token_code_id),
        ctr_code_id: pick(u.ctr_code_id, c.ctr_code_id),
        tir_code_id: pick(u.tir_code_id, c.tir_code_id),
        compliance_code_id: pick(u.compliance_code_id, c.compliance_code_id),
        ir_code_id: pick(u.ir_code_id, c.ir_code_id),
        identity_registry_storage: pick_addr(u.identity_registry_storage, c.identity_registry_storage),
        onchainid_code_id: pick(u.onchainid_code_id, c.onchainid_code_id),
        default_owner: pick_addr(u.default_owner, c.default_owner),
        default_issuer: pick_addr(u.default_issuer, c.default_issuer),
        default_controller: pick_addr(u.default_controller, c.default_controller),
    }
}

/// `evs[i]` is the first event of type "instantiate".
pub open spec fn first_instantiate(evs: Seq<Event>, i: int) -> bool {
    &&& 0 <= i < evs.len()
    &&& evs[i].ty@ == "instantiate"@
    &&& forall|k: int| 0 <= k < i ==> (#[trigger] evs[k]).ty@ != "instantiate"@
}

/// `attrs[j]` is the first attribute with key "_contract_address".
pub open spec fn first_address_attr(attrs: Seq<Attribute>, j: int) -> bool {
    &&& 0 <= j < attrs.len()
    &&& attrs[j].key@ == "_contract_address"@
    &&& forall|k: int| 0 <= k < j ==> (#[trigger] attrs[k]).key@ != "_contract_address"@
}

/// The "_contract_address" attribute of the first "instantiate" event.
pub open spec fn contract_address(evs: Seq<Event>) -> Option<Seq<char>> {
    if exists|i: int| first_instantiate(evs, i) {
        let i = choose|i: int| first_instantiate(evs, i);
        let attrs = evs[i].attributes@;
        if exists|j: int| first_address_attr(attrs, j) {
            Some(attrs[choose|j: int| first_address_attr(attrs, j)].value@)
        } else {
            None
        }
    } else {
        None
    }
}

/// The address a reply reports, or the message of the failure.
pub open spec fn extracted(result: Result<Vec<Event>, String>) -> Result<Seq<char>, Seq<char>> {
    match result {
        Err(e) => Err("Submessage failed: "@ + e@),
        Ok(evs) => match contract_address(evs@) {
            Some(a) => Ok(a),
            None => Err("Contract address not found in reply"@),
        },
    }
}

/// The address deployed, as a reply reports it.
pub fn extract_contract_address(result: &Result<Vec<Event>, String>) -> (r: Result<String, FactoryError>)
    ensures
        match r {
            Ok(a) => extracted(*result) == Ok::<Seq<char>, Seq<char>>(a@),
            Err(e) => extracted(*result) is Err && e == FactoryError::Std(StdFailure::Generic(e->Std_0->Generic_0))
                && extracted(*result) == Err::<Seq<char>, Seq<char>>(e->Std_0->Generic_0@),
        },
{
    let evs = match result {
        Ok(evs) => evs,
        Err(e) => return Err(FactoryError::Std(StdFailure::Generic(join("Submessage failed: ", e.as_str())))),
    };
    let not_found = "Contract address not found in reply";
    let inst = text("instantiate");
    let key = text("_contract_address");
    let mut i: usize = 0;
    while i < evs.len()
        invariant
            inst@ == "instantiate"@,
            i <= evs@.len(),
            forall|k: int| 0 <= k < i ==> (#[trigger] evs@[k]).ty@ != "instantiate"@,
        ensures
            i <= evs@.len(),
            forall|k: int| 0 <= k < i ==> (#[trigger] evs@[k]).ty@ != "instantiate"@,
            i < evs@.len() ==> evs@[i as int].ty@ == "instantiate"@,
        decreases evs@.len() - i,
    {
        if evs[i].ty == inst {
            break;
        }
        i = i + 1;
    }
    if i == evs.len() {
        proof {
            if exists|x: int| first_instantiate(evs@, x) {
                let x = choose|x: int| first_instantiate(evs@, x);
                assert(evs@[x].ty@ != "instantiate"@);
            }
        }
        return Err(FactoryError::Std(StdFailure::Generic(text(not_found))));
    }
    assert(first_instantiate(evs@, i as int));
    proof {
        let x = choose|x: int| first_instantiate(evs@, x);
        if x < i {
            assert(evs@[x].ty@ != "instantiate"@);
        }
        if x > i {
            assert(evs@[i as int].ty@ != "instantiate"@);
        }
    }
    let attrs = &evs[i].attributes;
    let mut j: usize = 0;
    while j < attrs.len()
        invariant
            key@ == "_contract_address"@,
            j <= attrs@.len(),
            forall|k: int| 0 <= k < j ==> (#[trigger] attrs@[k]).key@ != "_contract_address"@,
        ensures
            j <= attrs@.len(),
            forall|k: int| 0 <= k < j ==> (#[trigger] attrs@[k]).key@ != "_contract_address"@,
            j < attrs@.len() ==> attrs@[j as int].key@ == "_contract_address"@,
        decreases attrs@.len() - j,
    {
        if attrs[j].key == key {
            break;
        }
        j = j + 1;
    }
    if j == attrs.len() {
        proof {
            if exists|y: int| first_address_attr(attrs@, y) {
                let y = choose|y: int| first_address_attr(attrs@, y);
                assert(attrs@[y].key@ != "_contract_address"@);
            }
        }
        return Err(FactoryError::Std(StdFailure::Generic(text(not_found))));
    }
    assert(first_address_attr(attrs@, j as int));
    proof {
        let y = choose|y: int| first_address_attr(attrs@, y);
        if y < j {
            assert(attrs@[y].key@ != "_contract_address"@);
        }
        if y > j {
            assert(attrs@[j as int].key@ != "_contract_address"@);
        }
    }
    Ok(attrs[j].value.clone())
}

fn copy_topics(v: &Vec<u32>) -> (r: Vec<u32>)
    ensures
        r@ == v@,
{
    let mut out: Vec<u32> = Vec::new();
    let mut i: usize = 0;
    while i < v.len()
        invariant
            i <= v@.len(),
            out@ == v@.take(i as int),
        decreases v@.len() - i,
    {
        out.push(v[i]);
        assert(out@ =~= v@.take(i + 1));
        i = i + 1;
    }
    assert(v@.take(v@.len() as int) =~= v@);
    out
}

/// The label of a deployment: a prefix and the asset id.
fn label(prefix: &str, id: u64) -> (r: String)
    ensures
        r@ == prefix@ + decimal(id as nat),
{
    let d = decimal_string(id as u128);
    join(prefix, d.as_str())
}

/// The pending deployment's fields a reply needs are there.
pub open spec fn reply_ready(s: FactoryState, id: u64, result: Result<Vec<Event>, String>) -> bool {
    (extracted(result) is Ok && s.pending is Some) ==> match s.pending {
        Some(p) => if id == REPLY_TIR {
            p.ctr_addr is Some
        } else if id == REPLY_COMPLIANCE {
            p.ir_addr is Some
        } else if id == REPLY_TOKEN {
            p.ctr_addr is Some && p.tir_addr is Some && p.ir_addr is Some && p.compliance_addr is Some
        } else {
            true
        },
        None => true,
    }
}

/// Tells whether `reply` may run on this state, reply id and result.
pub fn reply_ready_for(s: &FactoryState, id: u64, result: &Result<Vec<Event>, String>) -> (b: bool)
    ensures
        b == reply_ready(*s, id, *result),
{
    let found = match extract_contract_address(result) {
        Ok(_) => true,
        Err(_) => false,
    };
    if !found {
        return true;
    }
    match &s.pending {
        None => true,
        Some(p) => if id == REPLY_TIR {
            p.ctr_addr.is_some()
        } else if id == REPLY_COMPLIANCE {
            p.ir_addr.is_some()
        } else if id == REPLY_TOKEN {
            p.ctr_addr.is_some() && p.tir_addr.is_some() && p.ir_addr.is_some() && p.compliance_addr.is_some()
        } else {
            true
        },
    }
}

/// The one deployment a response starts.
pub open spec fn deploys(resp: FactoryResponse, admin: String, code_id: u64, label: Seq<char>, reply_id: u64, body: InstantiateBody) -> bool {
    &&& resp.evts().len() == 0
    &&& resp.messages@.len() == 1
    &&& resp.messages@[0].admin == admin
    &&& resp.messages@[0].code_id == code_id
    &&& resp.messages@[0].label@ == label
    &&& resp.messages@[0].reply_id == reply_id
    &&& resp.messages@[0].body == body
}

impl FactoryState {
    /// Admin only: replaces the configuration fields the update gives; the
    /// addresses given must all be accepted by the chain.
    #[verifier::rlimit(80)]
    #[verifier::spinoff_prover]
    pub fn update_config(&mut self, ctx: &Ctx, u: ConfigUpdate) -> (r: Result<FactoryResponse, FactoryError>)
        requires
            old(self).wf(),
        ensures
            final(self).wf(),
            match r {
                Ok(resp) => ctx.sender.text@ == old(self).config.admin@ && first_rejected(update_addresses(u))
                    is None && *final(self) == (FactoryState { config: updated(old(self).config, u), ..*old(self) })
                    && plain(resp, seq![("method"@, "update_config"@)]),
                Err(e) => *final(self) == *old(self) && if ctx.sender.text@ != old(self).config.admin@ {
                    e@ == FactoryErr::Unauthorized
                } else {
                    first_rejected(update_addresses(u)) matches Some(f) && e == FactoryError::Std(f)
                },
            },
    {
        if ctx.sender.text != self.config.admin {
            return Err(FactoryError::Unauthorized);
        }
        let ghost all = update_addresses(u);
        proof {
            reveal_with_fuel(first_rejected, 5);
            assert(given(u.identity_registry_storage) + given(u.default_owner) + given(u.default_issuer) + given(
                u.default_controller,
            ) == all);
        }
        let irs = match &u.identity_registry_storage {
            Some(a) => match a.check() {
                Ok(v) => v,
                Err(e) => {
                    assert(all[0] == *a);
                    return Err(FactoryError::Std(e));
                },
            },
            None => self.config.identity_registry_storage.clone(),
        };
        let ghost rest1 = given(u.default_owner) + given(u.default_issuer) + given(u.default_controller);
        assert(first_rejected(all) == first_rejected(rest1)) by {
            if u.identity_registry_storage is Some {
                assert(all.drop_first() =~= rest1);
            } else {
                assert(all =~= rest1);
            }
        }
        let owner = match &u.default_owner {
            Some(a) => match a.check() {
                Ok(v) => v,
                Err(e) => {
                    assert(rest1[0] == *a);
                    return Err(FactoryError::Std(e));
                },
            },
            None => self.config.default_owner.clone(),
        };
        let ghost rest2 = given(u.default_issuer) + given(u.default_controller);
        assert(first_rejected(rest1) == first_rejected(rest2)) by {
            if u.default_owner is Some {
                assert(rest1.drop_first() =~= rest2);
            } else {
                assert(rest1 =~= rest2);
            }
        }
        let issuer = match &u.default_issuer {
            Some(a) => match a.check() {
                Ok(v) => v,
                Err(e) => {
                    assert(rest2[0] == *a);
                    return Err(FactoryError::Std(e));
                },
            },
            None => self.config.default_issuer.clone(),
        };
        let ghost rest3 = given(u.default_controller);
        assert(first_rejected(rest2) == first_rejected(rest3)) by {
            if u.default_issuer is Some {
                assert(rest2.drop_first() =~= rest3);
            } else {
                assert(rest2 =~= rest3);
            }
        }
        let controller = match &u.default_controller {
            Some(a) => match a.check() {
                Ok(v) => v,
                Err(e) => {
                    assert(rest3[0] == *a);
                    return Err(FactoryError::Std(e));
                },
            },
            None => self.config.default_controller.clone(),
        };
        assert(first_rejected(rest3) is None) by {
            if u.default_controller is Some {
                assert(rest3.drop_first() =~= Seq::<AddrInput>::empty());
            }
        }
        let c = &self.config;
        let config = Config {
            admin: c.admin.clone(),
            token_code_id: match u.token_code_id {
                Some(v) => v,
                None => c.token_code_id,
            },
            ctr_code_id: match u.ctr_code_id {
                Some(v) => v,
                None => c.ctr_code_id,
            },
            tir_code_id: match u.tir_code_id {
                Some(v) => v,
                None => c.tir_code_id,
            },
            compliance_code_id: match u.compliance_code_id {
                Some(v) => v,
                None => c.compliance_code_id,
            },
            ir_code_id: match u.ir_code_id {
                Some(v) => v,
                None => c.ir_code_id,
            },
            identity_registry_storage: irs,
            onchainid_code_id: match u.onchainid_code_id {
                Some(v) => v,
                None => c.onchainid_code_id,
            },
            default_owner: owner,
            default_issuer: issuer,
            default_controller: controller,
        };
        self.config = config;
        let mut resp: FactoryResponse = Response::new();
        resp.attr("method", text("update_config"));
        assert(resp.attrs() =~= seq![("method"@, "update_config"@)]);
        Ok(resp)
    }

    /// Admin only: starts deploying a token for a new asset: records the
    /// deployment as pending under the next asset id and deploys its claim
    /// topics registry. The decimals, initial supply and initial holder are
    /// accepted and not used.
    pub fn create_token(&mut self, ctx: &Ctx, height: u64, req: CreateTokenMsg) -> (r: Result<FactoryResponse, FactoryError>)
        requires
            ctx.sender.text@ == old(self).config.admin@ ==> old(self).token_seq < u64::MAX,
            old(self).wf(),
        ensures
            final(self).wf(),
            old(self).records_consistent() ==> final(self).records_consistent(),
            match r {
                Ok(resp) => {
                    let id = (old(self).token_seq + 1) as u64;
                    let c = old(self).config;
                    &&& ctx.sender.text@ == c.admin@ && req.legal_owner.valid()
                    &&& *final(self) == (FactoryState {
                        token_seq: id,
                        pending: Some(
                            PendingDeployment {
                                asset_id: id,
                                name: req.name,
                                symbol: req.symbol,
                                reference_id: req.reference_id,
                                description: req.description,
                                legal_owner: req.legal_owner.text,
                                metadata: req.metadata,
                                deployed_at: height,
                                minting_cap: req.minting_cap,
                                claim_details: req.claim_details,
                                ctr_addr: None,
                                tir_addr: None,
                                ir_addr: None,
                                compliance_addr: None,
                            },
                        ),
                        ..*old(self)
                    })
                    &&& resp.messages@.len() == 1 && resp.evts().len() == 0
                    &&& resp.messages@[0].admin == c.admin
                    &&& resp.messages@[0].code_id == c.ctr_code_id
                    &&& resp.messages@[0].label@ == "CTR-"@ + decimal(id as nat)
                    &&& resp.messages@[0].reply_id == REPLY_CTR
                    &&& resp.messages@[0].body matches InstantiateBody::ClaimTopics { owner, required_topics }
                    &&& owner == c.default_owner && required_topics@ == req.claim_details.claim_topics@
                    &&& resp.attrs() == seq![
                        ("method"@, "create_token"@),
                        ("asset_id"@, decimal(id as nat)),
                        ("reference_id"@, req.reference_id@),
                    ]
                },
                Err(e) => *final(self) == *old(self) && if ctx.sender.text@ != old(self).config.admin@ {
                    e@ == FactoryErr::Unauthorized
                } else {
                    !req.legal_owner.valid() && e == FactoryError::Std(req.legal_owner.rejection->0)
                },
            },
    {
        if ctx.sender.text != self.config.admin {
            return Err(FactoryError::Unauthorized);
        }
        let seq = self.token_seq + 1;
        let legal_owner = match req.legal_owner.check() {
            Ok(a) => a,
            Err(e) => return Err(FactoryError::Std(e)),
        };
        self.token_seq = seq;
        let topics = copy_topics(&req.claim_details.claim_topics);
        let reference_shown = req.reference_id.clone();
        self.pending = Some(
            PendingDeployment {
                asset_id: seq,
                name: req.name,
                symbol: req.symbol,
                reference_id: req.reference_id,
                description: req.description,
                legal_owner,
                metadata: req.metadata,
                deployed_at: height,
                minting_cap: req.minting_cap,
                claim_details: req.claim_details,
                ctr_addr: None,
                tir_addr: None,
                ir_addr: None,
                compliance_addr: None,
            },
        );
        let ghost rv = reference_shown@;
        let mut resp: FactoryResponse = Response::new();
        resp.msg(
            Deploy {
                admin: self.config.admin.clone(),
                code_id: self.config.ctr_code_id,
                label: label("CTR-", seq),
                reply_id: REPLY_CTR,
                body: InstantiateBody::ClaimTopics { owner: self.config.default_owner.clone(), required_topics: topics },
            },
        );
        resp.attr("method", text("create_token"));
        resp.attr("asset_id", decimal_string(seq as u128));
        resp.attr("reference_id", reference_shown);
        assert(resp.attrs() =~= seq![
            ("method"@, "create_token"@),
            ("asset_id"@, decimal(seq as nat)),
            ("reference_id"@, rv),
        ]);
        Ok(resp)
    }
}


impl FactoryState {
    fn take_pending(&mut self) -> (r: Result<PendingDeployment, FactoryError>)
        ensures
            match r {
                Ok(p) => old(self).pending == Some(p) && *final(self) == (FactoryState { pending: None, ..*old(self) }),
                Err(e) => old(self).pending is None && *final(self) == *old(self) && (e matches FactoryError::Std(
                    StdFailure::NotFound(k),
                ) && k@ == "pending"@),
            },
    {
        match self.pending.take() {
            Some(p) => Ok(p),
            None => Err(FactoryError::Std(StdFailure::NotFound(text("pending")))),
        }
    }

    /// Goes on with the deployment that the reply `id` reports on: records
    /// the address deployed and deploys the next contract, or, on the
    /// token's reply, records the token and clears the pending deployment.
    pub fn reply(&mut self, id: u64, result: Result<Vec<Event>, String>) -> (r: Result<FactoryResponse, FactoryError>)
        requires
            old(self).wf(),
            reply_ready(*old(self), id, result),
        ensures
            final(self).wf(),
            old(self).records_consistent() ==> final(self).records_consistent(),
            match r {
                Err(e) => *final(self) == *old(self) && if !(REPLY_CTR <= id <= REPLY_TOKEN) {
                    e matches FactoryError::Std(StdFailure::Generic(m)) && m@ == "Unknown reply ID"@
                } else if extracted(result) is Err {
                    e matches FactoryError::Std(StdFailure::Generic(m)) && Err::<Seq<char>, Seq<char>>(m@)
                        == extracted(result)
                } else {
                    old(self).pending is None && (e matches FactoryError::Std(StdFailure::NotFound(k)) && k@
                        == "pending"@)
                },
                Ok(resp) => {
                    let a = extracted(result)->Ok_0;
                    let p = old(self).pending->0;
                    let c = old(self).config;
                    &&& REPLY_CTR <= id <= REPLY_TOKEN && extracted(result) is Ok && old(self).pending is Some
                    &&& final(self).config == c && final(self).token_seq == old(self).token_seq
                    &&& if id == REPLY_CTR {
                        &&& final(self).pending matches Some(q) && q == (PendingDeployment {
                            ctr_addr: q.ctr_addr,
                            ..p
                        }) && (q.ctr_addr matches Some(x) && x@ == a)
                        &&& final(self).tokens == old(self).tokens && final(self).token_to_asset == old(self).token_to_asset
                        &&& deploys(resp, c.admin, c.tir_code_id, "TIR-"@ + decimal(p.asset_id as nat), REPLY_TIR,
                            InstantiateBody::TrustedIssuers { owner: c.default_owner })
                        &&& resp.attrs() == seq![("ctr_deployed"@, a)]
                    } else if id == REPLY_TIR {
                        &&& final(self).pending matches Some(q) && q == (PendingDeployment {
                            tir_addr: q.tir_addr,
                            ..p
                        }) && (q.tir_addr matches Some(x) && x@ == a)
                        &&& final(self).tokens == old(self).tokens && final(self).token_to_asset == old(self).token_to_asset
                        &&& resp.evts().len() == 0 && resp.messages@.len() == 1
                        &&& resp.messages@[0].admin == c.admin && resp.messages@[0].code_id == c.ir_code_id
                        &&& resp.messages@[0].label@ == "IR-"@ + decimal(p.asset_id as nat)
                        &&& resp.messages@[0].reply_id == REPLY_IR
                        &&& resp.messages@[0].body matches InstantiateBody::IdentityRegistry {
                            owner,
                            trusted_issuers: Some(tir),
                            claim_topics,
                            identity_storage,
                        } && owner == c.default_owner && tir@ == a && claim_topics == p.ctr_addr
                            && identity_storage == Some(c.identity_registry_storage)
                        &&& resp.attrs() == seq![("tir_deployed"@, a)]
                    } else if id == REPLY_IR {
                        &&& final(self).pending matches Some(q) && q == (PendingDeployment {
                            ir_addr: q.ir_addr,
                            ..p
                        }) && (q.ir_addr matches Some(x) && x@ == a)
                        &&& final(self).tokens == old(self).tokens && final(self).token_to_asset == old(self).token_to_asset
                        &&& resp.evts().len() == 0 && resp.messages@.len() == 1
                        &&& resp.messages@[0].admin == c.admin && resp.messages@[0].code_id == c.compliance_code_id
                        &&& resp.messages@[0].label@ == "COMPLIANCE-"@ + decimal(p.asset_id as nat)
                        &&& resp.messages@[0].reply_id == REPLY_COMPLIANCE
                        &&& resp.messages@[0].body matches InstantiateBody::Compliance { owner, identity_registry: Some(ir) }
                            && owner == c.default_owner && ir@ == a
                        &&& resp.attrs() == seq![("ir_deployed"@, a), ("action"@, "bind_ir_to_irs_required"@)]
                    } else if id == REPLY_COMPLIANCE {
                        &&& final(self).pending matches Some(q) && q == (PendingDeployment {
                            compliance_addr: q.compliance_addr,
                            ..p
                        }) && (q.compliance_addr matches Some(x) && x@ == a)
                        &&& final(self).tokens == old(self).tokens && final(self).token_to_asset == old(self).token_to_asset
                        &&& resp.evts().len() == 0 && resp.messages@.len() == 1
                        &&& resp.messages@[0].admin == c.admin && resp.messages@[0].code_id == c.token_code_id
                        &&& resp.messages@[0].label@ == "TOKEN-"@ + decimal(p.asset_id as nat)
                        &&& resp.messages@[0].reply_id == REPLY_TOKEN
                        &&& resp.messages@[0].body matches InstantiateBody::Token {
                            name,
                            symbol,
                            decimals,
                            initial_balances,
                            issuer,
                            controller,
                            owner,
                            cap,
                            minting_cap,
                            require_kyc_for_transfer,
                            identity_registry,
                            compliance: Some(comp),
                        } && name == p.name && symbol == p.symbol && decimals == 6 && initial_balances@.len() == 0
                            && issuer == c.default_issuer && controller == c.default_controller && owner
                            == c.default_owner && cap is None && minting_cap == p.minting_cap
                            && require_kyc_for_transfer == Some(true) && identity_registry == p.ir_addr && comp@ == a
                        &&& resp.attrs() == seq![("compliance_deployed"@, a)]
                    } else {
                        &&& final(self).pending is None
                        &&& final(self).tokens@ == old(self).tokens@.insert(
                            p.asset_id,
                            TokenInfo {
                                asset_id: p.asset_id,
                                contract_address: final(self).tokens@[p.asset_id].contract_address,
                                name: p.name,
                                symbol: p.symbol,
                                reference_id: p.reference_id,
                                description: p.description,
                                legal_owner: p.legal_owner,
                                metadata: p.metadata,
                                deployed_at: p.deployed_at,
                                identity_registry: p.ir_addr->0,
                                trusted_issuers_registry: p.tir_addr->0,
                                claim_topics_registry: p.ctr_addr->0,
                                compliance: p.compliance_addr->0,
                            },
                        )
                        &&& final(self).tokens@[p.asset_id].contract_address@ == a
                        &&& final(self).token_to_asset@ == old(self).token_to_asset@.insert(a, p.asset_id)
                        &&& plain(resp, seq![("token_deployed"@, a), ("asset_id"@, decimal(p.asset_id as nat))])
                    }
                },
            },
    {
        if id < REPLY_CTR || id > REPLY_TOKEN {
            return Err(FactoryError::Std(StdFailure::Generic(text("Unknown reply ID"))));
        }
        let a = extract_contract_address(&result)?;
        let mut p = self.take_pending()?;
        let c = &self.config;
        if id == REPLY_CTR {
            p.ctr_addr = Some(a.clone());
            let asset = p.asset_id;
            self.pending = Some(p);
            let mut resp: FactoryResponse = Response::new();
            resp.msg(
                Deploy {
                    admin: self.config.admin.clone(),
                    code_id: self.config.tir_code_id,
                    label: label("TIR-", asset),
                    reply_id: REPLY_TIR,
                    body: InstantiateBody::TrustedIssuers { owner: self.config.default_owner.clone() },
                },
            );
            let ghost av = a@;
            resp.attr("ctr_deployed", a);
            assert(resp.attrs() =~= seq![("ctr_deployed"@, av)]);
            Ok(resp)
        } else if id == REPLY_TIR {
            p.tir_addr = Some(a.clone());
            let asset = p.asset_id;
            let ctr = clone_opt(&p.ctr_addr);
            self.pending = Some(p);
            let mut resp: FactoryResponse = Response::new();
            resp.msg(
                Deploy {
                    admin: self.config.admin.clone(),
                    code_id: self.config.ir_code_id,
                    label: label("IR-", asset),
                    reply_id: REPLY_IR,
                    body: InstantiateBody::IdentityRegistry {
                        owner: self.config.default_owner.clone(),
                        trusted_issuers: Some(a.clone()),
                        claim_topics: ctr,
                        identity_storage: Some(self.config.identity_registry_storage.clone()),
                    },
                },
            );
            let ghost av = a@;
            resp.attr("tir_deployed", a);
            assert(resp.attrs() =~= seq![("tir_deployed"@, av)]);
            Ok(resp)
        } else if id == REPLY_IR {
            p.ir_addr = Some(a.clone());
            let asset = p.asset_id;
            self.pending = Some(p);
            let mut resp: FactoryResponse = Response::new();
            resp.msg(
                Deploy {
                    admin: self.config.admin.clone(),
                    code_id: self.config.compliance_code_id,
                    label: label("COMPLIANCE-", asset),
                    reply_id: REPLY_COMPLIANCE,
                    body: InstantiateBody::Compliance {
                        owner: self.config.default_owner.clone(),
                        identity_registry: Some(a.clone()),
                    },
                },
            );
            let ghost av = a@;
            resp.attr("ir_deployed", a);
            resp.attr("action", text("bind_ir_to_irs_required"));
            assert(resp.attrs() =~= seq![("ir_deployed"@, av), ("action"@, "bind_ir_to_irs_required"@)]);
            Ok(resp)
        } else if id == REPLY_COMPLIANCE {
            p.compliance_addr = Some(a.clone());
            let asset = p.asset_id;
            let name = p.name.clone();
            let symbol = p.symbol.clone();
            let cap = p.minting_cap;
            let ir = clone_opt(&p.ir_addr);
            self.pending = Some(p);
            let mut resp: FactoryResponse = Response::new();
            resp.msg(
                Deploy {
                    admin: self.config.admin.clone(),
                    code_id: self.config.token_code_id,
                    label: label("TOKEN-", asset),
                    reply_id: REPLY_TOKEN,
                    body: InstantiateBody::Token {
                        name,
                        symbol,
                        decimals: 6,
                        initial_balances: Vec::new(),
                        issuer: self.config.default_issuer.clone(),
                        controller: self.config.default_controller.clone(),
                        owner: self.config.default_owner.clone(),
                        cap: None,
                        minting_cap: cap,
                        require_kyc_for_transfer: Some(true),
                        identity_registry: ir,
                        compliance: Some(a.clone()),
                    },
                },
            );
            let ghost av = a@;
            resp.attr("compliance_deployed", a);
            assert(resp.attrs() =~= seq![("compliance_deployed"@, av)]);
            Ok(resp)
        } else {
            let asset = p.asset_id;
            let ir = match p.ir_addr {
                Some(x) => x,
                None => text(""),
            };
            let tir = match p.tir_addr {
                Some(x) => x,
                None => text(""),
            };
            let ctr = match p.ctr_addr {
                Some(x) => x,
                None => text(""),
            };
            let comp = match p.compliance_addr {
                Some(x) => x,
                None => text(""),
            };
            let info = TokenInfo {
                asset_id: asset,
                contract_address: a.clone(),
                name: p.name,
                symbol: p.symbol,
                reference_id: p.reference_id,
                description: p.description,
                legal_owner: p.legal_owner,
                metadata: p.metadata,
                deployed_at: p.deployed_at,
                identity_registry: ir,
                trusted_issuers_registry: tir,
                claim_topics_registry: ctr,
                compliance: comp,
            };
            self.tokens.insert(asset, info);
            self.token_to_asset.insert(a.clone(), asset);
            let ghost av = a@;
            let mut resp: FactoryResponse = Response::new();
            resp.attr("token_deployed", a);
            resp.attr("asset_id", decimal_string(asset as u128));
            assert(resp.attrs() =~= seq![("token_deployed"@, av), ("asset_id"@, decimal(asset as nat))]);
            Ok(resp)
        }
    }
}
} // verus!
