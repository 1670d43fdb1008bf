//! Real-world assets: registering assets, issuing tokens against them on
//! request, and redeeming tokens.
use vstd::prelude::*;
use crate::common::{AddrInput, Response, text, decimal, decimal_string, StdFailure, OverflowOp};
use crate::addr_map::{amount_of, total, set_amount};
use crate::id_map::{IdMap, has_id, id_slot};
use crate::token::types::{
    ContractError, TokenErr, Ctx, TokenResponse, TokenMsg, msgs_view, AssetInfo, IssuanceRequest,
    RedemptionRequest,
};
use crate::token::state::{
    TokenState, TokenModel, pending_sum, pending_amount, lemma_pending_sum_update,
    lemma_pending_sum_insert,
};
use crate::token::auth::{plain, owner_error, action_response_with};
use crate::token::moves::{created_msgs, destroyed_msgs};

verus! {

pub open spec fn issue_error(m: TokenModel, ctx: Ctx, asset_id: u64, recipient: AddrInput) -> Option<TokenErr> {
    if ctx.sender.text@ != m.issuer {
        Some(TokenErr::Unauthorized)
    } else if !m.assets.contains_key(asset_id) {
        Some(TokenErr::AssetNotFound)
    } else if !recipient.valid() {
        Some(TokenErr::Std(recipient.rejection->0@))
    } else {
        None
    }
}

pub open spec fn approve_issue_error(m: TokenModel, ctx: Ctx, request_id: u64) -> Option<TokenErr> {
    let req = m.issuance_requests[request_id];
    let bal = amount_of(m.balances, req.recipient@);
    if ctx.sender.text@ != m.controller {
        Some(TokenErr::Unauthorized)
    } else if !m.issuance_requests.contains_key(request_id) {
        Some(TokenErr::InvalidRequest)
    } else if req.approved {
        Some(TokenErr::AlreadyApproved)
    } else if bal + req.amount > u128::MAX {
        Some(TokenErr::Std(crate::common::StdFailureView::Overflow(OverflowOp::Add)))
    } else if m.total_supply + req.amount > u128::MAX {
        Some(TokenErr::Std(crate::common::StdFailureView::Overflow(OverflowOp::Add)))
    } else if m.total_supply + req.amount > m.minting_cap {
        Some(TokenErr::MintingCapExceeded { attempted: req.amount, cap: m.minting_cap, current: m.total_supply })
    } else if !m.assets.contains_key(req.asset_id) {
        Some(TokenErr::Std(crate::common::StdFailureView::NotFound("asset"@)))
    } else if m.assets[req.asset_id].total_tokenized + req.amount > u128::MAX {
        Some(TokenErr::Std(crate::common::StdFailureView::Overflow(OverflowOp::Add)))
    } else {
        None
    }
}

pub open spec fn redeem_request_error(m: TokenModel, ctx: Ctx, amount: u128) -> Option<TokenErr> {
    if m.paused {
        Some(TokenErr::Paused)
    } else if !ctx.sender.valid() {
        Some(TokenErr::Std(ctx.sender.rejection->0@))
    } else if amount_of(m.balances, ctx.sender.text@) < amount {
        Some(TokenErr::InsufficientFunds)
    } else {
        None
    }
}

pub open spec fn approve_redemption_error(m: TokenModel, ctx: Ctx, request_id: u64) -> Option<TokenErr> {
    let req = m.redeem_requests[request_id];
    if ctx.sender.text@ != m.controller {
        Some(TokenErr::Unauthorized)
    } else if !m.redeem_requests.contains_key(request_id) {
        Some(TokenErr::InvalidRequest)
    } else if req.approved {
        Some(TokenErr::AlreadyApproved)
    } else if !m.assets.contains_key(req.asset_id) {
        Some(TokenErr::Std(crate::common::StdFailureView::NotFound("asset"@)))
    } else if m.assets[req.asset_id].total_tokenized < req.amount {
        Some(TokenErr::Std(crate::common::StdFailureView::Overflow(OverflowOp::Sub)))
    } else if m.total_supply < req.amount {
        Some(TokenErr::Std(crate::common::StdFailureView::Overflow(OverflowOp::Sub)))
    } else {
        None
    }
}

pub fn clone_opt(o: &Option<String>) -> (r: Option<String>)
    ensures
        r == *o,
{
    match o {
        Some(s) => Some(s.clone()),
        None => None,
    }
}

impl AssetInfo {
    pub fn duplicate(&self) -> (r: AssetInfo)
        ensures
            r == *self,
    {
        AssetInfo {
            id: self.id,
            reference_id: self.reference_id.clone(),
            description: self.description.clone(),
            legal_owner: self.legal_owner.clone(),
            metadata: clone_opt(&self.metadata),
            total_tokenized: self.total_tokenized,
        }
    }
}

/// The kind named when an asset record is missing.
fn asset_kind() -> (s: String)
    ensures
        s@ == "asset"@,
{
    text("asset")
}

impl TokenState {
    /// Owner only: registers an asset under the next asset id.
    pub fn create_asset(
        &mut self,
        ctx: &Ctx,
        reference_id: String,
        description: String,
        legal_owner: AddrInput,
        metadata: Option<String>,
    ) -> (r: Result<TokenResponse, ContractError>)
        requires
            old(self).wf(),
            owner_error(old(self)@, ctx.sender) is None && legal_owner.valid() ==> old(self).asset_seq < u64::MAX,
        ensures
            final(self).wf(),
            old(self).supply_consistent() ==> final(self).supply_consistent(),
            match r {
                Ok(resp) => {
                    let id = (old(self)@.asset_seq + 1) as u64;
                    &&& owner_error(old(self)@, ctx.sender) is None
                    &&& legal_owner.valid()
                    &&& final(self)@ == (TokenModel {
                        asset_seq: id,
                        assets: old(self)@.assets.insert(
                            id,
                            AssetInfo {
                                id,
                                reference_id,
                                description,
                                legal_owner: legal_owner.text,
                                metadata,
                                total_tokenized: 0,
                            },
                        ),
                        ..old(self)@
                    })
                    &&& plain(
                        resp,
                        seq![
                            ("action"@, "create_asset"@),
                            ("asset_id"@, decimal(id as nat)),
                            ("reference_id"@, reference_id@),
                        ],
                    )
                },
                Err(e) => final(self)@ == old(self)@ && if owner_error(old(self)@, ctx.sender) is Some {
                    owner_error(old(self)@, ctx.sender) == Some(e@)
                } else {
                    !legal_owner.valid() && e@ == TokenErr::Std(legal_owner.rejection->0@)
                },
            },
    {
        self.only_owner(ctx)?;
        let legal = match legal_owner.check() {
            Ok(a) => a,
            Err(e) => return Err(ContractError::Std(e)),
        };
        let seq = self.asset_seq + 1;
        self.asset_seq = seq;
        let reference_text = reference_id.clone();
        self.assets.insert(
            seq,
            AssetInfo {
                id: seq,
                reference_id,
                description,
                legal_owner: legal,
                metadata,
                total_tokenized: 0,
            },
        );
        let mut resp: TokenResponse = Response::new();
        resp.attr("action", text("create_asset"));
        resp.attr("asset_id", decimal_string(seq as u128));
        resp.attr("reference_id", reference_text);
        assert(resp.attrs() =~= seq![
            ("action"@, "create_asset"@),
            ("asset_id"@, decimal(seq as nat)),
            ("reference_id"@, reference_id@),
        ]);
        Ok(resp)
    }

    /// Issuer only: files a request to issue `amount` tokens against an
    /// existing asset to `recipient`.
    pub fn issue_asset(&mut self, ctx: &Ctx, asset_id: u64, recipient: AddrInput, amount: u128) -> (r:
        Result<TokenResponse, ContractError>)
        requires
            old(self).wf(),
            ctx.sender.text@ == old(self)@.issuer && old(self)@.assets.contains_key(asset_id)
                ==> old(self).issuance_seq < u64::MAX,
        ensures
            final(self).wf(),
            old(self).supply_consistent() ==> final(self).supply_consistent(),
            match r {
                Ok(resp) => {
                    let id = (old(self)@.issuance_seq + 1) as u64;
                    &&& issue_error(old(self)@, *ctx, asset_id, recipient) is None
                    &&& final(self)@ == (TokenModel {
                        issuance_seq: id,
                        issuance_requests: old(self)@.issuance_requests.insert(
                            id,
                            IssuanceRequest {
                                id,
                                asset_id,
                                recipient: recipient.text,
                                amount,
                                approved: false,
                            },
                        ),
                        ..old(self)@
                    })
                    &&& plain(
                        resp,
                        seq![("action"@, "issue_request"@), ("request_id"@, decimal(id as nat))],
                    )
                },
                Err(e) => issue_error(old(self)@, *ctx, asset_id, recipient) == Some(e@) && final(self)@ == old(self)@,
            },
    {
        self.only_issuer(ctx)?;
        if !self.assets.contains(asset_id) {
            return Err(ContractError::AssetNotFound);
        }
        let seq = self.issuance_seq + 1;
        let to = match recipient.check() {
            Ok(a) => a,
            Err(e) => return Err(ContractError::Std(e)),
        };
        self.issuance_seq = seq;
        self.issuance_requests.insert(
            seq,
            IssuanceRequest { id: seq, asset_id, recipient: to, amount, approved: false },
        );
        Ok(action_response_with("issue_request", "request_id", decimal_string(seq as u128)))
    }

    /// Controller only: approves an issuance request, minting its tokens to
    /// the recipient (within the minting cap) and adding them to the asset's
    /// tokenized total.
    pub fn approve_issue(&mut self, ctx: &Ctx, request_id: u64) -> (r: Result<TokenResponse, ContractError>)
        requires
            old(self).wf(),
        ensures
            final(self).wf(),
            old(self).total_supply <= old(self).minting_cap ==> final(self).total_supply <= final(self).minting_cap,
            old(self).supply_consistent() ==> final(self).supply_consistent(),
            match r {
                Ok(resp) => {
                    let req = old(self)@.issuance_requests[request_id];
                    let asset = old(self)@.assets[req.asset_id];
                    &&& approve_issue_error(old(self)@, *ctx, request_id) is None
                    &&& final(self)@ == (TokenModel {
                        issuance_requests: old(self)@.issuance_requests.insert(
                            request_id,
                            IssuanceRequest { approved: true, ..req },
                        ),
                        balances: old(self)@.balances.insert(
                            req.recipient@,
                            (amount_of(old(self)@.balances, req.recipient@) + req.amount) as u128,
                        ),
                        total_supply: (old(self)@.total_supply + req.amount) as u128,
                        assets: old(self)@.assets.insert(
                            req.asset_id,
                            AssetInfo {
                                total_tokenized: (asset.total_tokenized + req.amount) as u128,
                                ..asset
                            },
                        ),
                        ..old(self)@
                    })
                    &&& msgs_view(resp.messages@) == created_msgs(old(self)@, req.recipient@, req.amount)
                    &&& resp.evts().len() == 0
                    &&& resp.attrs() == seq![
                        ("action"@, "approve_issue"@),
                        ("request_id"@, decimal(request_id as nat)),
                    ]
                },
                Err(e) => approve_issue_error(old(self)@, *ctx, request_id) == Some(e@) && final(self)@
                    == old(self)@,
            },
    {
        self.only_controller(ctx)?;
        let (recipient, amount, asset_id) = match self.issuance_requests.get(request_id) {
            Some(req) => {
                if req.approved {
                    return Err(ContractError::AlreadyApproved);
                }
                (req.recipient.clone(), req.amount, req.asset_id)
            },
            None => return Err(ContractError::InvalidRequest),
        };
        let bal = self.balance_of(&recipient);
        let credited = match bal.checked_add(amount) {
            Some(v) => v,
            None => return Err(ContractError::Std(StdFailure::Overflow(OverflowOp::Add))),
        };
        let new_total = match self.total_supply.checked_add(amount) {
            Some(v) => v,
            None => return Err(ContractError::Std(StdFailure::Overflow(OverflowOp::Add))),
        };
        if new_total > self.minting_cap {
            return Err(
                ContractError::MintingCapExceeded { attempted: amount, cap: self.minting_cap, current: self.total_supply },
            );
        }
        let asset = match self.assets.get(asset_id) {
            Some(a) => a.duplicate(),
            None => return Err(ContractError::Std(StdFailure::NotFound(asset_kind()))),
        };
        let tokenized = match asset.total_tokenized.checked_add(amount) {
            Some(v) => v,
            None => return Err(ContractError::Std(StdFailure::Overflow(OverflowOp::Add))),
        };
        let ghost old_req = self@.issuance_requests[request_id];
        self.issuance_requests.insert(
            request_id,
            IssuanceRequest {
                id: old_req_id(&self.issuance_requests, request_id),
                asset_id,
                recipient: recipient.clone(),
                amount,
                approved: true,
            },
        );
        set_amount(&mut self.balances, recipient.clone(), credited);
        self.total_supply = new_total;
        self.assets.insert(asset_id, AssetInfo { total_tokenized: tokenized, ..asset });
        let mut resp: TokenResponse = Response::new();
        match &self.compliance {
            Some(Some(c)) => {
                resp.msg(TokenMsg::Created { compliance: c.clone(), to: recipient, amount });
            },
            _ => {},
        }
        assert(msgs_view(resp.messages@) =~= created_msgs(old(self)@, old_req.recipient@, amount));
        resp.attr("action", text("approve_issue"));
        resp.attr("request_id", decimal_string(request_id as u128));
        assert(resp.attrs() =~= seq![
            ("action"@, "approve_issue"@),
            ("request_id"@, decimal(request_id as nat)),
        ]);
        Ok(resp)
    }

    /// Files a request to redeem `amount` of the caller's tokens against an
    /// asset; the tokens leave the caller's balance now and stay counted in
    /// the supply until the request is approved.
    pub fn request_redemption(&mut self, ctx: &Ctx, asset_id: u64, amount: u128, reason: Option<String>) -> (r:
        Result<TokenResponse, ContractError>)
        requires
            old(self).wf(),
            redeem_request_error(old(self)@, *ctx, amount) is None ==> old(self).redeem_seq < u64::MAX,
        ensures
            final(self).wf(),
            old(self).supply_consistent() ==> final(self).supply_consistent(),
            match r {
                Ok(resp) => {
                    let id = (old(self)@.redeem_seq + 1) as u64;
                    &&& redeem_request_error(old(self)@, *ctx, amount) is None
                    &&& final(self)@ == (TokenModel {
                        balances: old(self)@.balances.insert(
                            ctx.sender.text@,
                            (amount_of(old(self)@.balances, ctx.sender.text@) - amount) as u128,
                        ),
                        redeem_seq: id,
                        redeem_requests: old(self)@.redeem_requests.insert(
                            id,
                            RedemptionRequest {
                                id,
                                asset_id,
                                requester: ctx.sender.text,
                                amount,
                                approved: false,
                                reason,
                            },
                        ),
                        ..old(self)@
                    })
                    &&& plain(
                        resp,
                        seq![("action"@, "request_redemption"@), ("request_id"@, decimal(id as nat))],
                    )
                },
                Err(e) => redeem_request_error(old(self)@, *ctx, amount) == Some(e@) && final(self)@
                    == old(self)@,
            },
    {
        if self.paused {
            return Err(ContractError::Paused);
        }
        let requester = match ctx.sender.check() {
            Ok(a) => a,
            Err(e) => return Err(ContractError::Std(e)),
        };
        let bal = self.balance_of(&requester);
        if bal < amount {
            return Err(ContractError::InsufficientFunds);
        }
        let ghost rs = self.redeem_requests.pairs();
        set_amount(&mut self.balances, requester.clone(), bal - amount);
        let seq = self.redeem_seq + 1;
        self.redeem_seq = seq;
        let req = RedemptionRequest {
            id: seq,
            asset_id,
            requester,
            amount,
            approved: false,
            reason,
        };
        let ghost rq = req;
        self.redeem_requests.insert(seq, req);
        proof {
            if old(self).supply_consistent() {
                assert(!old(self)@.redeem_requests.contains_key(seq));
                crate::id_map::lemma_has_id_dom(rs, seq);
                lemma_pending_sum_insert(rs, id_slot(rs, seq), (seq, rq));
            }
        }
        Ok(action_response_with("request_redemption", "request_id", decimal_string(seq as u128)))
    }

    /// Controller only: approves a redemption request, removing its tokens
    /// from the supply and from the asset's tokenized total.
    pub fn approve_redemption(&mut self, ctx: &Ctx, request_id: u64) -> (r: Result<TokenResponse, ContractError>)
        requires
            old(self).wf(),
        ensures
            final(self).wf(),
            old(self).supply_consistent() ==> final(self).supply_consistent(),
            match r {
                Ok(resp) => {
                    let req = old(self)@.redeem_requests[request_id];
                    let asset = old(self)@.assets[req.asset_id];
                    &&& approve_redemption_error(old(self)@, *ctx, request_id) is None
                    &&& final(self)@ == (TokenModel {
                        redeem_requests: old(self)@.redeem_requests.insert(
                            request_id,
                            RedemptionRequest { approved: true, ..req },
                        ),
                        total_supply: (old(self)@.total_supply - req.amount) as u128,
                        assets: old(self)@.assets.insert(
                            req.asset_id,
                            AssetInfo {
                                total_tokenized: (asset.total_tokenized - req.amount) as u128,
                                ..asset
                            },
                        ),
                        ..old(self)@
                    })
                    &&& msgs_view(resp.messages@) == destroyed_msgs(old(self)@, req.requester@, req.amount)
                    &&& resp.evts().len() == 0
                    &&& resp.attrs() == seq![
                        ("action"@, "approve_redemption"@),
                        ("request_id"@, decimal(request_id as nat)),
                    ]
                },
                Err(e) => approve_redemption_error(old(self)@, *ctx, request_id) == Some(e@) && final(self)@ == old(self)@,
            },
    {
        self.only_controller(ctx)?;
        let ghost rs = self.redeem_requests.pairs();
        let req = match self.redeem_requests.get(request_id) {
            Some(req) => {
                if req.approved {
                    return Err(ContractError::AlreadyApproved);
                }
                RedemptionRequest {
                    id: req.id,
                    asset_id: req.asset_id,
                    requester: req.requester.clone(),
                    amount: req.amount,
                    approved: true,
                    reason: clone_opt(&req.reason),
                }
            },
            None => return Err(ContractError::InvalidRequest),
        };
        let asset = match self.assets.get(req.asset_id) {
            Some(a) => a.duplicate(),
            None => return Err(ContractError::Std(StdFailure::NotFound(asset_kind()))),
        };
        if asset.total_tokenized < req.amount {
            return Err(ContractError::Std(StdFailure::Overflow(OverflowOp::Sub)));
        }
        if self.total_supply < req.amount {
            return Err(ContractError::Std(StdFailure::Overflow(OverflowOp::Sub)));
        }
        let amount = req.amount;
        let asset_id = req.asset_id;
        let requester = req.requester.clone();
        let tokenized = asset.total_tokenized - amount;
        let ghost rq = req;
        self.redeem_requests.insert(request_id, req);
        proof {
            crate::id_map::lemma_has_id_dom(rs, request_id);
            crate::id_map::lemma_ids_map_at(rs, id_slot(rs, request_id));
            lemma_pending_sum_update(rs, id_slot(rs, request_id), (request_id, rq));
        }
        self.total_supply = self.total_supply - amount;
        self.assets.insert(asset_id, AssetInfo { total_tokenized: tokenized, ..asset });
        let mut resp: TokenResponse = Response::new();
        match &self.compliance {
            Some(Some(c)) => {
                resp.msg(TokenMsg::Destroyed { compliance: c.clone(), from: requester, amount });
            },
            _ => {},
        }
        assert(msgs_view(resp.messages@) =~= destroyed_msgs(
            old(self)@,
            old(self)@.redeem_requests[request_id].requester@,
            amount,
        ));
        resp.attr("action", text("approve_redemption"));
        resp.attr("request_id", decimal_string(request_id as u128));
        assert(resp.attrs() =~= seq![
            ("action"@, "approve_redemption"@),
            ("request_id"@, decimal(request_id as nat)),
        ]);
        Ok(resp)
    }
}

/// The id recorded in issuance request `k`.
fn old_req_id(m: &IdMap<IssuanceRequest>, k: u64) -> (r: u64)
    requires
        m.wf(),
        m@.contains_key(k),
    ensures
        r == m@[k].id,
{
    match m.get(k) {
        Some(q) => q.id,
        None => 0,
    }
}

} // verus!
