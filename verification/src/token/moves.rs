//! Moving tokens: transfers, mints, burns and allowances. A movement that
//! asks other contracts runs in two parts around its checks: `begin_*`
//! makes the checks that come before the first question and lays out the
//! rest (see `checks`); `finish_*` makes the movement once they passed.
use vstd::prelude::*;
use crate::common::{AddrInput, Response, Event, text, decimal, decimal_string};
use crate::addr_map::{AddrMap, amount_of, total, set_amount, lemma_amount_le_total, enabled_keys};
use crate::token::types::{
    ContractError, TokenErr, Ctx, TokenResponse, TokenMsg, TokenMsgView, msgs_view, KycStatus,
};
use crate::token::state::{TokenState, TokenModel};
use crate::token::checks::{Step, StepView, Checks, Party, Judge, LimitUse, steps_view};
use crate::token::auth::{flag, owner_or_agent_error};

verus! {

/// The checks that `wallet` is not denylisted and is verified: by the
/// identity registry when one is configured, else by its KYC status.
pub open spec fn verify_plan(m: TokenModel, w: Seq<char>) -> Seq<StepView> {
    seq![StepView::NotDenylisted { wallet: w }] + match m.registry_addr() {
        Some(r) => seq![StepView::AskRegistry { registry: r, wallet: w }],
        None => seq![StepView::KycApproved { wallet: w }],
    }
}

pub open spec fn plugin_steps(keys: Seq<Seq<char>>, from: Seq<char>, to: Seq<char>, amount: u128) -> Seq<
    StepView,
> {
    keys.map_values(
        |p: Seq<char>| StepView::AskTransfer { judge: Judge::Plugin, contract: p, from, to, amount },
    )
}

/// The compliance checks of moving `amount` from `from` to `to`: the
/// compliance contract (when configured), every enabled rule plugin in
/// order, then `from`'s transfer limit.
pub open spec fn compliance_plan(s: TokenState, from: Seq<char>, to: Seq<char>, amount: u128) -> Seq<
    StepView,
> {
    (match s@.compliance_addr() {
        Some(c) => seq![
            StepView::AskTransfer { judge: Judge::Compliance, contract: c, from, to, amount },
        ],
        None => seq![],
    }) + plugin_steps(enabled_keys(s.rule_plugins.pairs()), from, to, amount) + seq![
        StepView::WithinLimit { wallet: from, amount, use_: LimitUse::Transfer },
    ]
}

/// The checks of a transfer between two parties: neither frozen, both
/// verified, then compliance.
pub open spec fn transfer_plan(s: TokenState, from: Seq<char>, to: Seq<char>, amount: u128) -> Seq<
    StepView,
> {
    seq![
        StepView::NotFrozen { wallet: from, party: Party::Sender },
        StepView::NotFrozen { wallet: to, party: Party::Recipient },
    ] + verify_plan(s@, from) + verify_plan(s@, to) + compliance_plan(s, from, to, amount)
}

/// Balances after taking `amount` from `from` and then crediting `to`.
pub open spec fn moved(b: Map<Seq<char>, u128>, from: Seq<char>, to: Seq<char>, amount: u128) -> Map<
    Seq<char>,
    u128,
> {
    let b1 = b.insert(from, (amount_of(b, from) - amount) as u128);
    b1.insert(to, (amount_of(b1, to) + amount) as u128)
}

/// Why moving `amount` from `from` to `to` fails on balances `b`, if it does.
pub open spec fn move_error(b: Map<Seq<char>, u128>, from: Seq<char>, to: Seq<char>, amount: u128) -> Option<
    TokenErr,
> {
    let b1 = b.insert(from, (amount_of(b, from) - amount) as u128);
    if amount_of(b, from) < amount {
        Some(TokenErr::InsufficientFunds)
    } else if amount_of(b1, to) + amount > u128::MAX {
        Some(TokenErr::Std(crate::common::StdFailureView::Overflow(crate::common::OverflowOp::Add)))
    } else {
        None
    }
}

/// The call on the compliance contract after a transfer, when one is configured.
pub open spec fn transferred_msgs(m: TokenModel, from: Seq<char>, to: Seq<char>, amount: u128) -> Seq<
    TokenMsgView,
> {
    match m.compliance_addr() {
        Some(c) => seq![TokenMsgView::Transferred { compliance: c, from, to, amount }],
        None => seq![],
    }
}

/// The call on the compliance contract after a mint, when one is configured.
pub open spec fn created_msgs(m: TokenModel, to: Seq<char>, amount: u128) -> Seq<TokenMsgView> {
    match m.compliance_addr() {
        Some(c) => seq![TokenMsgView::Created { compliance: c, to, amount }],
        None => seq![],
    }
}

/// The call on the compliance contract after a burn, when one is configured.
pub open spec fn destroyed_msgs(m: TokenModel, from: Seq<char>, amount: u128) -> Seq<TokenMsgView> {
    match m.compliance_addr() {
        Some(c) => seq![TokenMsgView::Destroyed { compliance: c, from, amount }],
        None => seq![],
    }
}

pub open spec fn transfer_precheck(m: TokenModel, ctx: Ctx, recipient: AddrInput, amount: u128) -> Option<
    TokenErr,
> {
    if amount == 0 {
        Some(TokenErr::InvalidRequest)
    } else if m.paused {
        Some(TokenErr::Paused)
    } else if !recipient.valid() {
        Some(TokenErr::Std(recipient.rejection->0@))
    } else if !ctx.sender.valid() {
        Some(TokenErr::Std(ctx.sender.rejection->0@))
    } else {
        None
    }
}

pub open spec fn mint_precheck(m: TokenModel, ctx: Ctx, recipient: AddrInput, amount: u128) -> Option<
    TokenErr,
> {
    if amount == 0 {
        Some(TokenErr::InvalidRequest)
    } else if ctx.sender.text@ != m.issuer {
        Some(TokenErr::Unauthorized)
    } else if m.paused {
        Some(TokenErr::Paused)
    } else if !recipient.valid() {
        Some(TokenErr::Std(recipient.rejection->0@))
    } else if m.is_frozen(recipient.text@) {
        Some(TokenErr::NotCompliant("recipient frozen"@))
    } else if m.total_supply + amount > u128::MAX {
        Some(TokenErr::Std(crate::common::StdFailureView::Overflow(crate::common::OverflowOp::Add)))
    } else if m.total_supply + amount > m.minting_cap {
        Some(
            TokenErr::MintingCapExceeded {
                attempted: amount,
                cap: m.minting_cap,
                current: m.total_supply,
            },
        )
    } else if m.cap is Some && m.total_supply + amount > m.cap->0 {
        Some(TokenErr::CapReached)
    } else {
        None
    }
}

pub open spec fn mint_plan(m: TokenModel, to: Seq<char>, amount: u128) -> Seq<StepView> {
    verify_plan(m, to) + seq![StepView::WithinLimit { wallet: to, amount, use_: LimitUse::Mint }]
}

pub open spec fn force_transfer_precheck(m: TokenModel, ctx: Ctx, from: AddrInput, to: AddrInput) -> Option<
    TokenErr,
> {
    if ctx.sender.text@ != m.controller {
        Some(TokenErr::Unauthorized)
    } else if !from.valid() {
        Some(TokenErr::Std(from.rejection->0@))
    } else if !to.valid() {
        Some(TokenErr::Std(to.rejection->0@))
    } else if m.is_frozen(to.text@) {
        Some(TokenErr::NotCompliant("recipient frozen"@))
    } else {
        None
    }
}

pub open spec fn force_transfer_plan(s: TokenState, from: Seq<char>, to: Seq<char>, amount: u128) -> Seq<
    StepView,
> {
    verify_plan(s@, to) + compliance_plan(s, from, to, amount)
}

pub open spec fn transfer_from_precheck(
    m: TokenModel,
    ctx: Ctx,
    owner: AddrInput,
    recipient: AddrInput,
) -> Option<TokenErr> {
    if m.paused {
        Some(TokenErr::Paused)
    } else if !ctx.sender.valid() {
        Some(TokenErr::Std(ctx.sender.rejection->0@))
    } else if !owner.valid() {
        Some(TokenErr::Std(owner.rejection->0@))
    } else if !recipient.valid() {
        Some(TokenErr::Std(recipient.rejection->0@))
    } else if m.is_frozen(owner.text@) {
        Some(TokenErr::NotCompliant("owner frozen"@))
    } else if m.is_frozen(recipient.text@) {
        Some(TokenErr::NotCompliant("recipient frozen"@))
    } else {
        None
    }
}

pub open spec fn transfer_from_plan(
    s: TokenState,
    spender: Seq<char>,
    owner: Seq<char>,
    to: Seq<char>,
    amount: u128,
) -> Seq<StepView> {
    verify_plan(s@, owner) + verify_plan(s@, to) + seq![
        StepView::AllowanceCovers { owner, spender, amount },
    ] + compliance_plan(s, owner, to, amount)
}

/// The model after a change of balances only.
pub open spec fn with_balances(m: TokenModel, b: Map<Seq<char>, u128>) -> TokenModel {
    TokenModel { balances: b, ..m }
}

/// Takes `amount` from `from` and credits it to `to` among balances `b`;
/// the total held is unchanged.
pub(crate) fn move_amount(b: &mut AddrMap<u128>, from: &String, to: &String, amount: u128) -> (r: Result<
    (),
    ContractError,
>)
    requires
        old(b).wf(),
    ensures
        final(b).wf(),
        match r {
            Ok(_) => move_error(old(b)@, from@, to@, amount) is None && final(b)@ == moved(old(b)@, from@, to@, amount)
                && total(*final(b)) == total(*old(b)),
            Err(e) => move_error(old(b)@, from@, to@, amount) == Some(e@) && *final(b) == *old(b),
        },
{
    let from_bal = match b.get(from) {
        Some(v) => *v,
        None => 0,
    };
    if from_bal < amount {
        return Err(ContractError::InsufficientFunds);
    }
    let ghost b1 = b@.insert(from@, (from_bal - amount) as u128);
    let to_bal_after = if *from == *to {
        from_bal - amount
    } else {
        match b.get(to) {
            Some(v) => *v,
            None => 0,
        }
    };
    assert(to_bal_after == amount_of(b1, to@));
    let credited = match to_bal_after.checked_add(amount) {
        Some(v) => v,
        None => {
            return Err(ContractError::Std(crate::common::StdFailure::Overflow(crate::common::OverflowOp::Add)));
        },
    };
    set_amount(b, from.clone(), from_bal - amount);
    set_amount(b, to.clone(), credited);
    Ok(())
}

impl TokenState {
    pub(crate) fn balance_of(&self, a: &String) -> (r: u128)
        requires
            self.wf(),
        ensures
            r == amount_of(self@.balances, a@),
    {
        match self.balances.get(a) {
            Some(v) => *v,
            None => 0,
        }
    }

    /// Appends the checks that `w` is not denylisted and is verified.
    pub(crate) fn push_verify(&self, steps: &mut Vec<Step>, w: &String)
        requires
            self.wf(),
        ensures
            steps_view(final(steps)@) == steps_view(old(steps)@) + verify_plan(self@, w@),
    {
        let ghost s0 = steps_view(steps@);
        steps.push(Step::NotDenylisted { wallet: w.clone() });
        match &self.identity_registry {
            Some(Some(r)) => {
                steps.push(Step::AskRegistry { registry: r.clone(), wallet: w.clone() });
            },
            _ => {
                steps.push(Step::KycApproved { wallet: w.clone() });
            },
        }
        assert(steps_view(steps@) =~= s0 + verify_plan(self@, w@));
    }

    /// Appends the compliance checks of moving `amount` from `from` to `to`.
    pub(crate) fn push_compliance(&self, steps: &mut Vec<Step>, from: &String, to: &String, amount: u128)
        requires
            self.wf(),
        ensures
            steps_view(final(steps)@) == steps_view(old(steps)@) + compliance_plan(
                *self,
                from@,
                to@,
                amount,
            ),
    {
        let ghost s0 = steps_view(steps@);
        let ghost first = match self@.compliance_addr() {
            Some(c) => seq![
                StepView::AskTransfer {
                    judge: Judge::Compliance,
                    contract: c,
                    from: from@,
                    to: to@,
                    amount,
                },
            ],
            None => Seq::<StepView>::empty(),
        };
        match &self.compliance {
            Some(Some(c)) => {
                steps.push(
                    Step::AskTransfer {
                        judge: Judge::Compliance,
                        contract: c.clone(),
                        from: from.clone(),
                        to: to.clone(),
                        amount,
                    },
                );
            },
            _ => {},
        }
        assert(steps_view(steps@) =~= s0 + first);
        let ghost ps = self.rule_plugins.pairs();
        let mut i: usize = 0;
        while i < self.rule_plugins.len()
            invariant
                self.wf(),
                ps == self.rule_plugins.pairs(),
                i <= ps.len(),
                steps_view(steps@) == s0 + first + plugin_steps(
                    enabled_keys(ps.take(i as int)),
                    from@,
                    to@,
                    amount,
                ),
            decreases ps.len() - i,
        {
            let (p, on) = self.rule_plugins.entry(i);
            assert(ps.take(i + 1).drop_last() =~= ps.take(i as int));
            let ghost before = steps_view(steps@);
            if *on {
                steps.push(
                    Step::AskTransfer {
                        judge: Judge::Plugin,
                        contract: p.clone(),
                        from: from.clone(),
                        to: to.clone(),
                        amount,
                    },
                );
                assert(steps_view(steps@) =~= before.push(steps@.last()@));
                assert(plugin_steps(enabled_keys(ps.take(i + 1)), from@, to@, amount) =~= plugin_steps(
                    enabled_keys(ps.take(i as int)),
                    from@,
                    to@,
                    amount,
                ).push(steps@.last()@));
            }
            i = i + 1;
        }
        assert(ps.take(i as int) =~= ps);
        let ghost before = steps_view(steps@);
        steps.push(Step::WithinLimit { wallet: from.clone(), amount, use_: LimitUse::Transfer });
        assert(steps_view(steps@) =~= before.push(steps@.last()@));
        assert(steps_view(steps@) =~= s0 + compliance_plan(*self, from@, to@, amount));
    }

    /// Takes `amount` from `from` and credits it to `to`; the total held is
    /// unchanged.
    pub(crate) fn move_balance(&mut self, from: &String, to: &String, amount: u128) -> (r: Result<(), ContractError>)
        requires
            old(self).wf(),
        ensures
            final(self).wf(),
            match r {
                Ok(_) => move_error(old(self)@.balances, from@, to@, amount) is None && final(self)@
                    == with_balances(old(self)@, moved(old(self)@.balances, from@, to@, amount))
                    && total(final(self).balances) == total(old(self).balances)
                    && final(self).redeem_requests == old(self).redeem_requests
                    && final(self).rule_plugins == old(self).rule_plugins,
                Err(e) => move_error(old(self)@.balances, from@, to@, amount) == Some(e@) && *final(self) == *old(self),
            },
    {
        move_amount(&mut self.balances, from, to, amount)?;
        assert(self@ =~= with_balances(old(self)@, moved(old(self)@.balances, from@, to@, amount)));
        Ok(())
    }

    /// The transfer response: the compliance call, the attributes and the
    /// `post_transfer` event.
    fn transfer_response(&self, ctx: &Ctx, from: &String, to_text: &String, to: &String, amount: u128, method: &str, action: &str) -> (r: TokenResponse)
        requires
            self.wf(),
        ensures
            msgs_view(r.messages@) == transferred_msgs(self@, from@, to@, amount),
            r.attrs() == seq![
                ("action"@, action@),
                ("from"@, from@),
                ("to"@, to_text@),
                ("amount"@, decimal(amount as nat)),
            ],
            r.evts() == seq![
                (
                    "post_transfer"@,
                    seq![
                        ("token"@, ctx.contract@),
                        ("operator"@, ctx.sender.text@),
                        ("from"@, from@),
                        ("to"@, to_text@),
                        ("amount"@, decimal(amount as nat)),
                        ("method"@, method@),
                    ],
                ),
            ],
    {
        let mut resp: TokenResponse = Response::new();
        match &self.compliance {
            Some(Some(c)) => {
                resp.msg(
                    TokenMsg::Transferred {
                        compliance: c.clone(),
                        from: from.clone(),
                        to: to.clone(),
                        amount,
                    },
                );
            },
            _ => {},
        }
        assert(msgs_view(resp.messages@) =~= transferred_msgs(self@, from@, to@, amount));
        resp.attr("action", text(action));
        let mut ev = Event::new("post_transfer");
        ev.attr("token", ctx.contract.clone());
        ev.attr("operator", ctx.sender.text.clone());
        ev.attr("from", from.clone());
        ev.attr("to", to_text.clone());
        ev.attr("amount", decimal_string(amount));
        ev.attr("method", text(method));
        assert(ev@.1 =~= seq![
            ("token"@, ctx.contract@),
            ("operator"@, ctx.sender.text@),
            ("from"@, from@),
            ("to"@, to_text@),
            ("amount"@, decimal(amount as nat)),
            ("method"@, method@),
        ]);
        resp.event(ev);
        resp.attr("from", from.clone());
        resp.attr("to", to_text.clone());
        resp.attr("amount", decimal_string(amount));
        assert(resp.attrs() =~= seq![
            ("action"@, action@),
            ("from"@, from@),
            ("to"@, to_text@),
            ("amount"@, decimal(amount as nat)),
        ]);
        assert(resp.evts() =~= seq![
            (
                "post_transfer"@,
                seq![
                    ("token"@, ctx.contract@),
                    ("operator"@, ctx.sender.text@),
                    ("from"@, from@),
                    ("to"@, to_text@),
                    ("amount"@, decimal(amount as nat)),
                    ("method"@, method@),
                ],
            ),
        ]);
        resp
    }

    /// A transfer by the caller: refuses a zero amount, a pause and rejected
    /// addresses, then lays out the transfer checks.
    pub fn begin_transfer(&self, ctx: &Ctx, recipient: &AddrInput, amount: u128) -> (r: Result<
        Checks,
        ContractError,
    >)
        requires
            self.wf(),
        ensures
            match r {
                Ok(c) => transfer_precheck(self@, *ctx, *recipient, amount) is None && c.next == 0
                    && c.token == ctx.contract && steps_view(c.steps@) == transfer_plan(
                    *self,
                    ctx.sender.text@,
                    recipient.text@,
                    amount,
                ),
                Err(e) => transfer_precheck(self@, *ctx, *recipient, amount) == Some(e@),
            },
    {
        if amount == 0 {
            return Err(ContractError::InvalidRequest);
        }
        if self.paused {
            return Err(ContractError::Paused);
        }
        let to = match recipient.check() {
            Ok(a) => a,
            Err(e) => return Err(ContractError::Std(e)),
        };
        let from = match ctx.sender.check() {
            Ok(a) => a,
            Err(e) => return Err(ContractError::Std(e)),
        };
        Ok(self.transfer_checks(&from, &to, amount, &ctx.contract))
    }

    /// The checks of a transfer from `from` to `to`.
    pub(crate) fn transfer_checks(&self, from: &String, to: &String, amount: u128, token: &String) -> (c: Checks)
        requires
            self.wf(),
        ensures
            c.next == 0,
            c.token == *token,
            steps_view(c.steps@) == transfer_plan(*self, from@, to@, amount),
    {
        let mut steps: Vec<Step> = Vec::new();
        steps.push(Step::NotFrozen { wallet: from.clone(), party: Party::Sender });
        steps.push(Step::NotFrozen { wallet: to.clone(), party: Party::Recipient });
        let ghost s2 = steps_view(steps@);
        assert(s2 =~= seq![
            StepView::NotFrozen { wallet: from@, party: Party::Sender },
            StepView::NotFrozen { wallet: to@, party: Party::Recipient },
        ]);
        self.push_verify(&mut steps, from);
        self.push_verify(&mut steps, to);
        self.push_compliance(&mut steps, from, to, amount);
        assert(steps_view(steps@) =~= transfer_plan(*self, from@, to@, amount));
        Checks::fresh(steps, token.clone())
    }

    /// Completes a transfer by the caller once its checks passed: moves the
    /// tokens and notifies the compliance contract.
    pub fn finish_transfer(&mut self, ctx: &Ctx, checks: &Checks, recipient: &AddrInput, amount: u128) -> (r:
        Result<TokenResponse, ContractError>)
        requires
            old(self).wf(),
            transfer_precheck(old(self)@, *ctx, *recipient, amount) is None,
            steps_view(checks.steps@) == transfer_plan(*old(self), ctx.sender.text@, recipient.text@, amount),
            checks.passed(old(self)@),
        ensures
            r is Ok ==> !old(self)@.paused && !old(self)@.is_denylisted(ctx.sender.text@) && !old(self)@.is_denylisted(recipient.text@),
            r is Ok ==> (old(self)@.registry_addr() is None ==> old(self)@.kyc_approved(ctx.sender.text@) && old(self)@.kyc_approved(recipient.text@)),
            r is Ok ==> forall|k: int| 0 <= k < checks.steps@.len() && crate::token::checks::asks(#[trigger] checks.steps@[k]@) ==> crate::token::checks::said_yes(checks.answers@[k]),
            r is Ok ==> !old(self)@.is_frozen(ctx.sender.text@) && !old(self)@.is_frozen(recipient.text@),
            final(self).wf(),
            old(self).supply_consistent() ==> final(self).supply_consistent(),
            match r {
                Ok(resp) => {
                    &&& move_error(old(self)@.balances, ctx.sender.text@, recipient.text@, amount) is None
                    &&& final(self)@ == with_balances(
                        old(self)@,
                        moved(old(self)@.balances, ctx.sender.text@, recipient.text@, amount),
                    )
                    &&& msgs_view(resp.messages@) == transferred_msgs(
                        old(self)@,
                        ctx.sender.text@,
                        recipient.text@,
                        amount,
                    )
                    &&& resp.attrs() == seq![
                        ("action"@, "transfer"@),
                        ("from"@, ctx.sender.text@),
                        ("to"@, recipient.text@),
                        ("amount"@, decimal(amount as nat)),
                    ]
                    &&& resp.evts() == seq![
                        (
                            "post_transfer"@,
                            seq![
                                ("token"@, ctx.contract@),
                                ("operator"@, ctx.sender.text@),
                                ("from"@, ctx.sender.text@),
                                ("to"@, recipient.text@),
                                ("amount"@, decimal(amount as nat)),
                                ("method"@, "transfer"@),
                            ],
                        ),
                    ]
                },
                Err(e) => move_error(old(self)@.balances, ctx.sender.text@, recipient.text@, amount)
                    == Some(e@) && final(self)@ == old(self)@,
            },
    {
        proof {
            crate::token::checks::lemma_passed_questions_said_yes(*checks, self@);
            crate::token::laws::lemma_passed_transfer_checks(*self, *checks, ctx.sender.text@, recipient.text@, amount);
        }
        self.move_balance(&ctx.sender.text, &recipient.text, amount)?;
        Ok(self.transfer_response(ctx, &ctx.sender.text, &recipient.text, &recipient.text, amount, "transfer", "transfer"))
    }

    /// A mint by the issuer: refuses a zero amount, another caller, a pause,
    /// a rejected or frozen recipient and a mint beyond the minting cap or
    /// the cap, then lays out the recipient's checks.
    pub fn begin_mint(&self, ctx: &Ctx, recipient: &AddrInput, amount: u128) -> (r: Result<
        Checks,
        ContractError,
    >)
        requires
            self.wf(),
        ensures
            r is Ok ==> !self@.is_frozen(recipient.text@),
            match r {
                Ok(c) => mint_precheck(self@, *ctx, *recipient, amount) is None && c.next == 0
                    && c.token == ctx.contract && steps_view(c.steps@) == mint_plan(
                    self@,
                    recipient.text@,
                    amount,
                ),
                Err(e) => mint_precheck(self@, *ctx, *recipient, amount) == Some(e@),
            },
    {
        if amount == 0 {
            return Err(ContractError::InvalidRequest);
        }
        self.only_issuer(ctx)?;
        if self.paused {
            return Err(ContractError::Paused);
        }
        let to = match recipient.check() {
            Ok(a) => a,
            Err(e) => return Err(ContractError::Std(e)),
        };
        if flag(&self.frozen, &to) {
            return Err(ContractError::NotCompliant(text("recipient frozen")));
        }
        let new_supply = match self.total_supply.checked_add(amount) {
            Some(v) => v,
            None => return Err(
                ContractError::Std(crate::common::StdFailure::Overflow(crate::common::OverflowOp::Add)),
            ),
        };
        if new_supply > self.minting_cap {
            return Err(
                ContractError::MintingCapExceeded {
                    attempted: amount,
                    cap: self.minting_cap,
                    current: self.total_supply,
                },
            );
        }
        match self.cap {
            Some(cap) => {
                if new_supply > cap {
                    return Err(ContractError::CapReached);
                }
            },
            None => {},
        }
        let mut steps: Vec<Step> = Vec::new();
        self.push_verify(&mut steps, &to);
        let ghost before = steps_view(steps@);
        steps.push(Step::WithinLimit { wallet: to, amount, use_: LimitUse::Mint });
        assert(steps_view(steps@) =~= before.push(steps@.last()@));
        assert(steps_view(steps@) =~= mint_plan(self@, recipient.text@, amount));
        Ok(Checks::fresh(steps, ctx.contract.clone()))
    }

    /// Completes a mint once its checks passed: credits the recipient,
    /// raises the supply (which stays within the minting cap) and notifies
    /// the compliance contract.
    pub fn finish_mint(&mut self, ctx: &Ctx, checks: &Checks, recipient: &AddrInput, amount: u128) -> (r: Result<
        TokenResponse,
        ContractError,
    >)
        requires
            old(self).wf(),
            mint_precheck(old(self)@, *ctx, *recipient, amount) is None,
            steps_view(checks.steps@) == mint_plan(old(self)@, recipient.text@, amount),
            checks.passed(old(self)@),
        ensures
            r is Ok ==> !old(self)@.paused && ctx.sender.text@ == old(self)@.issuer && final(self)@.total_supply <= old(self)@.minting_cap,
            r is Ok ==> forall|k: int| 0 <= k < checks.steps@.len() && crate::token::checks::asks(#[trigger] checks.steps@[k]@) ==> crate::token::checks::said_yes(checks.answers@[k]),
            r is Ok ==> !old(self)@.is_frozen(recipient.text@),
            final(self).wf(),
            old(self).supply_consistent() ==> final(self).supply_consistent(),
            match r {
                Ok(resp) => {
                    &&& amount_of(old(self)@.balances, recipient.text@) + amount <= u128::MAX
                    &&& final(self)@ == (TokenModel {
                        balances: old(self)@.balances.insert(
                            recipient.text@,
                            (amount_of(old(self)@.balances, recipient.text@) + amount) as u128,
                        ),
                        total_supply: (old(self)@.total_supply + amount) as u128,
                        ..old(self)@
                    })
                    &&& final(self)@.total_supply <= final(self)@.minting_cap
                    &&& msgs_view(resp.messages@) == created_msgs(old(self)@, recipient.text@, amount)
                    &&& resp.attrs() == seq![
                        ("action"@, "mint"@),
                        ("to"@, recipient.text@),
                        ("amount"@, decimal(amount as nat)),
                    ]
                    &&& resp.evts() == seq![
                        (
                            "post_mint"@,
                            seq![
                                ("token"@, ctx.contract@),
                                ("operator"@, ctx.sender.text@),
                                ("to"@, recipient.text@),
                                ("amount"@, decimal(amount as nat)),
                            ],
                        ),
                    ]
                },
                Err(e) => amount_of(old(self)@.balances, recipient.text@) + amount > u128::MAX
                    && e@ == TokenErr::Std(crate::common::StdFailureView::Overflow(crate::common::OverflowOp::Add))
                    && final(self)@ == old(self)@,
            },
    {
        proof {
            crate::token::checks::lemma_passed_questions_said_yes(*checks, self@);
        }
        let to = &recipient.text;
        let bal = self.balance_of(to);
        let credited = match bal.checked_add(amount) {
            Some(v) => v,
            None => return Err(
                ContractError::Std(crate::common::StdFailure::Overflow(crate::common::OverflowOp::Add)),
            ),
        };
        set_amount(&mut self.balances, to.clone(), credited);
        self.total_supply = self.total_supply + amount;
        let mut resp: TokenResponse = Response::new();
        match &self.compliance {
            Some(Some(c)) => {
                resp.msg(TokenMsg::Created { compliance: c.clone(), to: to.clone(), amount });
            },
            _ => {},
        }
        assert(msgs_view(resp.messages@) =~= created_msgs(old(self)@, recipient.text@, amount));
        resp.attr("action", text("mint"));
        let mut ev = Event::new("post_mint");
        ev.attr("token", ctx.contract.clone());
        ev.attr("operator", ctx.sender.text.clone());
        ev.attr("to", to.clone());
        ev.attr("amount", decimal_string(amount));
        assert(ev@.1 =~= seq![
            ("token"@, ctx.contract@),
            ("operator"@, ctx.sender.text@),
            ("to"@, recipient.text@),
            ("amount"@, decimal(amount as nat)),
        ]);
        resp.event(ev);
        resp.attr("to", to.clone());
        resp.attr("amount", decimal_string(amount));
        assert(resp.attrs() =~= seq![
            ("action"@, "mint"@),
            ("to"@, recipient.text@),
            ("amount"@, decimal(amount as nat)),
        ]);
        assert(resp.evts() =~= seq![
            (
                "post_mint"@,
                seq![
                    ("token"@, ctx.contract@),
                    ("operator"@, ctx.sender.text@),
                    ("to"@, recipient.text@),
                    ("amount"@, decimal(amount as nat)),
                ],
            ),
        ]);
        Ok(resp)
    }
}

} // verus!
