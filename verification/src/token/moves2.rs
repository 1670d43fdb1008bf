//! Burns, forced movements, transfers on behalf of an owner, batches and
//! allowances.
use vstd::prelude::*;
use crate::common::{AddrInput, Response, Event, text, decimal, decimal_string, StdFailure, OverflowOp};
use crate::addr_map::{AddrMap, amount_of, total, set_amount, lemma_amount_le_total};
use crate::pair_map::PairMap;
use crate::token::types::{ContractError, TokenErr, Ctx, TokenResponse, TokenMsg, msgs_view, KycStatus};
use crate::token::state::{TokenState, TokenModel};
use crate::token::checks::{Step, StepView, Checks, steps_view, verdict};
use crate::token::auth::{flag, owner_or_agent_error, plain};
use crate::token::moves::{
    moved, move_error, with_balances, transferred_msgs, destroyed_msgs, transfer_plan,
    force_transfer_precheck, force_transfer_plan, transfer_from_precheck, transfer_from_plan, verify_plan, move_amount,
};

verus! {

pub open spec fn burn_error(m: TokenModel, ctx: Ctx, amount: u128) -> Option<TokenErr> {
    if amount == 0 {
        Some(TokenErr::InvalidRequest)
    } else if m.paused {
        Some(TokenErr::Paused)
    } else if !ctx.sender.valid() {
        Some(TokenErr::Std(ctx.sender.rejection->0@))
    } else if m.is_frozen(ctx.sender.text@) {
        Some(TokenErr::NotCompliant("sender frozen"@))
    } else if amount_of(m.balances, ctx.sender.text@) < amount {
        Some(TokenErr::InsufficientFunds)
    } else if m.total_supply < amount {
        Some(TokenErr::Std(crate::common::StdFailureView::Overflow(OverflowOp::Sub)))
    } else {
        None
    }
}

pub open spec fn force_burn_error(m: TokenModel, ctx: Ctx, from: AddrInput, amount: u128) -> Option<
    TokenErr,
> {
    if owner_or_agent_error(m, ctx.sender) is Some {
        owner_or_agent_error(m, ctx.sender)
    } else if amount == 0 {
        Some(TokenErr::InvalidRequest)
    } else if !from.valid() {
        Some(TokenErr::Std(from.rejection->0@))
    } else if amount_of(m.balances, from.text@) < amount {
        Some(TokenErr::InsufficientFunds)
    } else if m.total_supply < amount {
        Some(TokenErr::Std(crate::common::StdFailureView::Overflow(OverflowOp::Sub)))
    } else {
        None
    }
}

/// The model after `amount` of `from`'s tokens are destroyed.
pub open spec fn burned(m: TokenModel, from: Seq<char>, amount: u128) -> TokenModel {
    TokenModel {
        balances: m.balances.insert(from, (amount_of(m.balances, from) - amount) as u128),
        total_supply: (m.total_supply - amount) as u128,
        ..m
    }
}

pub open spec fn approve_error(m: TokenModel, ctx: Ctx, spender: AddrInput) -> Option<TokenErr> {
    if m.paused {
        Some(TokenErr::Paused)
    } else if !ctx.sender.valid() {
        Some(TokenErr::Std(ctx.sender.rejection->0@))
    } else if !spender.valid() {
        Some(TokenErr::Std(spender.rejection->0@))
    } else if !m.kyc_approved(spender.text@) {
        Some(TokenErr::KycNotApproved(spender.text@))
    } else {
        None
    }
}

pub open spec fn batch_precheck(m: TokenModel, ctx: Ctx) -> Option<TokenErr> {
    if m.paused {
        Some(TokenErr::Paused)
    } else if !ctx.sender.valid() {
        Some(TokenErr::Std(ctx.sender.rejection->0@))
    } else {
        None
    }
}

/// The balances after moving each item's amount from `from` to the item's
/// recipient, in order.
pub open spec fn batch_moved(b: Map<Seq<char>, u128>, from: Seq<char>, items: Seq<(Seq<char>, u128)>) -> Map<
    Seq<char>,
    u128,
>
    decreases items.len(),
{
    if items.len() == 0 {
        b
    } else {
        moved(batch_moved(b, from, items.drop_last()), from, items.last().0, items.last().1)
    }
}

/// A batch transfer under way: its items move tokens on a copy of the
/// balances, so the token is only changed when the whole batch is committed.
pub struct BatchRun {
    pub balances: AddrMap<u128>,
    pub resp: TokenResponse,
    /// The balances and their total when the batch began.
    pub start: Ghost<Map<Seq<char>, u128>>,
    pub start_total: Ghost<int>,
    /// The recipients and amounts moved so far.
    pub items: Ghost<Seq<(Seq<char>, u128)>>,
}

impl BatchRun {
    /// The batch's balances are those it began with after the items so far,
    /// with the same total.
    pub open spec fn inv(&self, from: Seq<char>) -> bool {
        &&& self.balances.wf()
        &&& self.balances@ == batch_moved(self.start@, from, self.items@)
        &&& total(self.balances) == self.start_total@
    }
}

impl TokenState {
    fn burn_from(&mut self, from: &String, amount: u128) -> (r: Result<(), ContractError>)
        requires
            old(self).wf(),
        ensures
            final(self).wf(),
            old(self).supply_consistent() ==> final(self).supply_consistent(),
            match r {
                Ok(_) => amount_of(old(self)@.balances, from@) >= amount && old(self)@.total_supply
                    >= amount && final(self)@ == burned(old(self)@, from@, amount),
                Err(e) => final(self)@ == old(self)@ && if amount_of(old(self)@.balances, from@) < amount {
                    e@ == TokenErr::InsufficientFunds
                } else {
                    old(self)@.total_supply < amount && e@ == TokenErr::Std(
                        crate::common::StdFailureView::Overflow(OverflowOp::Sub),
                    )
                },
            },
    {
        let bal = match self.balances.get(from) {
            Some(v) => *v,
            None => 0,
        };
        if bal < amount {
            return Err(ContractError::InsufficientFunds);
        }
        if self.total_supply < amount {
            return Err(ContractError::Std(StdFailure::Overflow(OverflowOp::Sub)));
        }
        set_amount(&mut self.balances, from.clone(), bal - amount);
        self.total_supply = self.total_supply - amount;
        Ok(())
    }

    /// Destroys `amount` of the caller's tokens.
    pub fn burn(&mut self, ctx: &Ctx, amount: u128) -> (r: Result<TokenResponse, ContractError>)
        requires
            old(self).wf(),
        ensures
            r is Ok ==> !old(self)@.paused && amount_of(old(self)@.balances, ctx.sender.text@) >= amount,
            r is Ok ==> !old(self)@.is_frozen(ctx.sender.text@),
            final(self).wf(),
            old(self).supply_consistent() ==> final(self).supply_consistent(),
            match r {
                Ok(resp) => {
                    &&& burn_error(old(self)@, *ctx, amount) is None
                    &&& final(self)@ == burned(old(self)@, ctx.sender.text@, amount)
                    &&& msgs_view(resp.messages@) == destroyed_msgs(old(self)@, ctx.sender.text@, amount)
                    &&& resp.attrs() == seq![
                        ("action"@, "burn"@),
                        ("from"@, ctx.sender.text@),
                        ("amount"@, decimal(amount as nat)),
                    ]
                    &&& resp.evts() == seq![
                        (
                            "post_burn"@,
                            seq![
                                ("token"@, ctx.contract@),
                                ("operator"@, ctx.sender.text@),
                                ("from"@, ctx.sender.text@),
                                ("amount"@, decimal(amount as nat)),
                            ],
                        ),
                    ]
                },
                Err(e) => burn_error(old(self)@, *ctx, amount) == Some(e@) && final(self)@ == old(self)@,
            },
    {
        if amount == 0 {
            return Err(ContractError::InvalidRequest);
        }
        if self.paused {
            return Err(ContractError::Paused);
        }
        let from = match ctx.sender.check() {
            Ok(a) => a,
            Err(e) => return Err(ContractError::Std(e)),
        };
        if flag(&self.frozen, &from) {
            return Err(ContractError::NotCompliant(text("sender frozen")));
        }
        self.burn_from(&from, amount)?;
        let mut resp: TokenResponse = Response::new();
        match &self.compliance {
            Some(Some(c)) => {
                resp.msg(TokenMsg::Destroyed { compliance: c.clone(), from: from.clone(), amount });
            },
            _ => {},
        }
        assert(msgs_view(resp.messages@) =~= destroyed_msgs(old(self)@, ctx.sender.text@, amount));
        resp.attr("action", text("burn"));
        let mut ev = Event::new("post_burn");
        ev.attr("token", ctx.contract.clone());
        ev.attr("operator", ctx.sender.text.clone());
        ev.attr("from", ctx.sender.text.clone());
        ev.attr("amount", decimal_string(amount));
        assert(ev@.1 =~= seq![
            ("token"@, ctx.contract@),
            ("operator"@, ctx.sender.text@),
            ("from"@, ctx.sender.text@),
            ("amount"@, decimal(amount as nat)),
        ]);
        resp.event(ev);
        resp.attr("from", ctx.sender.text.clone());
        resp.attr("amount", decimal_string(amount));
        assert(resp.attrs() =~= seq![
            ("action"@, "burn"@),
            ("from"@, ctx.sender.text@),
            ("amount"@, decimal(amount as nat)),
        ]);
        Ok(resp)
    }

    /// Owner or agent: destroys `amount` of `from`'s tokens, whether paused
    /// or frozen or not.
    pub fn force_burn(&mut self, ctx: &Ctx, from: AddrInput, amount: u128) -> (r: Result<
        TokenResponse,
        ContractError,
    >)
        requires
            old(self).wf(),
        ensures
            final(self).wf(),
            old(self).supply_consistent() ==> final(self).supply_consistent(),
            match r {
                Ok(resp) => {
                    &&& force_burn_error(old(self)@, *ctx, from, amount) is None
                    &&& final(self)@ == burned(old(self)@, from.text@, amount)
                    &&& msgs_view(resp.messages@) == destroyed_msgs(old(self)@, from.text@, amount)
                    &&& resp.attrs() == seq![
                        ("action"@, "force_burn"@),
                        ("agent"@, ctx.sender.text@),
                        ("from"@, from.text@),
                        ("amount"@, decimal(amount as nat)),
                    ]
                    &&& resp.evts() == seq![
                        (
                            "post_force_burn"@,
                            seq![
                                ("token"@, ctx.contract@),
                                ("agent"@, ctx.sender.text@),
                                ("from"@, from.text@),
                                ("amount"@, decimal(amount as nat)),
                            ],
                        ),
                    ]
                },
                Err(e) => force_burn_error(old(self)@, *ctx, from, amount) == Some(e@) && final(self)@
                    == old(self)@,
            },
    {
        self.only_owner_or_agent(ctx)?;
        if amount == 0 {
            return Err(ContractError::InvalidRequest);
        }
        let a = match from.check() {
            Ok(a) => a,
            Err(e) => return Err(ContractError::Std(e)),
        };
        self.burn_from(&a, amount)?;
        let mut resp: TokenResponse = Response::new();
        match &self.compliance {
            Some(Some(c)) => {
                resp.msg(TokenMsg::Destroyed { compliance: c.clone(), from: a.clone(), amount });
            },
            _ => {},
        }
        assert(msgs_view(resp.messages@) =~= destroyed_msgs(old(self)@, from.text@, amount));
        resp.attr("action", text("force_burn"));
        let mut ev = Event::new("post_force_burn");
        ev.attr("token", ctx.contract.clone());
        ev.attr("agent", ctx.sender.text.clone());
        ev.attr("from", a.clone());
        ev.attr("amount", decimal_string(amount));
        assert(ev@.1 =~= seq![
            ("token"@, ctx.contract@),
            ("agent"@, ctx.sender.text@),
            ("from"@, from.text@),
            ("amount"@, decimal(amount as nat)),
        ]);
        resp.event(ev);
        resp.attr("agent", ctx.sender.text.clone());
        resp.attr("from", a);
        resp.attr("amount", decimal_string(amount));
        assert(resp.attrs() =~= seq![
            ("action"@, "force_burn"@),
            ("agent"@, ctx.sender.text@),
            ("from"@, from.text@),
            ("amount"@, decimal(amount as nat)),
        ]);
        Ok(resp)
    }

    /// A forced transfer by the controller, which goes through even while
    /// paused: refuses another caller, rejected addresses and a frozen
    /// recipient, then lays out the recipient's checks and the compliance
    /// checks.
    pub fn begin_force_transfer(&self, ctx: &Ctx, from: &AddrInput, to: &AddrInput, amount: u128) -> (r:
        Result<Checks, ContractError>)
        requires
            self.wf(),
        ensures
            r is Ok ==> !self@.is_frozen(to.text@),
            match r {
                Ok(c) => force_transfer_precheck(self@, *ctx, *from, *to) is None && c.next == 0
                    && c.token == ctx.contract && steps_view(c.steps@) == force_transfer_plan(
                    *self,
                    from.text@,
                    to.text@,
                    amount,
                ),
                Err(e) => force_transfer_precheck(self@, *ctx, *from, *to) == Some(e@),
            },
    {
        self.only_controller(ctx)?;
        let f = match from.check() {
            Ok(a) => a,
            Err(e) => return Err(ContractError::Std(e)),
        };
        let t = match to.check() {
            Ok(a) => a,
            Err(e) => return Err(ContractError::Std(e)),
        };
        if flag(&self.frozen, &t) {
            return Err(ContractError::NotCompliant(text("recipient frozen")));
        }
        let mut steps: Vec<Step> = Vec::new();
        self.push_verify(&mut steps, &t);
        self.push_compliance(&mut steps, &f, &t, amount);
        assert(steps_view(steps@) =~= force_transfer_plan(*self, from.text@, to.text@, amount));
        Ok(Checks::fresh(steps, ctx.contract.clone()))
    }

    /// Completes a forced transfer once its checks passed.
    pub fn finish_force_transfer(
        &mut self,
        ctx: &Ctx,
        checks: &Checks,
        from: &AddrInput,
        to: &AddrInput,
        amount: u128,
        reason: Option<String>,
    ) -> (r: Result<TokenResponse, ContractError>)
        requires
            old(self).wf(),
            force_transfer_precheck(old(self)@, *ctx, *from, *to) is None,
            steps_view(checks.steps@) == force_transfer_plan(*old(self), from.text@, to.text@, amount),
            checks.passed(old(self)@),
        ensures
            r is Ok ==> ctx.sender.text@ == old(self)@.controller,
            r is Ok ==> forall|k: int| 0 <= k < checks.steps@.len() && crate::token::checks::asks(#[trigger] checks.steps@[k]@) ==> crate::token::checks::said_yes(checks.answers@[k]),
            r is Ok ==> !old(self)@.is_frozen(to.text@),
            final(self).wf(),
            old(self).supply_consistent() ==> final(self).supply_consistent(),
            match r {
                Ok(resp) => {
                    &&& move_error(old(self)@.balances, from.text@, to.text@, amount) is None
                    &&& final(self)@ == with_balances(
                        old(self)@,
                        moved(old(self)@.balances, from.text@, to.text@, amount),
                    )
                    &&& msgs_view(resp.messages@) == transferred_msgs(
                        old(self)@,
                        from.text@,
                        to.text@,
                        amount,
                    )
                    &&& resp.attrs() == seq![
                        ("action"@, "force_transfer"@),
                        ("from"@, from.text@),
                        ("to"@, to.text@),
                        ("amount"@, decimal(amount as nat)),
                        (
                            "reason"@,
                            match reason {
                                Some(s) => s@,
                                None => Seq::<char>::empty(),
                            },
                        ),
                    ]
                    &&& resp.evts() == seq![
                        (
                            "post_force_transfer"@,
                            seq![
                                ("token"@, ctx.contract@),
                                ("operator"@, ctx.sender.text@),
                                ("from"@, from.text@),
                                ("to"@, to.text@),
                                ("amount"@, decimal(amount as nat)),
                            ],
                        ),
                    ]
                },
                Err(e) => move_error(old(self)@.balances, from.text@, to.text@, amount) == Some(e@)
                    && final(self)@ == old(self)@,
            },
    {
        proof {
            crate::token::checks::lemma_passed_questions_said_yes(*checks, self@);
        }
        self.move_balance(&from.text, &to.text, amount)?;
        let mut resp: TokenResponse = Response::new();
        match &self.compliance {
            Some(Some(c)) => {
                resp.msg(
                    TokenMsg::Transferred {
                        compliance: c.clone(),
                        from: from.text.clone(),
                        to: to.text.clone(),
                        amount,
                    },
                );
            },
            _ => {},
        }
        assert(msgs_view(resp.messages@) =~= transferred_msgs(old(self)@, from.text@, to.text@, amount));
        resp.attr("action", text("force_transfer"));
        let mut ev = Event::new("post_force_transfer");
        ev.attr("token", ctx.contract.clone());
        ev.attr("operator", ctx.sender.text.clone());
        ev.attr("from", from.text.clone());
        ev.attr("to", to.text.clone());
        ev.attr("amount", decimal_string(amount));
        assert(ev@.1 =~= seq![
            ("token"@, ctx.contract@),
            ("operator"@, ctx.sender.text@),
            ("from"@, from.text@),
            ("to"@, to.text@),
            ("amount"@, decimal(amount as nat)),
        ]);
        resp.event(ev);
        resp.attr("from", from.text.clone());
        resp.attr("to", to.text.clone());
        resp.attr("amount", decimal_string(amount));
        let reason_text = match reason {
            Some(s) => s,
            None => String::new(),
        };
        resp.attr("reason", reason_text);
        assert(resp.attrs() =~= seq![
            ("action"@, "force_transfer"@),
            ("from"@, from.text@),
            ("to"@, to.text@),
            ("amount"@, decimal(amount as nat)),
            (
                "reason"@,
                match reason {
                    Some(s) => s@,
                    None => Seq::<char>::empty(),
                },
            ),
        ]);
        Ok(resp)
    }

    /// A transfer by the caller of `owner`'s tokens under an allowance:
    /// refuses a pause, rejected addresses and a frozen owner or recipient,
    /// then lays out the verification of both, the allowance and compliance.
    pub fn begin_transfer_from(&self, ctx: &Ctx, owner: &AddrInput, recipient: &AddrInput, amount: u128) -> (r:
        Result<Checks, ContractError>)
        requires
            self.wf(),
        ensures
            match r {
                Ok(c) => transfer_from_precheck(self@, *ctx, *owner, *recipient) is None && c.next
                    == 0 && c.token == ctx.contract && steps_view(c.steps@) == transfer_from_plan(
                    *self,
                    ctx.sender.text@,
                    owner.text@,
                    recipient.text@,
                    amount,
                ),
                Err(e) => transfer_from_precheck(self@, *ctx, *owner, *recipient) == Some(e@),
            },
    {
        if self.paused {
            return Err(ContractError::Paused);
        }
        let spender = match ctx.sender.check() {
            Ok(a) => a,
            Err(e) => return Err(ContractError::Std(e)),
        };
        let o = match owner.check() {
            Ok(a) => a,
            Err(e) => return Err(ContractError::Std(e)),
        };
        let t = match recipient.check() {
            Ok(a) => a,
            Err(e) => return Err(ContractError::Std(e)),
        };
        if flag(&self.frozen, &o) {
            return Err(ContractError::NotCompliant(text("owner frozen")));
        }
        if flag(&self.frozen, &t) {
            return Err(ContractError::NotCompliant(text("recipient frozen")));
        }
        let mut steps: Vec<Step> = Vec::new();
        self.push_verify(&mut steps, &o);
        self.push_verify(&mut steps, &t);
        let ghost before = steps_view(steps@);
        steps.push(Step::AllowanceCovers { owner: o.clone(), spender, amount });
        assert(steps_view(steps@) =~= before.push(steps@.last()@));
        self.push_compliance(&mut steps, &o, &t, amount);
        assert(steps_view(steps@) =~= transfer_from_plan(
            *self,
            ctx.sender.text@,
            owner.text@,
            recipient.text@,
            amount,
        ));
        Ok(Checks::fresh(steps, ctx.contract.clone()))
    }

    /// Completes a transfer under an allowance once its checks passed:
    /// moves the tokens and lowers the allowance by the amount.
    pub fn finish_transfer_from(
        &mut self,
        ctx: &Ctx,
        checks: &Checks,
        owner: &AddrInput,
        recipient: &AddrInput,
        amount: u128,
    ) -> (r: Result<TokenResponse, ContractError>)
        requires
            old(self).wf(),
            transfer_from_precheck(old(self)@, *ctx, *owner, *recipient) is None,
            steps_view(checks.steps@) == transfer_from_plan(
                *old(self),
                ctx.sender.text@,
                owner.text@,
                recipient.text@,
                amount,
            ),
            checks.passed(old(self)@),
        ensures
            r is Ok ==> forall|k: int| 0 <= k < checks.steps@.len() && crate::token::checks::asks(#[trigger] checks.steps@[k]@) ==> crate::token::checks::said_yes(checks.answers@[k]),
            r is Ok ==> !old(self)@.is_frozen(owner.text@) && !old(self)@.is_frozen(recipient.text@),
            final(self).wf(),
            old(self).supply_consistent() ==> final(self).supply_consistent(),
            match r {
                Ok(resp) => {
                    &&& move_error(old(self)@.balances, owner.text@, recipient.text@, amount) is None
                    &&& final(self)@ == (TokenModel {
                        balances: moved(old(self)@.balances, owner.text@, recipient.text@, amount),
                        allowances: old(self)@.allowances.insert(
                            (owner.text@, ctx.sender.text@),
                            (old(self)@.allowance(owner.text@, ctx.sender.text@) - amount) as u128,
                        ),
                        ..old(self)@
                    })
                    &&& msgs_view(resp.messages@) == transferred_msgs(
                        old(self)@,
                        owner.text@,
                        recipient.text@,
                        amount,
                    )
                    &&& resp.attrs() == seq![
                        ("action"@, "transfer_from"@),
                        ("owner"@, owner.text@),
                        ("recipient"@, recipient.text@),
                        ("amount"@, decimal(amount as nat)),
                    ]
                    &&& resp.evts() == seq![
                        (
                            "post_transfer"@,
                            seq![
                                ("token"@, ctx.contract@),
                                ("operator"@, ctx.sender.text@),
                                ("from"@, owner.text@),
                                ("to"@, recipient.text@),
                                ("amount"@, decimal(amount as nat)),
                                ("method"@, "transfer_from"@),
                            ],
                        ),
                    ]
                },
                Err(e) => move_error(old(self)@.balances, owner.text@, recipient.text@, amount) == Some(
                    e@,
                ) && final(self)@ == old(self)@,
            },
    {
        proof {
            crate::token::checks::lemma_passed_questions_said_yes(*checks, self@);
        }
        proof {
            let s = steps_view(checks.steps@);
            assert(verify_plan(old(self)@, owner.text@).len() == 2);
            assert(verify_plan(old(self)@, recipient.text@).len() == 2);
            assert(s[4] == StepView::AllowanceCovers { owner: owner.text@, spender: ctx.sender.text@, amount });
            assert(s.len() == checks.steps@.len());
            assert(s.len() >= 5);
            assert(checks.steps@[4]@ == s[4]);
            assert(verdict(old(self)@, checks.steps@[4]@, checks.answers@[4]) is None);
        }
        self.move_balance(&owner.text, &recipient.text, amount)?;
        let cur = match self.allowances.get(&owner.text, &ctx.sender.text) {
            Some(v) => v,
            None => 0,
        };
        self.allowances.insert(owner.text.clone(), ctx.sender.text.clone(), cur - amount);
        let mut resp: TokenResponse = Response::new();
        match &self.compliance {
            Some(Some(c)) => {
                resp.msg(
                    TokenMsg::Transferred {
                        compliance: c.clone(),
                        from: owner.text.clone(),
                        to: recipient.text.clone(),
                        amount,
                    },
                );
            },
            _ => {},
        }
        assert(msgs_view(resp.messages@) =~= transferred_msgs(
            old(self)@,
            owner.text@,
            recipient.text@,
            amount,
        ));
        resp.attr("action", text("transfer_from"));
        resp.attr("owner", owner.text.clone());
        resp.attr("recipient", recipient.text.clone());
        resp.attr("amount", decimal_string(amount));
        let mut ev = Event::new("post_transfer");
        ev.attr("token", ctx.contract.clone());
        ev.attr("operator", ctx.sender.text.clone());
        ev.attr("from", owner.text.clone());
        ev.attr("to", recipient.text.clone());
        ev.attr("amount", decimal_string(amount));
        ev.attr("method", text("transfer_from"));
        assert(ev@.1 =~= seq![
            ("token"@, ctx.contract@),
            ("operator"@, ctx.sender.text@),
            ("from"@, owner.text@),
            ("to"@, recipient.text@),
            ("amount"@, decimal(amount as nat)),
            ("method"@, "transfer_from"@),
        ]);
        resp.event(ev);
        assert(resp.attrs() =~= seq![
            ("action"@, "transfer_from"@),
            ("owner"@, owner.text@),
            ("recipient"@, recipient.text@),
            ("amount"@, decimal(amount as nat)),
        ]);
        assert(self@ =~= (TokenModel {
            balances: moved(old(self)@.balances, owner.text@, recipient.text@, amount),
            allowances: old(self)@.allowances.insert(
                (owner.text@, ctx.sender.text@),
                (old(self)@.allowance(owner.text@, ctx.sender.text@) - amount) as u128,
            ),
            ..old(self)@
        }));
        Ok(resp)
    }

    /// The start of a batch transfer by the caller: refuses a pause and a
    /// rejected caller, else sets out from the current balances.
    pub fn begin_batch(&self, ctx: &Ctx) -> (r: Result<BatchRun, ContractError>)
        requires
            self.wf(),
        ensures
            match r {
                Ok(run) => batch_precheck(self@, *ctx) is None && run.start@ == self@.balances && run.start_total@
                    == total(self.balances) && run.items@.len() == 0 && run.inv(ctx.sender.text@) && plain(
                    run.resp,
                    seq![("action"@, "batch_transfer"@)],
                ),
                Err(e) => batch_precheck(self@, *ctx) == Some(e@),
            },
    {
        if self.paused {
            return Err(ContractError::Paused);
        }
        match ctx.sender.check() {
            Ok(_) => {},
            Err(e) => return Err(ContractError::Std(e)),
        }
        let balances = self.balances.duplicate();
        assert(balances@ == self@.balances);
        Ok(
            BatchRun {
                balances,
                resp: crate::token::auth::action_response("batch_transfer"),
                start: Ghost(self@.balances),
                start_total: Ghost(total(self.balances)),
                items: Ghost(Seq::empty()),
            },
        )
    }

    /// One item of a batch: refuses a rejected recipient, then lays out the
    /// transfer checks (no check of the amount, unlike a single transfer).
    pub fn begin_batch_item(&self, ctx: &Ctx, recipient: &AddrInput, amount: u128) -> (r: Result<
        Checks,
        ContractError,
    >)
        requires
            self.wf(),
        ensures
            match r {
                Ok(c) => recipient.valid() && c.next == 0 && c.token == ctx.contract && steps_view(
                    c.steps@,
                ) == transfer_plan(*self, ctx.sender.text@, recipient.text@, amount),
                Err(e) => !recipient.valid() && e@ == TokenErr::Std(recipient.rejection->0@),
            },
    {
        let t = match recipient.check() {
            Ok(a) => a,
            Err(e) => return Err(ContractError::Std(e)),
        };
        Ok(self.transfer_checks(&ctx.sender.text, &t, amount, &ctx.contract))
    }

    /// One item of a batch once its checks passed: moves the tokens on the
    /// batch's balances and records the item in the batch's response. The
    /// token itself is left as it is until the batch is committed.
    pub fn finish_batch_item(
        &self,
        ctx: &Ctx,
        checks: &Checks,
        recipient: &AddrInput,
        amount: u128,
        run: &mut BatchRun,
    ) -> (r: Result<(), ContractError>)
        requires
            self.wf(),
            old(run).inv(ctx.sender.text@),
            batch_precheck(self@, *ctx) is None,
            recipient.valid(),
            steps_view(checks.steps@) == transfer_plan(*self, ctx.sender.text@, recipient.text@, amount),
            checks.passed(self@),
        ensures
            r is Ok ==> !self@.paused && !self@.is_denylisted(ctx.sender.text@) && !self@.is_denylisted(recipient.text@),
            r is Ok ==> forall|k: int| 0 <= k < checks.steps@.len() && crate::token::checks::asks(#[trigger] checks.steps@[k]@) ==> crate::token::checks::said_yes(checks.answers@[k]),
            r is Ok ==> !self@.is_frozen(ctx.sender.text@) && !self@.is_frozen(recipient.text@),
            final(run).inv(ctx.sender.text@),
            final(run).start == old(run).start,
            final(run).start_total == old(run).start_total,
            match r {
                Ok(_) => {
                    &&& move_error(old(run).balances@, ctx.sender.text@, recipient.text@, amount) is None
                    &&& final(run).items@ == old(run).items@.push((recipient.text@, amount))
                    &&& final(run).resp.messages@ == old(run).resp.messages@
                    &&& final(run).resp.evts() == old(run).resp.evts()
                    &&& final(run).resp.attrs() == old(run).resp.attrs() + seq![
                        ("to"@, recipient.text@),
                        ("amount"@, decimal(amount as nat)),
                    ]
                },
                Err(e) => move_error(old(run).balances@, ctx.sender.text@, recipient.text@, amount) == Some(e@)
                    && *final(run) == *old(run),
            },
    {
        proof {
            crate::token::checks::lemma_passed_questions_said_yes(*checks, self@);
            crate::token::laws::lemma_passed_transfer_checks(*self, *checks, ctx.sender.text@, recipient.text@, amount);
        }
        move_amount(&mut run.balances, &ctx.sender.text, &recipient.text, amount)?;
        run.items = Ghost(run.items@.push((recipient.text@, amount)));
        assert(run.items@.drop_last() =~= old(run).items@);
        let ghost a0 = run.resp.attrs();
        run.resp.attr("to", recipient.text.clone());
        run.resp.attr("amount", decimal_string(amount));
        assert(run.resp.attrs() =~= a0 + seq![
            ("to"@, recipient.text@),
            ("amount"@, decimal(amount as nat)),
        ]);
        Ok(())
    }

    /// Ends a batch whose items all went through: the token takes the
    /// batch's balances, which the items reached one after another from the
    /// balances the batch began with.
    pub fn commit_batch(&mut self, ctx: &Ctx, run: BatchRun) -> (resp: TokenResponse)
        requires
            old(self).wf(),
            run.inv(ctx.sender.text@),
            run.start@ == old(self)@.balances,
            run.start_total@ == total(old(self).balances),
        ensures
            final(self).wf(),
            old(self).supply_consistent() ==> final(self).supply_consistent(),
            final(self)@ == with_balances(old(self)@, batch_moved(old(self)@.balances, ctx.sender.text@, run.items@)),
            resp == run.resp,
    {
        self.balances = run.balances;
        assert(self@ =~= with_balances(old(self)@, batch_moved(old(self)@.balances, ctx.sender.text@, run.items@)));
        run.resp
    }

    /// Lets `spender` move up to `amount` of the caller's tokens; the
    /// spender must have an approved KYC status.
    pub fn approve(&mut self, ctx: &Ctx, spender: AddrInput, amount: u128) -> (r: Result<
        TokenResponse,
        ContractError,
    >)
        requires
            old(self).wf(),
        ensures
            final(self).wf(),
            old(self).supply_consistent() ==> final(self).supply_consistent(),
            match r {
                Ok(resp) => approve_error(old(self)@, *ctx, spender) is None && final(self)@ == (
                TokenModel {
                    allowances: old(self)@.allowances.insert(
                        (ctx.sender.text@, spender.text@),
                        amount,
                    ),
                    ..old(self)@
                }) && plain(
                    resp,
                    seq![
                        ("action"@, "approve"@),
                        ("owner"@, ctx.sender.text@),
                        ("spender"@, spender.text@),
                        ("amount"@, decimal(amount as nat)),
                    ],
                ),
                Err(e) => approve_error(old(self)@, *ctx, spender) == Some(e@) && final(self)@ == old(self)@,
            },
    {
        if self.paused {
            return Err(ContractError::Paused);
        }
        let owner = match ctx.sender.check() {
            Ok(a) => a,
            Err(e) => return Err(ContractError::Std(e)),
        };
        let sp = match spender.check() {
            Ok(a) => a,
            Err(e) => return Err(ContractError::Std(e)),
        };
        if !self.is_approved(&sp) {
            return Err(ContractError::KycNotApproved(spender.text));
        }
        self.allowances.insert(owner.clone(), sp, amount);
        let mut resp: TokenResponse = Response::new();
        resp.attr("action", text("approve"));
        resp.attr("owner", owner);
        resp.attr("spender", spender.text);
        resp.attr("amount", decimal_string(amount));
        assert(resp.attrs() =~= seq![
            ("action"@, "approve"@),
            ("owner"@, ctx.sender.text@),
            ("spender"@, spender.text@),
            ("amount"@, decimal(amount as nat)),
        ]);
        Ok(resp)
    }
}

} // verus!
