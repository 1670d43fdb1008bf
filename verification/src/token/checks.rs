//! The checks a movement of tokens passes before it is made, some of which ask
//! other contracts: the identity registry whether a wallet is verified, the
//! compliance contract and the rule plugins whether a transfer is allowed.
//! The checks run in a fixed order and the first refusal decides; the token
//! hands each question to its caller and resumes with the answer.
use vstd::prelude::*;
use crate::common::{StdFailure, text, text_or};
use crate::token::types::{ContractError, TokenErr};
use crate::token::state::{TokenState, TokenModel};

verus! {

/// Which party's freeze a check looks at.
#[derive(Clone, Copy, Debug, PartialEq, Eq, Structural)]
pub enum Party {
    Sender,
    Recipient,
    Owner,
}

pub open spec fn frozen_text(p: Party) -> Seq<char> {
    match p {
        Party::Sender => "sender frozen"@,
        Party::Recipient => "recipient frozen"@,
        Party::Owner => "owner frozen"@,
    }
}

/// Who is asked whether a transfer may happen.
#[derive(Clone, Copy, Debug, PartialEq, Eq, Structural)]
pub enum Judge {
    /// The configured compliance contract.
    Compliance,
    /// A rule plugin.
    Plugin,
}

pub open spec fn judge_fallback(j: Judge) -> Seq<char> {
    match j {
        Judge::Compliance => "not allowed"@,
        Judge::Plugin => "plugin denied"@,
    }
}

/// Which movement a per-address limit bounds.
#[derive(Clone, Copy, Debug, PartialEq, Eq, Structural)]
pub enum LimitUse {
    /// The sender's limit on a transfer.
    Transfer,
    /// The recipient's limit on a mint.
    Mint,
}

pub open spec fn limit_text(u: LimitUse) -> Seq<char> {
    match u {
        LimitUse::Transfer => "transfer amount exceeds configured limit"@,
        LimitUse::Mint => "mint amount exceeds recipient's transfer limit"@,
    }
}

/// One check.
#[derive(Debug)]
pub enum Step {
    /// `wallet` must not be frozen.
    NotFrozen { wallet: String, party: Party },
    /// `wallet` must not be denylisted.
    NotDenylisted { wallet: String },
    /// The identity registry must say that `wallet` is verified.
    AskRegistry { registry: String, wallet: String },
    /// `wallet` must have an approved KYC status.
    KycApproved { wallet: String },
    /// `judge` at `contract` must allow moving `amount` from `from` to `to`.
    AskTransfer { judge: Judge, contract: String, from: String, to: String, amount: u128 },
    /// `amount` must not exceed `wallet`'s limit, if it has one.
    WithinLimit { wallet: String, amount: u128, use_: LimitUse },
    /// `spender` must be allowed to move at least `amount` of `owner`'s tokens.
    AllowanceCovers { owner: String, spender: String, amount: u128 },
}

/// A check with its texts taken by their contents.
pub enum StepView {
    NotFrozen { wallet: Seq<char>, party: Party },
    NotDenylisted { wallet: Seq<char> },
    AskRegistry { registry: Seq<char>, wallet: Seq<char> },
    KycApproved { wallet: Seq<char> },
    AskTransfer { judge: Judge, contract: Seq<char>, from: Seq<char>, to: Seq<char>, amount: u128 },
    WithinLimit { wallet: Seq<char>, amount: u128, use_: LimitUse },
    AllowanceCovers { owner: Seq<char>, spender: Seq<char>, amount: u128 },
}

impl View for Step {
    type V = StepView;

    open spec fn view(&self) -> StepView {
        match self {
            Step::NotFrozen { wallet, party } => StepView::NotFrozen { wallet: wallet@, party: *party },
            Step::NotDenylisted { wallet } => StepView::NotDenylisted { wallet: wallet@ },
            Step::AskRegistry { registry, wallet } => StepView::AskRegistry {
                registry: registry@,
                wallet: wallet@,
            },
            Step::KycApproved { wallet } => StepView::KycApproved { wallet: wallet@ },
            Step::AskTransfer { judge, contract, from, to, amount } => StepView::AskTransfer {
                judge: *judge,
                contract: contract@,
                from: from@,
                to: to@,
                amount: *amount,
            },
            Step::WithinLimit { wallet, amount, use_ } => StepView::WithinLimit {
                wallet: wallet@,
                amount: *amount,
                use_: *use_,
            },
            Step::AllowanceCovers { owner, spender, amount } => StepView::AllowanceCovers {
                owner: owner@,
                spender: spender@,
                amount: *amount,
            },
        }
    }
}

pub open spec fn steps_view(s: Seq<Step>) -> Seq<StepView> {
    s.map_values(|x: Step| x@)
}

/// A question for another contract.
#[derive(Debug)]
pub enum Query {
    /// `IsVerified { wallet }` to the identity registry at `registry`.
    IsVerified { registry: String, wallet: String },
    /// `CanTransfer { token, from, to, amount }` to the contract at `contract`.
    CanTransfer { contract: String, token: String, from: String, to: String, amount: u128 },
}

pub enum QueryView {
    IsVerified { registry: Seq<char>, wallet: Seq<char> },
    CanTransfer { contract: Seq<char>, token: Seq<char>, from: Seq<char>, to: Seq<char>, amount: u128 },
}

impl View for Query {
    type V = QueryView;

    open spec fn view(&self) -> QueryView {
        match self {
            Query::IsVerified { registry, wallet } => QueryView::IsVerified {
                registry: registry@,
                wallet: wallet@,
            },
            Query::CanTransfer { contract, token, from, to, amount } => QueryView::CanTransfer {
                contract: contract@,
                token: token@,
                from: from@,
                to: to@,
                amount: *amount,
            },
        }
    }
}

/// The answer to a question: whether the wallet is verified or the transfer
/// allowed, with the reason given, or the failure of the query itself.
pub type Answer = Result<(bool, Option<String>), StdFailure>;

pub open spec fn asks(s: StepView) -> bool {
    s is AskRegistry || s is AskTransfer
}

/// The question a check asks, for the token at `token`.
pub open spec fn question(s: StepView, token: Seq<char>) -> QueryView {
    match s {
        StepView::AskRegistry { registry, wallet } => QueryView::IsVerified { registry, wallet },
        StepView::AskTransfer { contract, from, to, amount, .. } => QueryView::CanTransfer {
            contract,
            token,
            from,
            to,
            amount,
        },
        _ => QueryView::IsVerified { registry: seq![], wallet: seq![] },
    }
}

pub open spec fn reason_or(r: Option<String>, d: Seq<char>) -> Seq<char> {
    match r {
        Some(s) => s@,
        None => d,
    }
}

/// The refusal a check gives on state `m` (and, for a question, the answer),
/// or `None` when it passes.
pub open spec fn verdict(m: TokenModel, s: StepView, a: Option<Answer>) -> Option<TokenErr> {
    match s {
        StepView::NotFrozen { wallet, party } => if m.is_frozen(wallet) {
            Some(TokenErr::NotCompliant(frozen_text(party)))
        } else {
            None
        },
        StepView::NotDenylisted { wallet } => if m.is_denylisted(wallet) {
            Some(TokenErr::NotCompliant("denylisted"@))
        } else {
            None
        },
        StepView::AskRegistry { wallet, .. } => match a {
            Some(Err(f)) => Some(TokenErr::Std(f@)),
            Some(Ok((ok, reason))) => if ok {
                None
            } else {
                Some(TokenErr::NotVerified(reason_or(reason, wallet)))
            },
            None => None,
        },
        StepView::KycApproved { wallet } => if m.kyc_approved(wallet) {
            None
        } else {
            Some(TokenErr::KycNotApproved(wallet))
        },
        StepView::AskTransfer { judge, .. } => match a {
            Some(Err(f)) => Some(TokenErr::Std(f@)),
            Some(Ok((ok, reason))) => if ok {
                None
            } else {
                Some(TokenErr::NotCompliant(reason_or(reason, judge_fallback(judge))))
            },
            None => None,
        },
        StepView::WithinLimit { wallet, amount, use_ } => match m.limit_of(wallet) {
            Some(l) => if amount > l {
                Some(TokenErr::NotCompliant(limit_text(use_)))
            } else {
                None
            },
            None => None,
        },
        StepView::AllowanceCovers { owner, spender, amount } => if m.allowance(owner, spender)
            < amount {
            Some(TokenErr::InsufficientFunds)
        } else {
            None
        },
    }
}

/// The checks of one movement, and how far they have run.
pub struct Checks {
    pub steps: Vec<Step>,
    pub next: usize,
    /// This token's address, sent along with transfer questions.
    pub token: String,
    /// For each check already passed, the answer it was judged on (`None`
    /// for a check that asks nothing).
    pub answers: Ghost<Seq<Option<Answer>>>,
}

impl Checks {
    /// Every check before `next` passed on state `m`: a question on the
    /// answer recorded for it, any other check on `m` alone.
    pub open spec fn judged(&self, m: TokenModel) -> bool {
        &&& self.next <= self.steps@.len()
        &&& self.answers@.len() == self.next
        &&& forall|k: int|
            0 <= k < self.next ==> (asks(self.steps@[k]@) <==> self.answers@[k] is Some) && verdict(
                m,
                self.steps@[k]@,
                #[trigger] self.answers@[k],
            ) is None
    }

    /// Every check passed on state `m`.
    pub open spec fn passed(&self, m: TokenModel) -> bool {
        self.judged(m) && self.next == self.steps@.len()
    }

    /// The checks `steps`, none run yet.
    pub fn fresh(steps: Vec<Step>, token: String) -> (c: Checks)
        ensures
            c.steps == steps,
            c.next == 0,
            c.token == token,
            c.answers@ == Seq::<Option<Answer>>::empty(),
    {
        Checks { steps, next: 0, token, answers: Ghost(Seq::empty()) }
    }
}

/// What running the checks calls for next.
#[derive(Debug)]
pub enum Progress {
    /// Ask this question and resume with its answer.
    Ask(Query),
    /// Every check passed.
    Passed,
    /// A check refused.
    Refused(ContractError),
}

impl Step {
    fn duplicate(&self) -> (r: Step)
        ensures
            r@ == self@,
    {
        match self {
            Step::NotFrozen { wallet, party } => Step::NotFrozen { wallet: wallet.clone(), party: *party },
            Step::NotDenylisted { wallet } => Step::NotDenylisted { wallet: wallet.clone() },
            Step::AskRegistry { registry, wallet } => Step::AskRegistry {
                registry: registry.clone(),
                wallet: wallet.clone(),
            },
            Step::KycApproved { wallet } => Step::KycApproved { wallet: wallet.clone() },
            Step::AskTransfer { judge, contract, from, to, amount } => Step::AskTransfer {
                judge: *judge,
                contract: contract.clone(),
                from: from.clone(),
                to: to.clone(),
                amount: *amount,
            },
            Step::WithinLimit { wallet, amount, use_ } => Step::WithinLimit {
                wallet: wallet.clone(),
                amount: *amount,
                use_: *use_,
            },
            Step::AllowanceCovers { owner, spender, amount } => Step::AllowanceCovers {
                owner: owner.clone(),
                spender: spender.clone(),
                amount: *amount,
            },
        }
    }
}

impl TokenState {
    fn flag_set(m: &crate::addr_map::AddrMap<bool>, a: &String) -> (r: bool)
        requires
            m.wf(),
        ensures
            r == TokenModel::flag(m@, a@),
    {
        match m.get(a) {
            Some(v) => *v,
            None => false,
        }
    }

    /// Judges a check that asks nothing.
    fn judge_local(&self, step: &Step) -> (r: Option<ContractError>)
        requires
            self.wf(),
            !asks(step@),
        ensures
            match r {
                Some(e) => verdict(self@, step@, None) == Some(e@),
                None => verdict(self@, step@, None) is None,
            },
    {
        match step {
            Step::NotFrozen { wallet, party } => {
                if Self::flag_set(&self.frozen, wallet) {
                    let t = match party {
                        Party::Sender => text("sender frozen"),
                        Party::Recipient => text("recipient frozen"),
                        Party::Owner => text("owner frozen"),
                    };
                    Some(ContractError::NotCompliant(t))
                } else {
                    None
                }
            },
            Step::NotDenylisted { wallet } => {
                if Self::flag_set(&self.denylist, wallet) {
                    Some(ContractError::NotCompliant(text("denylisted")))
                } else {
                    None
                }
            },
            Step::KycApproved { wallet } => {
                if self.is_approved(wallet) {
                    None
                } else {
                    Some(ContractError::KycNotApproved(wallet.clone()))
                }
            },
            Step::WithinLimit { wallet, amount, use_ } => {
                let lim = match self.transfer_limits.get(wallet) {
                    Some(l) => *l,
                    None => None,
                };
                match lim {
                    Some(l) => {
                        if *amount > l {
                            let t = match use_ {
                                LimitUse::Transfer => text("transfer amount exceeds configured limit"),
                                LimitUse::Mint => text("mint amount exceeds recipient's transfer limit"),
                            };
                            Some(ContractError::NotCompliant(t))
                        } else {
                            None
                        }
                    },
                    None => None,
                }
            },
            Step::AllowanceCovers { owner, spender, amount } => {
                let a = match self.allowances.get(owner, spender) {
                    Some(v) => v,
                    None => 0,
                };
                if a < *amount {
                    Some(ContractError::InsufficientFunds)
                } else {
                    None
                }
            },
            _ => None,
        }
    }

    /// Judges a question by its answer.
    fn judge_answer(step: &Step, answer: Answer) -> (r: Option<ContractError>)
        requires
            asks(step@),
        ensures
            forall|m: TokenModel|
                match r {
                    Some(e) => verdict(m, step@, Some(answer)) == Some(e@),
                    None => verdict(m, step@, Some(answer)) is None,
                },
    {
        match answer {
            Err(f) => Some(ContractError::Std(f)),
            Ok((ok, reason)) => {
                if ok {
                    None
                } else {
                    match step {
                        Step::AskRegistry { wallet, .. } => Some(
                            ContractError::NotVerified(text_or(&reason, wallet.as_str())),
                        ),
                        Step::AskTransfer { judge, .. } => {
                            let d = match judge {
                                Judge::Compliance => "not allowed",
                                Judge::Plugin => "plugin denied",
                            };
                            Some(ContractError::NotCompliant(text_or(&reason, d)))
                        },
                        _ => None,
                    }
                }
            },
        }
    }

    /// Runs the checks from where they stand: judges the answer to the
    /// pending question, if one is given, then judges the checks that ask
    /// nothing until one refuses, one asks, or none is left.
    pub fn advance(&self, checks: &mut Checks, answer: Option<Answer>) -> (p: Progress)
        requires
            self.wf(),
            old(checks).judged(self@),
            answer is Some ==> old(checks).next < old(checks).steps@.len() && asks(
                old(checks).steps@[old(checks).next as int]@,
            ),
        ensures
            steps_view(final(checks).steps@) == steps_view(old(checks).steps@),
            final(checks).token == old(checks).token,
            final(checks).judged(self@),
            p is Passed ==> final(checks).passed(self@),
            ({
                let s = steps_view(old(checks).steps@);
                let i0 = old(checks).next as int;
                let j = final(checks).next as int;
                let refused_now = answer is Some && verdict(self@, s[i0], answer) is Some;
                if refused_now {
                    &&& j == i0
                    &&& p matches Progress::Refused(e) && verdict(self@, s[i0], answer) == Some(e@)
                } else {
                    let start = if answer is Some {
                        i0 + 1
                    } else {
                        i0
                    };
                    &&& start <= j <= s.len()
                    &&& forall|k: int| start <= k < j ==> !asks(#[trigger] s[k]) && verdict(
                        self@,
                        s[k],
                        None,
                    ) is None
                    &&& match p {
                        Progress::Passed => j == s.len(),
                        Progress::Ask(q) => j < s.len() && asks(s[j]) && q@ == question(
                            s[j],
                            old(checks).token@,
                        ),
                        Progress::Refused(e) => j < s.len() && !asks(s[j]) && verdict(
                            self@,
                            s[j],
                            None,
                        ) == Some(e@),
                    }
                }
            }),
    {
        let ghost s = steps_view(checks.steps@);
        let ghost i0 = checks.next as int;
        let ghost tok = checks.token;
        let ghost given = answer;
        if let Some(a) = answer {
            let i = checks.next;
            assert(i < checks.steps.len());
            match Self::judge_answer(&checks.steps[i], a) {
                Some(e) => {
                    return Progress::Refused(e);
                },
                None => {
                    checks.answers = Ghost(checks.answers@.push(given));
                    checks.next = i + 1;
                },
            }
        }
        let ghost start = checks.next as int;
        while checks.next < checks.steps.len()
            invariant
                self.wf(),
                steps_view(checks.steps@) == s,
                s == steps_view(old(checks).steps@),
                checks.token == tok,
                tok == old(checks).token,
                i0 == old(checks).next as int,
                start == (if answer is Some {
                    i0 + 1
                } else {
                    i0
                }),
                answer is Some ==> verdict(self@, s[i0], answer) is None,
                start <= checks.next <= s.len(),
                checks.judged(self@),
                forall|k: int| start <= k < checks.next ==> !asks(#[trigger] s[k]) && verdict(
                    self@,
                    s[k],
                    None,
                ) is None,
            decreases s.len() - checks.next,
        {
            let i = checks.next;
            assert(s[i as int] == checks.steps@[i as int]@);
            let is_question = match &checks.steps[i] {
                Step::AskRegistry { .. } => true,
                Step::AskTransfer { .. } => true,
                _ => false,
            };
            if is_question {
                let q = match &checks.steps[i] {
                    Step::AskRegistry { registry, wallet } => Query::IsVerified {
                        registry: registry.clone(),
                        wallet: wallet.clone(),
                    },
                    Step::AskTransfer { contract, from, to, amount, .. } => Query::CanTransfer {
                        contract: contract.clone(),
                        token: checks.token.clone(),
                        from: from.clone(),
                        to: to.clone(),
                        amount: *amount,
                    },
                    _ => Query::IsVerified { registry: text(""), wallet: text("") },
                };
                return Progress::Ask(q);
            }
            match self.judge_local(&checks.steps[i]) {
                Some(e) => {
                    return Progress::Refused(e);
                },
                None => {
                    checks.answers = Ghost(checks.answers@.push(None));
                    checks.next = i + 1;
                },
            }
        }
        Progress::Passed
    }
}

/// Whether a check's recorded answer is a yes.
pub open spec fn said_yes(a: Option<Answer>) -> bool {
    a matches Some(Ok((ok, _))) && ok
}

/// Checks that passed passed on yes answers: every check that asked the
/// identity registry, the compliance contract or a rule plugin recorded an
/// answer that allowed the movement, so a not-allowed answer or a failed
/// query always blocks it.
pub proof fn lemma_passed_questions_said_yes(c: Checks, m: TokenModel)
    requires
        c.passed(m),
    ensures
        forall|k: int| 0 <= k < c.steps@.len() && asks(#[trigger] c.steps@[k]@) ==> said_yes(
            c.answers@[k],
        ),
{
    assert forall|k: int| 0 <= k < c.steps@.len() && asks(#[trigger] c.steps@[k]@) implies said_yes(
        c.answers@[k],
    ) by {
        assert(verdict(m, c.steps@[k]@, c.answers@[k]) is None);
        assert(c.answers@[k] is Some);
    }
}

} // verus!
