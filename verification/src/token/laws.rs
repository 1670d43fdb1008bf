//! Properties of the token that span its operations.
use vstd::prelude::*;
use crate::common::{AddrInput, Ctx};
use crate::addr_map::amount_of;
use crate::token::types::{TokenErr, GovProposal};
use crate::token::state::{TokenState, TokenModel};
use crate::token::checks::{verdict, Party, StepView, frozen_text, Checks, steps_view, said_yes, lemma_passed_questions_said_yes};
use crate::token::moves::{moved, transfer_precheck, mint_precheck, transfer_plan, force_transfer_precheck};
use crate::token::moves2::burn_error;
use crate::token::gov::{gov_execute_error, paused_after, gov_approve_error, approvers_of};
use crate::token::wallet::replaced;

verus! {

/// While the token is paused, no transfer of a positive amount gets past
/// its first checks, and neither does a mint by the issuer.
pub proof fn lemma_paused_blocks_moves(m: TokenModel, ctx: Ctx, recipient: AddrInput, amount: u128)
    requires
        m.paused,
        amount > 0,
    ensures
        transfer_precheck(m, ctx, recipient, amount) == Some(TokenErr::Paused),
        ctx.sender.text@ == m.issuer ==> mint_precheck(m, ctx, recipient, amount) == Some(TokenErr::Paused),
{
}

/// A frozen wallet's transfers are refused by their first check.
pub proof fn lemma_frozen_sender_refused(s: TokenState, from: Seq<char>, to: Seq<char>, amount: u128)
    requires
        s@.is_frozen(from),
    ensures
        transfer_plan(s, from, to, amount)[0] == (StepView::NotFrozen { wallet: from, party: Party::Sender }),
        verdict(s@, transfer_plan(s, from, to, amount)[0], None) == Some(
            TokenErr::NotCompliant(frozen_text(Party::Sender)),
        ),
{
}

/// Tokens move only after the transfer's checks passed: when they all
/// passed, neither party is frozen nor denylisted, each is verified (the
/// identity registry said yes when one is set, else its KYC status is
/// approved), and the amount is within the sender's transfer limit.
pub proof fn lemma_passed_transfer_checks(s: TokenState, c: Checks, from: Seq<char>, to: Seq<char>, amount: u128)
    requires
        steps_view(c.steps@) == transfer_plan(s, from, to, amount),
        c.passed(s@),
    ensures
        !s@.is_frozen(from),
        !s@.is_frozen(to),
        !s@.is_denylisted(from),
        !s@.is_denylisted(to),
        s@.registry_addr() is None ==> s@.kyc_approved(from) && s@.kyc_approved(to),
        s@.registry_addr() is Some ==> said_yes(c.answers@[3]) && said_yes(c.answers@[5]),
        s@.limit_of(from) matches Some(l) ==> amount <= l,
{
    let v = steps_view(c.steps@);
    let n = v.len();
    assert(n == c.steps@.len());
    assert(n >= 7);
    assert forall|k: int| 0 <= k < n implies c.steps@[k]@ == v[k] && verdict(s@, v[k], c.answers@[k]) is None && (
    crate::token::checks::asks(v[k]) ==> c.answers@[k] is Some) by {
        assert(c.steps@[k]@ == v[k]);
    }
    assert(verdict(s@, v[0], c.answers@[0]) is None);
    assert(verdict(s@, v[1], c.answers@[1]) is None);
    assert(verdict(s@, v[2], c.answers@[2]) is None);
    assert(verdict(s@, v[3], c.answers@[3]) is None);
    assert(verdict(s@, v[4], c.answers@[4]) is None);
    assert(verdict(s@, v[5], c.answers@[5]) is None);
    assert(verdict(s@, v[n - 1], c.answers@[n - 1]) is None);
    assert(v[n - 1] == StepView::WithinLimit { wallet: from, amount, use_: crate::token::checks::LimitUse::Transfer });
}

/// A transfer debits the sender and credits the recipient by the amount;
/// a transfer to oneself leaves the balances' amounts as they were.
pub proof fn lemma_moved_amounts(b: Map<Seq<char>, u128>, from: Seq<char>, to: Seq<char>, amount: u128, other: Seq<char>)
    requires
        amount <= amount_of(b, from),
        amount_of(b, to) + amount <= u128::MAX,
    ensures
        from != to ==> amount_of(moved(b, from, to, amount), from) == amount_of(b, from) - amount,
        from != to ==> amount_of(moved(b, from, to, amount), to) == amount_of(b, to) + amount,
        from == to ==> amount_of(moved(b, from, to, amount), from) == amount_of(b, from),
        other != from && other != to ==> amount_of(moved(b, from, to, amount), other) == amount_of(b, other),
{
}

/// A governance proposal executes at most once: once executed, executing
/// it again is refused, whoever asks and whenever.
pub proof fn lemma_proposal_executes_once(m: TokenModel, ctx: Ctx, later: Ctx, id: u64)
    requires
        gov_execute_error(m, ctx, id) is None,
    ensures
        gov_execute_error(
            TokenModel {
                paused: paused_after(m.paused, m.gov_proposals[id].action@),
                gov_proposals: m.gov_proposals.insert(id, GovProposal { executed: true, ..m.gov_proposals[id] }),
                ..m
            },
            later,
            id,
        ) == Some(TokenErr::InvalidRequest),
{
}

/// Replacing a wallet by another moves the whole balance: the new wallet
/// holds both balances and the lost one nothing.
pub proof fn lemma_replaced_balances(m: TokenModel, lost: Seq<char>, new: Seq<char>)
    requires
        lost != new,
        amount_of(m.balances, new) + amount_of(m.balances, lost) <= u128::MAX,
    ensures
        amount_of(replaced(m, lost, new).balances, new) == amount_of(m.balances, new) + amount_of(m.balances, lost),
        amount_of(replaced(m, lost, new).balances, lost) == 0,
{
}

/// Approval is multi-signature: once a member's approval of a proposal is
/// recorded, the same member approving it again is refused.
pub proof fn lemma_repeat_approval_refused(m: TokenModel, ctx: Ctx, id: u64)
    requires
        gov_approve_error(m, ctx, id) is None,
    ensures
        ({
            let p = m.gov_proposals[id];
            let after = TokenModel {
                gov_proposals: m.gov_proposals.insert(id, GovProposal { approvals: (p.approvals + 1) as u32, ..p }),
                gov_approvers: m.gov_approvers.insert(id, approvers_of(m, id).push(ctx.sender.text@)),
                ..m
            };
            gov_approve_error(after, ctx, id) == Some(TokenErr::AlreadyApproved)
        }),
{
    let p = m.gov_proposals[id];
    let after = TokenModel {
        gov_proposals: m.gov_proposals.insert(id, GovProposal { approvals: (p.approvals + 1) as u32, ..p }),
        gov_approvers: m.gov_approvers.insert(id, approvers_of(m, id).push(ctx.sender.text@)),
        ..m
    };
    let l = approvers_of(m, id).push(ctx.sender.text@);
    assert(approvers_of(after, id) == l);
    assert(l[l.len() - 1] == ctx.sender.text@);
}

/// A compliance contract or rule plugin that was asked about a transfer and
/// answered not allowed (or failed) leaves the checks unpassed, whatever the
/// state.
pub proof fn lemma_refusal_blocks_passing(c: Checks, m: TokenModel, k: int)
    requires
        0 <= k < c.next,
        c.next <= c.steps@.len(),
        c.steps@[k]@ is AskTransfer,
        !said_yes(c.answers@[k]),
    ensures
        !c.passed(m),
{
    if c.passed(m) {
        lemma_passed_questions_said_yes(c, m);
        assert(crate::token::checks::asks(c.steps@[k]@));
    }
}

/// A mint that gets past its first checks never credits a frozen recipient.
pub proof fn lemma_mint_refuses_frozen_recipient(m: TokenModel, ctx: Ctx, recipient: AddrInput, amount: u128)
    requires
        m.is_frozen(recipient.text@),
    ensures
        mint_precheck(m, ctx, recipient, amount) is Some,
{
}

/// A frozen holder cannot burn.
pub proof fn lemma_burn_refuses_frozen_sender(m: TokenModel, ctx: Ctx, amount: u128)
    requires
        m.is_frozen(ctx.sender.text@),
    ensures
        burn_error(m, ctx, amount) is Some,
{
}

/// A forced transfer to a frozen recipient is refused.
pub proof fn lemma_force_transfer_refuses_frozen_recipient(m: TokenModel, ctx: Ctx, from: AddrInput, to: AddrInput)
    requires
        m.is_frozen(to.text@),
    ensures
        force_transfer_precheck(m, ctx, from, to) is Some,
{
}

} // verus!
