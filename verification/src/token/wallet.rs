//! Recovery of a lost wallet: its holdings, standing and allowances move to
//! a new address, and the lost one is frozen.
use vstd::prelude::*;
use crate::common::{AddrInput, StdFailure, StdFailureView, OverflowOp};
use crate::addr_map::{amount_of, total, set_amount};
use crate::pair_map::{merge, merge_overflows};
use crate::token::types::{ContractError, TokenErr, Ctx, TokenResponse};
use crate::token::state::{TokenState, TokenModel};
use crate::token::auth::{plain, owner_or_controller_error, action_response_with2};

verus! {

/// The allowances after those granted by `lost` went to `new` and then
/// those granted to `lost` went to `new`.
pub open spec fn moved_allowances(a: Map<crate::pair_map::PairKey, u128>, lost: Seq<char>, new: Seq<char>) -> Map<
    crate::pair_map::PairKey,
    u128,
> {
    merge(merge(a, lost, new, true), lost, new, false)
}

/// The refusal of a wallet replacement, if any.
pub open spec fn replace_error(m: TokenModel, ctx: Ctx, lost: AddrInput, new: AddrInput) -> Option<TokenErr> {
    let l = lost.text@;
    let n = new.text@;
    if owner_or_controller_error(m, ctx.sender) is Some {
        owner_or_controller_error(m, ctx.sender)
    } else if !lost.valid() {
        Some(TokenErr::Std(lost.rejection->0@))
    } else if !new.valid() {
        Some(TokenErr::Std(new.rejection->0@))
    } else if (amount_of(m.balances, l) != 0 && amount_of(m.balances, n) + amount_of(m.balances, l)
        > u128::MAX) || merge_overflows(m.allowances, l, n, true) || merge_overflows(
        merge(m.allowances, l, n, true),
        l,
        n,
        false,
    ) {
        Some(TokenErr::Std(StdFailureView::Overflow(OverflowOp::Add)))
    } else {
        None
    }
}

/// Moves the entry under `from` to `to` and drops `from`'s.
pub open spec fn moved_entry<V>(m: Map<Seq<char>, V>, from: Seq<char>, to: Seq<char>) -> Map<Seq<char>, V> {
    if m.contains_key(from) {
        m.insert(to, m[from]).remove(from)
    } else {
        m
    }
}

/// The token after `lost` was replaced by `new`.
pub open spec fn replaced(m: TokenModel, l: Seq<char>, n: Seq<char>) -> TokenModel {
    let lb = amount_of(m.balances, l);
    TokenModel {
        balances: if lb != 0 {
            m.balances.insert(n, (amount_of(m.balances, n) + lb) as u128).insert(l, 0)
        } else {
            m.balances
        },
        kyc: if m.kyc.contains_key(l) {
            m.kyc.insert(n, m.kyc[l])
        } else {
            m.kyc
        },
        transfer_limits: moved_entry(m.transfer_limits, l, n),
        attestations: moved_entry(m.attestations, l, n),
        allowances: moved_allowances(m.allowances, l, n),
        agents: m.agents.remove(l),
        frozen: m.frozen.insert(l, true),
        ..m
    }
}

impl TokenState {
    /// Owner or controller: moves the balance, KYC status, transfer limit,
    /// attestation and allowances (both granted and received) of `lost` to
    /// `new`, adding to what `new` already has; drops `lost`'s agent role and
    /// freezes it.
    pub fn replace_wallet(&mut self, ctx: &Ctx, lost: AddrInput, new: AddrInput) -> (r: Result<
        TokenResponse,
        ContractError,
    >)
        requires
            old(self).wf(),
        ensures
            final(self).wf(),
            old(self).supply_consistent() && lost.text@ != new.text@ ==> final(self).supply_consistent(),
            match r {
                Ok(resp) => replace_error(old(self)@, *ctx, lost, new) is None && final(self)@ == replaced(
                    old(self)@,
                    lost.text@,
                    new.text@,
                ) && plain(
                    resp,
                    seq![("action"@, "replace_wallet"@), ("lost"@, lost.text@), ("new"@, new.text@)],
                ),
                Err(e) => replace_error(old(self)@, *ctx, lost, new) == Some(e@) && final(self)@ == old(self)@,
            },
    {
        self.only_owner_or_controller(ctx)?;
        let l = match lost.check() {
            Ok(a) => a,
            Err(e) => return Err(ContractError::Std(e)),
        };
        let n = match new.check() {
            Ok(a) => a,
            Err(e) => return Err(ContractError::Std(e)),
        };
        let overflow = ContractError::Std(StdFailure::Overflow(OverflowOp::Add));
        let lost_bal = self.balance_of(&l);
        let new_bal = self.balance_of(&n);
        let mut moved_bal: u128 = 0;
        if lost_bal != 0 {
            match new_bal.checked_add(lost_bal) {
                Some(v) => moved_bal = v,
                None => return Err(overflow),
            }
        }
        let first = match self.allowances.merged(&l, &n, true) {
            Some(m) => m,
            None => return Err(overflow),
        };
        let second = match first.merged(&l, &n, false) {
            Some(m) => m,
            None => return Err(overflow),
        };
        let ghost m0 = self@;
        let ghost t0 = total(self.balances);
        if lost_bal != 0 {
            set_amount(&mut self.balances, n.clone(), moved_bal);
            set_amount(&mut self.balances, l.clone(), 0);
            proof {
                if l@ != n@ {
                    assert(amount_of(m0.balances.insert(n@, moved_bal), l@) == lost_bal);
                }
            }
        }
        let status = match self.kyc.get(&l) {
            Some(s) => Some(*s),
            None => None,
        };
        match status {
            Some(s) => self.kyc.insert(n.clone(), s),
            None => {},
        }
        let limit = match self.transfer_limits.get(&l) {
            Some(v) => Some(*v),
            None => None,
        };
        match limit {
            Some(v) => {
                self.transfer_limits.insert(n.clone(), v);
                self.transfer_limits.remove(&l);
            },
            None => {},
        }
        let att = match self.attestations.get(&l) {
            Some(v) => Some(v.clone()),
            None => None,
        };
        match att {
            Some(v) => {
                self.attestations.insert(n.clone(), v);
                self.attestations.remove(&l);
            },
            None => {},
        }
        self.allowances = second;
        self.agents.remove(&l);
        self.frozen.insert(l, true);
        proof {
            assert(self@.balances == replaced(m0, lost.text@, new.text@).balances);
            assert(self@ == replaced(m0, lost.text@, new.text@));
            if lost.text@ != new.text@ && lost_bal != 0 {
                assert(total(self.balances) == t0);
            }
        }
        Ok(action_response_with2("replace_wallet", "lost", lost.text, "new", new.text))
    }
}

} // verus!
