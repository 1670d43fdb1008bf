//! Who may do what: the token's role checks.
use vstd::prelude::*;
use crate::common::{AddrInput, Response, text};
use crate::addr_map::AddrMap;
use crate::token::types::{ContractError, TokenErr, Ctx, TokenResponse};
use crate::token::state::{TokenState, TokenModel};

verus! {

/// A response with no messages and no events, only these attributes.
pub open spec fn plain(resp: TokenResponse, attrs: Seq<(Seq<char>, Seq<char>)>) -> bool {
    &&& resp.messages@.len() == 0
    &&& resp.evts().len() == 0
    &&& resp.attrs() == attrs
}

/// Refusal of a caller that is not the owner.
pub open spec fn owner_error(m: TokenModel, sender: AddrInput) -> Option<TokenErr> {
    if sender.text@ == m.owner {
        None
    } else {
        Some(TokenErr::Unauthorized)
    }
}

/// Refusal of a caller that is neither the owner nor an agent; the caller's
/// address is checked only when it is not the owner.
pub open spec fn owner_or_agent_error(m: TokenModel, sender: AddrInput) -> Option<TokenErr> {
    if sender.text@ == m.owner {
        None
    } else if !sender.valid() {
        Some(TokenErr::Std(sender.rejection->0@))
    } else if m.is_agent(sender.text@) {
        None
    } else {
        Some(TokenErr::Unauthorized)
    }
}

/// Refusal of a caller that is neither the owner, the controller nor an agent
/// (the caller's address is checked first).
pub open spec fn kyc_admin_error(m: TokenModel, sender: AddrInput) -> Option<TokenErr> {
    if !sender.valid() {
        Some(TokenErr::Std(sender.rejection->0@))
    } else if sender.text@ != m.owner && sender.text@ != m.controller && !m.is_agent(
        sender.text@,
    ) {
        Some(TokenErr::Unauthorized)
    } else {
        None
    }
}

/// Refusal of a caller that is neither the owner nor the controller.
pub open spec fn owner_or_controller_error(m: TokenModel, sender: AddrInput) -> Option<TokenErr> {
    if sender.text@ != m.owner && sender.text@ != m.controller {
        Some(TokenErr::Unauthorized)
    } else {
        None
    }
}

pub fn flag(m: &AddrMap<bool>, a: &String) -> (r: bool)
    requires
        m.wf(),
    ensures
        r == TokenModel::flag(m@, a@),
{
    match m.get(a) {
        Some(v) => *v,
        None => false,
    }
}

/// A response that only names its action.
pub fn action_response(action: &str) -> (r: TokenResponse)
    ensures
        plain(r, seq![("action"@, action@)]),
{
    let mut r: TokenResponse = Response::new();
    r.attr("action", text(action));
    r
}

/// A response naming its action and one more attribute.
pub fn action_response_with(action: &str, key: &str, value: String) -> (r: TokenResponse)
    ensures
        plain(r, seq![("action"@, action@), (key@, value@)]),
{
    let mut r = action_response(action);
    let ghost v = value@;
    r.attr(key, value);
    assert(r.attrs() =~= seq![("action"@, action@), (key@, v)]);
    r
}

/// A response naming its action and two more attributes.
pub fn action_response_with2(action: &str, k1: &str, v1: String, k2: &str, v2: String) -> (r:
    TokenResponse)
    ensures
        plain(r, seq![("action"@, action@), (k1@, v1@), (k2@, v2@)]),
{
    let ghost w1 = v1@;
    let ghost w2 = v2@;
    let mut r = action_response_with(action, k1, v1);
    r.attr(k2, v2);
    assert(r.attrs() =~= seq![("action"@, action@), (k1@, w1), (k2@, w2)]);
    r
}

impl TokenState {
    pub fn only_owner(&self, ctx: &Ctx) -> (r: Result<(), ContractError>)
        ensures
            match r {
                Ok(_) => owner_error(self@, ctx.sender) is None,
                Err(e) => owner_error(self@, ctx.sender) == Some(e@),
            },
    {
        if ctx.sender.text != self.owner {
            return Err(ContractError::Unauthorized);
        }
        Ok(())
    }

    pub fn only_issuer(&self, ctx: &Ctx) -> (r: Result<(), ContractError>)
        ensures
            match r {
                Ok(_) => ctx.sender.text@ == self@.issuer,
                Err(e) => ctx.sender.text@ != self@.issuer && e@ == TokenErr::Unauthorized,
            },
    {
        if ctx.sender.text != self.issuer {
            return Err(ContractError::Unauthorized);
        }
        Ok(())
    }

    pub fn only_controller(&self, ctx: &Ctx) -> (r: Result<(), ContractError>)
        ensures
            match r {
                Ok(_) => ctx.sender.text@ == self@.controller,
                Err(e) => ctx.sender.text@ != self@.controller && e@ == TokenErr::Unauthorized,
            },
    {
        if ctx.sender.text != self.controller {
            return Err(ContractError::Unauthorized);
        }
        Ok(())
    }

    pub fn only_owner_or_agent(&self, ctx: &Ctx) -> (r: Result<(), ContractError>)
        requires
            self.wf(),
        ensures
            match r {
                Ok(_) => owner_or_agent_error(self@, ctx.sender) is None,
                Err(e) => owner_or_agent_error(self@, ctx.sender) == Some(e@),
            },
    {
        if ctx.sender.text == self.owner {
            return Ok(());
        }
        let sender = match ctx.sender.check() {
            Ok(a) => a,
            Err(e) => return Err(ContractError::Std(e)),
        };
        if flag(&self.agents, &sender) {
            Ok(())
        } else {
            Err(ContractError::Unauthorized)
        }
    }

    pub fn only_kyc_admin(&self, ctx: &Ctx) -> (r: Result<(), ContractError>)
        requires
            self.wf(),
        ensures
            match r {
                Ok(_) => kyc_admin_error(self@, ctx.sender) is None,
                Err(e) => kyc_admin_error(self@, ctx.sender) == Some(e@),
            },
    {
        let sender = match ctx.sender.check() {
            Ok(a) => a,
            Err(e) => return Err(ContractError::Std(e)),
        };
        let agent = flag(&self.agents, &sender);
        if ctx.sender.text != self.owner && ctx.sender.text != self.controller && !agent {
            return Err(ContractError::Unauthorized);
        }
        Ok(())
    }

    pub fn only_owner_or_controller(&self, ctx: &Ctx) -> (r: Result<(), ContractError>)
        ensures
            match r {
                Ok(_) => owner_or_controller_error(self@, ctx.sender) is None,
                Err(e) => owner_or_controller_error(self@, ctx.sender) == Some(e@),
            },
    {
        if ctx.sender.text != self.owner && ctx.sender.text != self.controller {
            return Err(ContractError::Unauthorized);
        }
        Ok(())
    }
}

} // verus!
