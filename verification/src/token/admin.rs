//! Administration: pausing, roles, validators, agents, freezes, denylist,
//! KYC statuses, rule plugins, attestations and transfer limits.
use vstd::prelude::*;
use crate::common::{AddrInput, StdFailure, Response, text, opt_amount_debug, opt_amount_debug_string};
use crate::addr_map::AddrMap;
use crate::token::types::{
    ContractError, TokenErr, Ctx, TokenResponse, KycStatus, KycUpdate, kyc_debug, kyc_debug_string,
};
use crate::token::state::{TokenState, TokenModel, first_rejection};
use crate::token::auth::{
    plain, owner_error, owner_or_agent_error, kyc_admin_error, owner_or_controller_error,
    action_response, action_response_with, action_response_with2,
};

verus! {

/// `m` with every key of `keys` set to `v`, in order.
pub open spec fn insert_all<V>(m: Map<Seq<char>, V>, keys: Seq<AddrInput>, v: V) -> Map<Seq<char>, V>
    decreases keys.len(),
{
    if keys.len() == 0 {
        m
    } else {
        insert_all(m, keys.drop_last(), v).insert(keys.last().text@, v)
    }
}

/// `m` without any key of `keys`.
pub open spec fn remove_all<V>(m: Map<Seq<char>, V>, keys: Seq<AddrInput>) -> Map<Seq<char>, V>
    decreases keys.len(),
{
    if keys.len() == 0 {
        m
    } else {
        remove_all(m, keys.drop_last()).remove(keys.last().text@)
    }
}

/// `m` after applying the KYC updates in order.
pub open spec fn apply_kyc(m: Map<Seq<char>, KycStatus>, u: Seq<KycUpdate>) -> Map<Seq<char>, KycStatus>
    decreases u.len(),
{
    if u.len() == 0 {
        m
    } else {
        apply_kyc(m, u.drop_last()).insert(u.last().address.text@, u.last().status)
    }
}

pub open spec fn update_addresses(u: Seq<KycUpdate>) -> Seq<AddrInput> {
    u.map_values(|x: KycUpdate| x.address)
}

pub proof fn lemma_first_rejection_push(s: Seq<AddrInput>, a: AddrInput)
    ensures
        first_rejection(s.push(a)) == (if first_rejection(s) is Some {
            first_rejection(s)
        } else {
            a.rejection
        }),
    decreases s.len(),
{
    if s.len() > 0 {
        lemma_first_rejection_push(s.drop_first(), a);
        assert(s.push(a).drop_first() =~= s.drop_first().push(a));
    } else {
        assert(s.push(a).drop_first() =~= Seq::<AddrInput>::empty());
        reveal_with_fuel(first_rejection, 2);
    }
}

/// Checks every address in order; the first rejection decides.
pub fn check_all(inputs: &Vec<AddrInput>) -> (r: Result<(), StdFailure>)
    ensures
        match r {
            Ok(_) => first_rejection(inputs@) is None,
            Err(e) => first_rejection(inputs@) == Some(e),
        },
{
    let mut i: usize = 0;
    while i < inputs.len()
        invariant
            i <= inputs@.len(),
            first_rejection(inputs@.take(i as int)) is None,
        decreases inputs@.len() - i,
    {
        proof {
            lemma_first_rejection_push(inputs@.take(i as int), inputs@[i as int]);
            assert(inputs@.take(i + 1) =~= inputs@.take(i as int).push(inputs@[i as int]));
        }
        match inputs[i].check() {
            Ok(_) => {},
            Err(e) => {
                proof {
                    lemma_first_rejection_prefix(inputs@, i + 1);
                }
                return Err(e);
            },
        }
        i = i + 1;
    }
    assert(inputs@.take(i as int) =~= inputs@);
    Ok(())
}

pub proof fn lemma_first_rejection_prefix(s: Seq<AddrInput>, i: int)
    requires
        0 <= i <= s.len(),
        first_rejection(s.take(i)) is Some,
    ensures
        first_rejection(s) == first_rejection(s.take(i)),
    decreases s.len() - i,
{
    if i < s.len() {
        lemma_first_rejection_push(s.take(i), s[i]);
        assert(s.take(i + 1) =~= s.take(i).push(s[i]));
        lemma_first_rejection_prefix(s, i + 1);
    } else {
        assert(s.take(i) =~= s);
    }
}

/// Sets every address of `keys` to `v` (all of them accepted by the chain).
pub fn set_all<V: Copy>(m: &mut AddrMap<V>, keys: &Vec<AddrInput>, v: V)
    requires
        old(m).wf(),
    ensures
        final(m).wf(),
        final(m)@ == insert_all(old(m)@, keys@, v),
{
    let mut i: usize = 0;
    while i < keys.len()
        invariant
            m.wf(),
            i <= keys@.len(),
            m@ == insert_all(old(m)@, keys@.take(i as int), v),
        decreases keys@.len() - i,
    {
        assert(keys@.take(i + 1).drop_last() =~= keys@.take(i as int));
        m.insert(keys[i].text.clone(), v);
        i = i + 1;
    }
    assert(keys@.take(i as int) =~= keys@);
}

/// Removes every address of `keys`.
pub fn remove_each<V>(m: &mut AddrMap<V>, keys: &Vec<AddrInput>)
    requires
        old(m).wf(),
    ensures
        final(m).wf(),
        final(m)@ == remove_all(old(m)@, keys@),
{
    let mut i: usize = 0;
    while i < keys.len()
        invariant
            m.wf(),
            i <= keys@.len(),
            m@ == remove_all(old(m)@, keys@.take(i as int)),
        decreases keys@.len() - i,
    {
        assert(keys@.take(i + 1).drop_last() =~= keys@.take(i as int));
        m.remove(&keys[i].text);
        i = i + 1;
    }
    assert(keys@.take(i as int) =~= keys@);
}

impl TokenState {
    /// Owner only: halts transfers, mints, burns, approvals and redemption requests.
    pub fn pause(&mut self, ctx: &Ctx) -> (r: Result<TokenResponse, ContractError>)
        requires
            old(self).wf(),
        ensures
            final(self).wf(),
            old(self).supply_consistent() ==> final(self).supply_consistent(),
            match r {
                Ok(resp) => owner_error(old(self)@, ctx.sender) is None && final(self)@ == (
                TokenModel { paused: true, ..old(self)@ }) && plain(resp, seq![("action"@, "pause"@)]),
                Err(e) => owner_error(old(self)@, ctx.sender) == Some(e@) && final(self)@ == old(self)@,
            },
    {
        self.only_owner(ctx)?;
        self.paused = true;
        Ok(action_response("pause"))
    }

    /// Owner only: lifts a pause.
    pub fn unpause(&mut self, ctx: &Ctx) -> (r: Result<TokenResponse, ContractError>)
        requires
            old(self).wf(),
        ensures
            final(self).wf(),
            old(self).supply_consistent() ==> final(self).supply_consistent(),
            match r {
                Ok(resp) => owner_error(old(self)@, ctx.sender) is None && final(self)@ == (
                TokenModel { paused: false, ..old(self)@ }) && plain(resp, seq![("action"@, "unpause"@)]),
                Err(e) => owner_error(old(self)@, ctx.sender) == Some(e@) && final(self)@ == old(self)@,
            },
    {
        self.only_owner(ctx)?;
        self.paused = false;
        Ok(action_response("unpause"))
    }

    /// Owner only: hands the owner role to `owner`.
    pub fn update_owner(&mut self, ctx: &Ctx, owner: AddrInput) -> (r: Result<TokenResponse, ContractError>)
        requires
            old(self).wf(),
        ensures
            final(self).wf(),
            old(self).supply_consistent() ==> final(self).supply_consistent(),
            match r {
                Ok(resp) => owner_error(old(self)@, ctx.sender) is None && owner.valid()
                    && final(self)@ == (TokenModel { owner: owner.text@, ..old(self)@ }) && plain(
                    resp,
                    seq![("action"@, "update_owner"@), ("new_owner"@, owner.text@)],
                ),
                Err(e) => final(self)@ == old(self)@ && if owner_error(old(self)@, ctx.sender) is Some {
                    owner_error(old(self)@, ctx.sender) == Some(e@)
                } else {
                    !owner.valid() && e@ == TokenErr::Std(owner.rejection->0@)
                },
            },
    {
        self.only_owner(ctx)?;
        let a = match owner.check() {
            Ok(a) => a,
            Err(e) => return Err(ContractError::Std(e)),
        };
        self.owner = a;
        Ok(action_response_with("update_owner", "new_owner", owner.text))
    }

    /// Owner only: hands the issuer role to `issuer`.
    pub fn update_issuer(&mut self, ctx: &Ctx, issuer: AddrInput) -> (r: Result<TokenResponse, ContractError>)
        requires
            old(self).wf(),
        ensures
            final(self).wf(),
            old(self).supply_consistent() ==> final(self).supply_consistent(),
            match r {
                Ok(resp) => owner_error(old(self)@, ctx.sender) is None && issuer.valid()
                    && final(self)@ == (TokenModel { issuer: issuer.text@, ..old(self)@ }) && plain(
                    resp,
                    seq![("action"@, "update_issuer"@), ("new_issuer"@, issuer.text@)],
                ),
                Err(e) => final(self)@ == old(self)@ && if owner_error(old(self)@, ctx.sender) is Some {
                    owner_error(old(self)@, ctx.sender) == Some(e@)
                } else {
                    !issuer.valid() && e@ == TokenErr::Std(issuer.rejection->0@)
                },
            },
    {
        self.only_owner(ctx)?;
        let a = match issuer.check() {
            Ok(a) => a,
            Err(e) => return Err(ContractError::Std(e)),
        };
        self.issuer = a;
        Ok(action_response_with("update_issuer", "new_issuer", issuer.text))
    }

    /// Owner only: hands the controller role to `controller`.
    pub fn update_controller(&mut self, ctx: &Ctx, controller: AddrInput) -> (r: Result<
        TokenResponse,
        ContractError,
    >)
        requires
            old(self).wf(),
        ensures
            final(self).wf(),
            old(self).supply_consistent() ==> final(self).supply_consistent(),
            match r {
                Ok(resp) => owner_error(old(self)@, ctx.sender) is None && controller.valid()
                    && final(self)@ == (TokenModel { controller: controller.text@, ..old(self)@ })
                    && plain(
                    resp,
                    seq![("action"@, "update_controller"@), ("new_controller"@, controller.text@)],
                ),
                Err(e) => final(self)@ == old(self)@ && if owner_error(old(self)@, ctx.sender) is Some {
                    owner_error(old(self)@, ctx.sender) == Some(e@)
                } else {
                    !controller.valid() && e@ == TokenErr::Std(controller.rejection->0@)
                },
            },
    {
        self.only_owner(ctx)?;
        let a = match controller.check() {
            Ok(a) => a,
            Err(e) => return Err(ContractError::Std(e)),
        };
        self.controller = a;
        Ok(action_response_with("update_controller", "new_controller", controller.text))
    }

    /// Owner only: points the token at a new identity registry and/or
    /// compliance contract; an omitted one stays as it is.
    pub fn update_validators(
        &mut self,
        ctx: &Ctx,
        identity_registry: Option<AddrInput>,
        compliance: Option<AddrInput>,
    ) -> (r: Result<TokenResponse, ContractError>)
        requires
            old(self).wf(),
        ensures
            final(self).wf(),
            old(self).supply_consistent() ==> final(self).supply_consistent(),
            match r {
                Ok(resp) => {
                    &&& owner_error(old(self)@, ctx.sender) is None
                    &&& identity_registry matches Some(a) ==> a.valid()
                    &&& compliance matches Some(a) ==> a.valid()
                    &&& final(self)@ == (TokenModel {
                        identity_registry: match identity_registry {
                            Some(a) => Some(Some(a.text@)),
                            None => old(self)@.identity_registry,
                        },
                        compliance: match compliance {
                            Some(a) => Some(Some(a.text@)),
                            None => old(self)@.compliance,
                        },
                        ..old(self)@
                    })
                    &&& plain(resp, seq![("action"@, "update_validators"@)])
                },
                Err(e) => final(self)@ == old(self)@ && if owner_error(old(self)@, ctx.sender) is Some {
                    owner_error(old(self)@, ctx.sender) == Some(e@)
                } else if identity_registry matches Some(a) && !a.valid() {
                    e@ == TokenErr::Std(identity_registry->0.rejection->0@)
                } else {
                    compliance matches Some(a) && !a.valid() && e@ == TokenErr::Std(
                        compliance->0.rejection->0@,
                    )
                },
            },
    {
        self.only_owner(ctx)?;
        let ir = match &identity_registry {
            Some(a) => match a.check() {
                Ok(v) => Some(v),
                Err(e) => return Err(ContractError::Std(e)),
            },
            None => None,
        };
        let comp = match &compliance {
            Some(a) => match a.check() {
                Ok(v) => Some(v),
                Err(e) => return Err(ContractError::Std(e)),
            },
            None => None,
        };
        if ir.is_some() {
            self.identity_registry = Some(ir);
        }
        if comp.is_some() {
            self.compliance = Some(comp);
        }
        Ok(action_response("update_validators"))
    }

    /// Owner only: makes `address` an agent.
    pub fn add_agent(&mut self, ctx: &Ctx, address: AddrInput) -> (r: Result<TokenResponse, ContractError>)
        requires
            old(self).wf(),
        ensures
            final(self).wf(),
            old(self).supply_consistent() ==> final(self).supply_consistent(),
            match r {
                Ok(resp) => owner_error(old(self)@, ctx.sender) is None && address.valid()
                    && final(self)@ == (TokenModel {
                    agents: old(self)@.agents.insert(address.text@, true),
                    ..old(self)@
                }) && plain(resp, seq![("action"@, "add_agent"@), ("address"@, address.text@)]),
                Err(e) => final(self)@ == old(self)@ && if owner_error(old(self)@, ctx.sender) is Some {
                    owner_error(old(self)@, ctx.sender) == Some(e@)
                } else {
                    !address.valid() && e@ == TokenErr::Std(address.rejection->0@)
                },
            },
    {
        self.only_owner(ctx)?;
        let a = match address.check() {
            Ok(a) => a,
            Err(e) => return Err(ContractError::Std(e)),
        };
        self.agents.insert(a, true);
        Ok(action_response_with("add_agent", "address", address.text))
    }

    /// Owner only: takes the agent role from `address`.
    pub fn remove_agent(&mut self, ctx: &Ctx, address: AddrInput) -> (r: Result<TokenResponse, ContractError>)
        requires
            old(self).wf(),
        ensures
            final(self).wf(),
            old(self).supply_consistent() ==> final(self).supply_consistent(),
            match r {
                Ok(resp) => owner_error(old(self)@, ctx.sender) is None && address.valid()
                    && final(self)@ == (TokenModel {
                    agents: old(self)@.agents.remove(address.text@),
                    ..old(self)@
                }) && plain(resp, seq![("action"@, "remove_agent"@), ("address"@, address.text@)]),
                Err(e) => final(self)@ == old(self)@ && if owner_error(old(self)@, ctx.sender) is Some {
                    owner_error(old(self)@, ctx.sender) == Some(e@)
                } else {
                    !address.valid() && e@ == TokenErr::Std(address.rejection->0@)
                },
            },
    {
        self.only_owner(ctx)?;
        let a = match address.check() {
            Ok(a) => a,
            Err(e) => return Err(ContractError::Std(e)),
        };
        self.agents.remove(&a);
        Ok(action_response_with("remove_agent", "address", address.text))
    }

    /// Owner only: puts `address` on the denylist.
    pub fn add_to_denylist(&mut self, ctx: &Ctx, address: AddrInput) -> (r: Result<
        TokenResponse,
        ContractError,
    >)
        requires
            old(self).wf(),
        ensures
            final(self).wf(),
            old(self).supply_consistent() ==> final(self).supply_consistent(),
            match r {
                Ok(resp) => owner_error(old(self)@, ctx.sender) is None && address.valid()
                    && final(self)@ == (TokenModel {
                    denylist: old(self)@.denylist.insert(address.text@, true),
                    ..old(self)@
                }) && plain(resp, seq![("action"@, "add_to_denylist"@), ("address"@, address.text@)]),
                Err(e) => final(self)@ == old(self)@ && if owner_error(old(self)@, ctx.sender) is Some {
                    owner_error(old(self)@, ctx.sender) == Some(e@)
                } else {
                    !address.valid() && e@ == TokenErr::Std(address.rejection->0@)
                },
            },
    {
        self.only_owner(ctx)?;
        let a = match address.check() {
            Ok(a) => a,
            Err(e) => return Err(ContractError::Std(e)),
        };
        self.denylist.insert(a, true);
        Ok(action_response_with("add_to_denylist", "address", address.text))
    }

    /// Owner only: takes `address` off the denylist.
    pub fn remove_from_denylist(&mut self, ctx: &Ctx, address: AddrInput) -> (r: Result<
        TokenResponse,
        ContractError,
    >)
        requires
            old(self).wf(),
        ensures
            final(self).wf(),
            old(self).supply_consistent() ==> final(self).supply_consistent(),
            match r {
                Ok(resp) => owner_error(old(self)@, ctx.sender) is None && address.valid()
                    && final(self)@ == (TokenModel {
                    denylist: old(self)@.denylist.remove(address.text@),
                    ..old(self)@
                }) && plain(
                    resp,
                    seq![("action"@, "remove_from_denylist"@), ("address"@, address.text@)],
                ),
                Err(e) => final(self)@ == old(self)@ && if owner_error(old(self)@, ctx.sender) is Some {
                    owner_error(old(self)@, ctx.sender) == Some(e@)
                } else {
                    !address.valid() && e@ == TokenErr::Std(address.rejection->0@)
                },
            },
    {
        self.only_owner(ctx)?;
        let a = match address.check() {
            Ok(a) => a,
            Err(e) => return Err(ContractError::Std(e)),
        };
        self.denylist.remove(&a);
        Ok(action_response_with("remove_from_denylist", "address", address.text))
    }

    /// Owner or agent: freezes `address`.
    pub fn freeze(&mut self, ctx: &Ctx, address: AddrInput) -> (r: Result<TokenResponse, ContractError>)
        requires
            old(self).wf(),
        ensures
            final(self).wf(),
            old(self).supply_consistent() ==> final(self).supply_consistent(),
            match r {
                Ok(resp) => owner_or_agent_error(old(self)@, ctx.sender) is None && address.valid()
                    && final(self)@ == (TokenModel {
                    frozen: old(self)@.frozen.insert(address.text@, true),
                    ..old(self)@
                }) && plain(resp, seq![("action"@, "freeze"@), ("address"@, address.text@)]),
                Err(e) => final(self)@ == old(self)@ && if owner_or_agent_error(
                    old(self)@,
                    ctx.sender,
                ) is Some {
                    owner_or_agent_error(old(self)@, ctx.sender) == Some(e@)
                } else {
                    !address.valid() && e@ == TokenErr::Std(address.rejection->0@)
                },
            },
    {
        self.only_owner_or_agent(ctx)?;
        let a = match address.check() {
            Ok(a) => a,
            Err(e) => return Err(ContractError::Std(e)),
        };
        self.frozen.insert(a, true);
        Ok(action_response_with("freeze", "address", address.text))
    }

    /// Owner or agent: unfreezes `address` (records it as not frozen).
    pub fn unfreeze(&mut self, ctx: &Ctx, address: AddrInput) -> (r: Result<TokenResponse, ContractError>)
        requires
            old(self).wf(),
        ensures
            final(self).wf(),
            old(self).supply_consistent() ==> final(self).supply_consistent(),
            match r {
                Ok(resp) => owner_or_agent_error(old(self)@, ctx.sender) is None && address.valid()
                    && final(self)@ == (TokenModel {
                    frozen: old(self)@.frozen.insert(address.text@, false),
                    ..old(self)@
                }) && plain(resp, seq![("action"@, "unfreeze"@), ("address"@, address.text@)]),
                Err(e) => final(self)@ == old(self)@ && if owner_or_agent_error(
                    old(self)@,
                    ctx.sender,
                ) is Some {
                    owner_or_agent_error(old(self)@, ctx.sender) == Some(e@)
                } else {
                    !address.valid() && e@ == TokenErr::Std(address.rejection->0@)
                },
            },
    {
        self.only_owner_or_agent(ctx)?;
        let a = match address.check() {
            Ok(a) => a,
            Err(e) => return Err(ContractError::Std(e)),
        };
        self.frozen.insert(a, false);
        Ok(action_response_with("unfreeze", "address", address.text))
    }

    /// Owner or agent: freezes every address given.
    pub fn freeze_many(&mut self, ctx: &Ctx, addresses: Vec<AddrInput>) -> (r: Result<
        TokenResponse,
        ContractError,
    >)
        requires
            old(self).wf(),
        ensures
            final(self).wf(),
            old(self).supply_consistent() ==> final(self).supply_consistent(),
            match r {
                Ok(resp) => owner_or_agent_error(old(self)@, ctx.sender) is None && first_rejection(
                    addresses@,
                ) is None && final(self)@ == (TokenModel {
                    frozen: insert_all(old(self)@.frozen, addresses@, true),
                    ..old(self)@
                }) && plain(resp, seq![("action"@, "freeze_many"@)]),
                Err(e) => final(self)@ == old(self)@ && if owner_or_agent_error(
                    old(self)@,
                    ctx.sender,
                ) is Some {
                    owner_or_agent_error(old(self)@, ctx.sender) == Some(e@)
                } else {
                    first_rejection(addresses@) is Some && e@ == TokenErr::Std(
                        first_rejection(addresses@)->0@,
                    )
                },
            },
    {
        self.only_owner_or_agent(ctx)?;
        match check_all(&addresses) {
            Ok(_) => {},
            Err(e) => return Err(ContractError::Std(e)),
        }
        set_all(&mut self.frozen, &addresses, true);
        Ok(action_response("freeze_many"))
    }

    /// Owner, controller or agent: gives `address` the KYC status `status`.
    pub fn set_kyc_status(&mut self, ctx: &Ctx, address: AddrInput, status: KycStatus) -> (r: Result<
        TokenResponse,
        ContractError,
    >)
        requires
            old(self).wf(),
        ensures
            final(self).wf(),
            old(self).supply_consistent() ==> final(self).supply_consistent(),
            match r {
                Ok(resp) => kyc_admin_error(old(self)@, ctx.sender) is None && address.valid()
                    && final(self)@ == (TokenModel {
                    kyc: old(self)@.kyc.insert(address.text@, status),
                    ..old(self)@
                }) && plain(
                    resp,
                    seq![
                        ("action"@, "set_kyc"@),
                        ("address"@, address.text@),
                        ("status"@, kyc_debug(status)),
                    ],
                ),
                Err(e) => final(self)@ == old(self)@ && if kyc_admin_error(old(self)@, ctx.sender) is Some {
                    kyc_admin_error(old(self)@, ctx.sender) == Some(e@)
                } else {
                    !address.valid() && e@ == TokenErr::Std(address.rejection->0@)
                },
            },
    {
        self.only_kyc_admin(ctx)?;
        let a = match address.check() {
            Ok(a) => a,
            Err(e) => return Err(ContractError::Std(e)),
        };
        self.kyc.insert(a, status);
        Ok(action_response_with2("set_kyc", "address", address.text, "status", kyc_debug_string(status)))
    }

    /// Owner, controller or agent: applies the KYC updates in order.
    pub fn batch_set_kyc(&mut self, ctx: &Ctx, updates: Vec<KycUpdate>) -> (r: Result<
        TokenResponse,
        ContractError,
    >)
        requires
            old(self).wf(),
        ensures
            final(self).wf(),
            old(self).supply_consistent() ==> final(self).supply_consistent(),
            match r {
                Ok(resp) => kyc_admin_error(old(self)@, ctx.sender) is None && first_rejection(
                    update_addresses(updates@),
                ) is None && final(self)@ == (TokenModel {
                    kyc: apply_kyc(old(self)@.kyc, updates@),
                    ..old(self)@
                }) && plain(resp, seq![("action"@, "batch_set_kyc"@)]),
                Err(e) => final(self)@ == old(self)@ && if kyc_admin_error(old(self)@, ctx.sender) is Some {
                    kyc_admin_error(old(self)@, ctx.sender) == Some(e@)
                } else {
                    first_rejection(update_addresses(updates@)) is Some && e@ == TokenErr::Std(
                        first_rejection(update_addresses(updates@))->0@,
                    )
                },
            },
    {
        self.only_kyc_admin(ctx)?;
        let ghost ua = update_addresses(updates@);
        let mut i: usize = 0;
        while i < updates.len()
            invariant
                ua == update_addresses(updates@),
                self.wf(),
                self@ == old(self)@,
                old(self).supply_consistent() ==> self.supply_consistent(),
                kyc_admin_error(old(self)@, ctx.sender) is None,
                i <= updates@.len(),
                first_rejection(ua.take(i as int)) is None,
            decreases updates@.len() - i,
        {
            proof {
                lemma_first_rejection_push(ua.take(i as int), ua[i as int]);
                assert(ua.take(i + 1) =~= ua.take(i as int).push(ua[i as int]));
            }
            match updates[i].address.check() {
                Ok(_) => {},
                Err(e) => {
                    proof {
                        lemma_first_rejection_prefix(ua, i + 1);
                    }
                    return Err(ContractError::Std(e));
                },
            }
            i = i + 1;
        }
        assert(ua.take(i as int) =~= ua);
        let mut j: usize = 0;
        while j < updates.len()
            invariant
                self.wf(),
                j <= updates@.len(),
                self@ == (TokenModel { kyc: apply_kyc(old(self)@.kyc, updates@.take(j as int)), ..old(self)@ }),
                old(self).supply_consistent() ==> self.supply_consistent(),
            decreases updates@.len() - j,
        {
            assert(updates@.take(j + 1).drop_last() =~= updates@.take(j as int));
            self.kyc.insert(updates[j].address.text.clone(), updates[j].status);
            j = j + 1;
        }
        assert(updates@.take(j as int) =~= updates@);
        Ok(action_response("batch_set_kyc"))
    }

    /// Owner only: enables the plugins in `add`, then drops those in `remove`.
    pub fn update_rule_plugins(&mut self, ctx: &Ctx, add: Vec<AddrInput>, remove: Vec<AddrInput>) -> (r:
        Result<TokenResponse, ContractError>)
        requires
            old(self).wf(),
        ensures
            final(self).wf(),
            old(self).supply_consistent() ==> final(self).supply_consistent(),
            match r {
                Ok(resp) => owner_error(old(self)@, ctx.sender) is None && first_rejection(add@ + remove@)
                    is None && final(self)@ == (TokenModel {
                    rule_plugins: remove_all(insert_all(old(self)@.rule_plugins, add@, true), remove@),
                    ..old(self)@
                }) && plain(resp, seq![("action"@, "update_rule_plugins"@)]),
                Err(e) => final(self)@ == old(self)@ && if owner_error(old(self)@, ctx.sender) is Some {
                    owner_error(old(self)@, ctx.sender) == Some(e@)
                } else {
                    first_rejection(add@ + remove@) is Some && e@ == TokenErr::Std(
                        first_rejection(add@ + remove@)->0@,
                    )
                },
            },
    {
        self.only_owner(ctx)?;
        proof {
            crate::token::state::lemma_first_rejection_append(add@, remove@);
        }
        match check_all(&add) {
            Ok(_) => {},
            Err(e) => return Err(ContractError::Std(e)),
        }
        match check_all(&remove) {
            Ok(_) => {},
            Err(e) => return Err(ContractError::Std(e)),
        }
        set_all(&mut self.rule_plugins, &add, true);
        remove_each(&mut self.rule_plugins, &remove);
        Ok(action_response("update_rule_plugins"))
    }

    /// Controller only: records an attestation about `subject`.
    pub fn attach_attestation(&mut self, ctx: &Ctx, subject: AddrInput, attestation: String) -> (r:
        Result<TokenResponse, ContractError>)
        requires
            old(self).wf(),
        ensures
            final(self).wf(),
            old(self).supply_consistent() ==> final(self).supply_consistent(),
            match r {
                Ok(resp) => ctx.sender.text@ == old(self)@.controller && subject.valid()
                    && final(self)@ == (TokenModel {
                    attestations: old(self)@.attestations.insert(subject.text@, attestation),
                    ..old(self)@
                }) && plain(
                    resp,
                    seq![("action"@, "attach_attestation"@), ("subject"@, subject.text@)],
                ),
                Err(e) => final(self)@ == old(self)@ && if ctx.sender.text@ != old(self)@.controller {
                    e@ == TokenErr::Unauthorized
                } else {
                    !subject.valid() && e@ == TokenErr::Std(subject.rejection->0@)
                },
            },
    {
        self.only_controller(ctx)?;
        let a = match subject.check() {
            Ok(a) => a,
            Err(e) => return Err(ContractError::Std(e)),
        };
        self.attestations.insert(a, attestation);
        Ok(action_response_with("attach_attestation", "subject", subject.text))
    }

    /// Owner or controller: sets (or clears) the transfer limit of `address`.
    pub fn set_transfer_limit(&mut self, ctx: &Ctx, address: AddrInput, limit: Option<u128>) -> (r:
        Result<TokenResponse, ContractError>)
        requires
            old(self).wf(),
        ensures
            final(self).wf(),
            old(self).supply_consistent() ==> final(self).supply_consistent(),
            match r {
                Ok(resp) => owner_or_controller_error(old(self)@, ctx.sender) is None
                    && address.valid() && final(self)@ == (TokenModel {
                    transfer_limits: old(self)@.transfer_limits.insert(address.text@, limit),
                    ..old(self)@
                }) && plain(
                    resp,
                    seq![
                        ("action"@, "set_transfer_limit"@),
                        ("address"@, address.text@),
                        ("limit"@, opt_amount_debug(limit)),
                    ],
                ),
                Err(e) => final(self)@ == old(self)@ && if owner_or_controller_error(
                    old(self)@,
                    ctx.sender,
                ) is Some {
                    owner_or_controller_error(old(self)@, ctx.sender) == Some(e@)
                } else {
                    !address.valid() && e@ == TokenErr::Std(address.rejection->0@)
                },
            },
    {
        self.only_owner_or_controller(ctx)?;
        let a = match address.check() {
            Ok(a) => a,
            Err(e) => return Err(ContractError::Std(e)),
        };
        self.transfer_limits.insert(a, limit);
        Ok(action_response_with2("set_transfer_limit", "address", address.text, "limit", opt_amount_debug_string(limit)))
    }
}

} // verus!
