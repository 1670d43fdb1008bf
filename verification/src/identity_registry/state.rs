//! The registry's records, its administration and its plain queries.
use vstd::prelude::*;
use crate::common::{AddrInput, StdFailure, StdFailureView, Response, Ctx, text, text_or};
use crate::addr_map::AddrMap;

verus! {

/// The on-chain identity registered for a wallet, and its country.
#[derive(Debug)]
pub struct IdentityRef {
    pub identity_addr: String,
    pub country: Option<String>,
}

/// Errors of the identity registry.
#[derive(Debug)]
pub enum RegistryError {
    Std(StdFailure),
    Unauthorized,
    NotRegistered,
}

pub enum RegistryErr {
    Std(StdFailureView),
    Unauthorized,
    NotRegistered,
}

impl View for RegistryError {
    type V = RegistryErr;

    open spec fn view(&self) -> RegistryErr {
        match self {
            RegistryError::Std(e) => RegistryErr::Std(e@),
            RegistryError::Unauthorized => RegistryErr::Unauthorized,
            RegistryError::NotRegistered => RegistryErr::NotRegistered,
        }
    }
}

/// The call the registry makes on an identity storage it binds to.
#[derive(Debug)]
pub enum RegistryMsg {
    /// `BindIdentityRegistry { registry }` to the storage at `storage`.
    BindIdentityRegistry { storage: String, registry: String },
}

pub type RegistryResponse = Response<RegistryMsg>;

#[derive(Debug)]
pub struct InstantiateMsg {
    pub owner: AddrInput,
    pub trusted_issuers: Option<AddrInput>,
    pub claim_topics: Option<AddrInput>,
    pub identity_storage: Option<AddrInput>,
}

#[derive(Debug, PartialEq)]
pub struct IsVerifiedResponse {
    pub verified: bool,
    pub reason: Option<String>,
}

#[derive(Debug, PartialEq)]
pub struct IdentityResponse {
    pub wallet: String,
    pub identity_addr: Option<String>,
    pub country: Option<String>,
}

#[derive(Debug, PartialEq)]
pub struct ConfigResponse {
    pub owner: String,
    pub trusted_issuers: Option<String>,
    pub claim_topics: Option<String>,
    pub identity_storage: Option<String>,
}

#[derive(Debug, PartialEq)]
pub struct ContainsResponse {
    pub contains: bool,
}

#[derive(Debug, PartialEq)]
pub struct RegistryAddressResponse {
    pub address: Option<String>,
}

/// The (empty) migration message.
#[derive(Debug, PartialEq)]
pub struct MigrateMsg {}

/// The registry's state.
pub struct RegistryState {
    pub owner: String,
    pub trusted_issuers: Option<String>,
    pub claim_topics: Option<String>,
    pub identity_storage: Option<String>,
    pub registry: AddrMap<IdentityRef>,
}

/// The address an optional input gives when the chain accepts it; a
/// rejected one counts as none.
pub open spec fn accepted(a: Option<AddrInput>) -> Option<Seq<char>> {
    match a {
        Some(x) => if x.valid() {
            Some(x.text@)
        } else {
            None
        },
        None => None,
    }
}

pub open spec fn opt_text(o: Option<String>) -> Option<Seq<char>> {
    match o {
        Some(s) => Some(s@),
        None => None,
    }
}

pub fn accepted_addr(a: &Option<AddrInput>) -> (r: Option<String>)
    ensures
        opt_text(r) == accepted(*a),
{
    match a {
        Some(x) => match x.check() {
            Ok(s) => Some(s),
            Err(_) => None,
        },
        None => None,
    }
}

fn clone_opt(o: &Option<String>) -> (r: Option<String>)
    ensures
        r == *o,
{
    match o {
        Some(s) => Some(s.clone()),
        None => None,
    }
}

/// A response with no messages and no events, only these attributes.
pub open spec fn plain(resp: RegistryResponse, attrs: Seq<(Seq<char>, Seq<char>)>) -> bool {
    &&& resp.messages@.len() == 0
    &&& resp.evts().len() == 0
    &&& resp.attrs() == attrs
}

fn response_with(action: &str, key: &str, value: String) -> (r: RegistryResponse)
    ensures
        plain(r, seq![("action"@, action@), (key@, value@)]),
{
    let ghost v = value@;
    let mut r: RegistryResponse = Response::new();
    r.attr("action", text(action));
    r.attr(key, value);
    assert(r.attrs() =~= seq![("action"@, action@), (key@, v)]);
    r
}

/// The refusal of a caller that is not the owner.
pub open spec fn owner_error(s: RegistryState, ctx: Ctx) -> Option<RegistryErr> {
    if ctx.sender.text@ != s.owner@ {
        Some(RegistryErr::Unauthorized)
    } else {
        None
    }
}

/// The refusal of an owner-only call on `wallet` (and `other`, checked
/// second), if any.
pub open spec fn owner_and_addrs_error(s: RegistryState, ctx: Ctx, addrs: Seq<AddrInput>) -> Option<
    RegistryErr,
> {
    if owner_error(s, ctx) is Some {
        owner_error(s, ctx)
    } else if addrs.len() > 0 && !addrs[0].valid() {
        Some(RegistryErr::Std(addrs[0].rejection->0@))
    } else if addrs.len() > 1 && !addrs[1].valid() {
        Some(RegistryErr::Std(addrs[1].rejection->0@))
    } else {
        None
    }
}

/// The owner and the linked contracts are the same in `a` and `b`.
pub open spec fn links_kept(a: RegistryState, b: RegistryState) -> bool {
    &&& a.owner == b.owner
    &&& a.trusted_issuers == b.trusted_issuers
    &&& a.claim_topics == b.claim_topics
    &&& a.identity_storage == b.identity_storage
}

/// The refusal of an update of `wallet`'s registration, if any.
pub open spec fn update_error(s: RegistryState, ctx: Ctx, addrs: Seq<AddrInput>) -> Option<RegistryErr> {
    if owner_and_addrs_error(s, ctx, addrs) is Some {
        owner_and_addrs_error(s, ctx, addrs)
    } else if !s@.contains_key(addrs[0].text@) {
        Some(RegistryErr::NotRegistered)
    } else {
        None
    }
}

pub open spec fn text_or_none(o: Option<String>) -> Seq<char> {
    match o {
        Some(s) => s@,
        None => "none"@,
    }
}

impl RegistryState {
    pub open spec fn wf(&self) -> bool {
        self.registry.wf()
    }

    /// Sets up the registry; addresses of the linked contracts that the
    /// chain rejects are left unset.
    pub fn instantiate(ctx: &Ctx, msg: InstantiateMsg) -> (r: Result<(RegistryState, RegistryResponse), RegistryError>)
        ensures
            match r {
                Ok((s, resp)) => {
                    &&& msg.owner.valid()
                    &&& s.wf()
                    &&& s.owner@ == msg.owner.text@
                    &&& opt_text(s.trusted_issuers) == accepted(msg.trusted_issuers)
                    &&& opt_text(s.claim_topics) == accepted(msg.claim_topics)
                    &&& opt_text(s.identity_storage) == accepted(msg.identity_storage)
                    &&& s.registry@.is_empty()
                    &&& plain(resp, seq![("method"@, "instantiate"@), ("owner"@, ctx.sender.text@)])
                },
                Err(e) => !msg.owner.valid() && e@ == RegistryErr::Std(msg.owner.rejection->0@),
            },
    {
        let owner = match msg.owner.check() {
            Ok(a) => a,
            Err(e) => return Err(RegistryError::Std(e)),
        };
        let s = RegistryState {
            owner,
            trusted_issuers: accepted_addr(&msg.trusted_issuers),
            claim_topics: accepted_addr(&msg.claim_topics),
            identity_storage: accepted_addr(&msg.identity_storage),
            registry: AddrMap::new(),
        };
        let mut resp: RegistryResponse = Response::new();
        resp.attr("method", text("instantiate"));
        resp.attr("owner", ctx.sender.text.clone());
        assert(resp.attrs() =~= seq![("method"@, "instantiate"@), ("owner"@, ctx.sender.text@)]);
        Ok((s, resp))
    }

    fn only_owner(&self, ctx: &Ctx) -> (r: Result<(), RegistryError>)
        ensures
            match r {
                Ok(_) => owner_error(*self, *ctx) is None,
                Err(e) => owner_error(*self, *ctx) == Some(e@),
            },
    {
        if ctx.sender.text != self.owner {
            return Err(RegistryError::Unauthorized);
        }
        Ok(())
    }

    /// Owner only: registers `identity_addr` (and `country`) for `wallet`,
    /// replacing an earlier registration.
    pub fn register_identity(
        &mut self,
        ctx: &Ctx,
        wallet: AddrInput,
        identity_addr: AddrInput,
        country: Option<String>,
    ) -> (r: Result<RegistryResponse, RegistryError>)
        requires
            old(self).wf(),
        ensures
            final(self).wf(),
            match r {
                Ok(resp) => owner_and_addrs_error(*old(self), *ctx, seq![wallet, identity_addr]) is None
                    && final(self)@ == old(self)@.insert(
                    wallet.text@,
                    IdentityRef { identity_addr: identity_addr.text, country },
                ) && links_kept(*old(self), *final(self)) && plain(
                    resp,
                    seq![("action"@, "register_identity"@), ("wallet"@, wallet.text@)],
                ),
                Err(e) => owner_and_addrs_error(*old(self), *ctx, seq![wallet, identity_addr]) == Some(
                    e@,
                ) && *final(self) == *old(self),
            },
    {
        self.only_owner(ctx)?;
        let w = match wallet.check() {
            Ok(a) => a,
            Err(e) => return Err(RegistryError::Std(e)),
        };
        let i = match identity_addr.check() {
            Ok(a) => a,
            Err(e) => return Err(RegistryError::Std(e)),
        };
        self.registry.insert(w, IdentityRef { identity_addr: i, country });
        Ok(response_with("register_identity", "wallet", wallet.text))
    }
}

impl RegistryState {
    /// Owner only: drops `wallet`'s registration.
    pub fn unregister_identity(&mut self, ctx: &Ctx, wallet: AddrInput) -> (r: Result<RegistryResponse, RegistryError>)
        requires
            old(self).wf(),
        ensures
            final(self).wf(),
            match r {
                Ok(resp) => owner_and_addrs_error(*old(self), *ctx, seq![wallet]) is None
                    && final(self)@ == old(self)@.remove(wallet.text@) && links_kept(*old(self), *final(self))
                    && plain(resp, seq![("action"@, "unregister_identity"@), ("wallet"@, wallet.text@)]),
                Err(e) => owner_and_addrs_error(*old(self), *ctx, seq![wallet]) == Some(e@) && *final(self)
                    == *old(self),
            },
    {
        self.only_owner(ctx)?;
        let w = match wallet.check() {
            Ok(a) => a,
            Err(e) => return Err(RegistryError::Std(e)),
        };
        self.registry.remove(&w);
        Ok(response_with("unregister_identity", "wallet", wallet.text))
    }

    /// Owner only: points a registered wallet at another identity.
    pub fn update_identity(&mut self, ctx: &Ctx, wallet: AddrInput, identity_addr: AddrInput) -> (r: Result<
        RegistryResponse,
        RegistryError,
    >)
        requires
            old(self).wf(),
        ensures
            final(self).wf(),
            match r {
                Ok(resp) => {
                    let before = old(self)@[wallet.text@];
                    &&& update_error(*old(self), *ctx, seq![wallet, identity_addr]) is None
                    &&& final(self)@ == old(self)@.insert(
                        wallet.text@,
                        IdentityRef { identity_addr: identity_addr.text, country: before.country },
                    )
                    &&& links_kept(*old(self), *final(self))
                    &&& plain(
                        resp,
                        seq![
                            ("action"@, "update_identity"@),
                            ("wallet"@, wallet.text@),
                            ("old_identity"@, before.identity_addr@),
                            ("new_identity"@, identity_addr.text@),
                        ],
                    )
                },
                Err(e) => update_error(*old(self), *ctx, seq![wallet, identity_addr]) == Some(e@)
                    && *final(self) == *old(self),
            },
    {
        self.only_owner(ctx)?;
        let w = match wallet.check() {
            Ok(a) => a,
            Err(e) => return Err(RegistryError::Std(e)),
        };
        let i = match identity_addr.check() {
            Ok(a) => a,
            Err(e) => return Err(RegistryError::Std(e)),
        };
        let (old_identity, country) = match self.registry.get(&w) {
            Some(reg) => (reg.identity_addr.clone(), clone_opt(&reg.country)),
            None => return Err(RegistryError::NotRegistered),
        };
        self.registry.insert(w, IdentityRef { identity_addr: i.clone(), country });
        let ghost wt = wallet.text@;
        let ghost ot = old_identity@;
        let ghost it = i@;
        let mut resp: RegistryResponse = Response::new();
        resp.attr("action", text("update_identity"));
        resp.attr("wallet", wallet.text);
        resp.attr("old_identity", old_identity);
        resp.attr("new_identity", i);
        assert(resp.attrs() =~= seq![
            ("action"@, "update_identity"@),
            ("wallet"@, wt),
            ("old_identity"@, ot),
            ("new_identity"@, it),
        ]);
        Ok(resp)
    }

    /// Owner only: sets a registered wallet's country.
    pub fn update_country(&mut self, ctx: &Ctx, wallet: AddrInput, country: Option<String>) -> (r: Result<
        RegistryResponse,
        RegistryError,
    >)
        requires
            old(self).wf(),
        ensures
            final(self).wf(),
            match r {
                Ok(resp) => {
                    let before = old(self)@[wallet.text@];
                    &&& update_error(*old(self), *ctx, seq![wallet]) is None
                    &&& final(self)@ == old(self)@.insert(
                        wallet.text@,
                        IdentityRef { identity_addr: before.identity_addr, country },
                    )
                    &&& links_kept(*old(self), *final(self))
                    &&& plain(
                        resp,
                        seq![
                            ("action"@, "update_country"@),
                            ("wallet"@, wallet.text@),
                            ("old_country"@, text_or_none(before.country)),
                            ("new_country"@, text_or_none(country)),
                        ],
                    )
                },
                Err(e) => update_error(*old(self), *ctx, seq![wallet]) == Some(e@) && *final(self)
                    == *old(self),
            },
    {
        self.only_owner(ctx)?;
        let w = match wallet.check() {
            Ok(a) => a,
            Err(e) => return Err(RegistryError::Std(e)),
        };
        let (identity, old_country) = match self.registry.get(&w) {
            Some(reg) => (reg.identity_addr.clone(), text_or(&reg.country, "none")),
            None => return Err(RegistryError::NotRegistered),
        };
        let new_country = text_or(&country, "none");
        self.registry.insert(w, IdentityRef { identity_addr: identity, country });
        let ghost wt = wallet.text@;
        let ghost oc = old_country@;
        let ghost nc = new_country@;
        let mut resp: RegistryResponse = Response::new();
        resp.attr("action", text("update_country"));
        resp.attr("wallet", wallet.text);
        resp.attr("old_country", old_country);
        resp.attr("new_country", new_country);
        assert(resp.attrs() =~= seq![
            ("action"@, "update_country"@),
            ("wallet"@, wt),
            ("old_country"@, oc),
            ("new_country"@, nc),
        ]);
        Ok(resp)
    }

    /// Owner only: hands ownership to `owner`.
    pub fn update_owner(&mut self, ctx: &Ctx, owner: AddrInput) -> (r: Result<RegistryResponse, RegistryError>)
        requires
            old(self).wf(),
        ensures
            final(self).wf(),
            match r {
                Ok(resp) => owner_and_addrs_error(*old(self), *ctx, seq![owner]) is None
                    && *final(self) == (RegistryState { owner: owner.text, ..*old(self) })
                    && plain(resp, seq![("action"@, "update_owner"@), ("owner"@, owner.text@)]),
                Err(e) => owner_and_addrs_error(*old(self), *ctx, seq![owner]) == Some(e@) && *final(self)
                    == *old(self),
            },
    {
        self.only_owner(ctx)?;
        let o = match owner.check() {
            Ok(a) => a,
            Err(e) => return Err(RegistryError::Std(e)),
        };
        self.owner = o;
        Ok(response_with("update_owner", "owner", owner.text))
    }

    /// Owner only: links the trusted issuers registry (unlinks it when the
    /// address is absent or rejected).
    pub fn update_trusted_issuers(&mut self, ctx: &Ctx, addr: Option<AddrInput>) -> (r: Result<
        RegistryResponse,
        RegistryError,
    >)
        requires
            old(self).wf(),
        ensures
            final(self).wf(),
            match r {
                Ok(resp) => owner_error(*old(self), *ctx) is None && opt_text(final(self).trusted_issuers)
                    == accepted(addr) && *final(self) == (RegistryState {
                    trusted_issuers: final(self).trusted_issuers,
                    ..*old(self)
                }) && plain(resp, seq![("action"@, "update_trusted_issuers"@)]),
                Err(e) => owner_error(*old(self), *ctx) == Some(e@) && *final(self) == *old(self),
            },
    {
        self.only_owner(ctx)?;
        self.trusted_issuers = accepted_addr(&addr);
        let mut resp: RegistryResponse = Response::new();
        resp.attr("action", text("update_trusted_issuers"));
        assert(resp.attrs() =~= seq![("action"@, "update_trusted_issuers"@)]);
        Ok(resp)
    }

    /// Owner only: links the claim topics registry (unlinks it when the
    /// address is absent or rejected).
    pub fn update_claim_topics(&mut self, ctx: &Ctx, addr: Option<AddrInput>) -> (r: Result<
        RegistryResponse,
        RegistryError,
    >)
        requires
            old(self).wf(),
        ensures
            final(self).wf(),
            match r {
                Ok(resp) => owner_error(*old(self), *ctx) is None && opt_text(final(self).claim_topics)
                    == accepted(addr) && *final(self) == (RegistryState {
                    claim_topics: final(self).claim_topics,
                    ..*old(self)
                }) && plain(resp, seq![("action"@, "update_claim_topics"@)]),
                Err(e) => owner_error(*old(self), *ctx) == Some(e@) && *final(self) == *old(self),
            },
    {
        self.only_owner(ctx)?;
        self.claim_topics = accepted_addr(&addr);
        let mut resp: RegistryResponse = Response::new();
        resp.attr("action", text("update_claim_topics"));
        assert(resp.attrs() =~= seq![("action"@, "update_claim_topics"@)]);
        Ok(resp)
    }

    /// Owner only: links an identity storage (unlinks it when the address
    /// is absent or rejected) and, when one is linked, asks it to bind this
    /// registry.
    pub fn bind_identity_storage(&mut self, ctx: &Ctx, addr: Option<AddrInput>) -> (r: Result<
        RegistryResponse,
        RegistryError,
    >)
        requires
            old(self).wf(),
        ensures
            final(self).wf(),
            match r {
                Ok(resp) => {
                    &&& owner_error(*old(self), *ctx) is None
                    &&& opt_text(final(self).identity_storage) == accepted(addr)
                    &&& *final(self) == (RegistryState {
                        identity_storage: final(self).identity_storage,
                        ..*old(self)
                    })
                    &&& resp.evts().len() == 0
                    &&& match accepted(addr) {
                        Some(irs) => resp.messages@.len() == 1 && (resp.messages@[0]
                            matches RegistryMsg::BindIdentityRegistry { storage, registry } && storage@
                            == irs && registry@ == ctx.contract@) && resp.attrs() == seq![
                            ("action"@, "bind_identity_storage"@),
                            ("irs_address"@, irs),
                            ("notified_irs"@, "true"@),
                        ],
                        None => resp.messages@.len() == 0 && resp.attrs() == seq![
                            ("action"@, "bind_identity_storage"@),
                        ],
                    }
                },
                Err(e) => owner_error(*old(self), *ctx) == Some(e@) && *final(self) == *old(self),
            },
    {
        self.only_owner(ctx)?;
        let irs = accepted_addr(&addr);
        self.identity_storage = clone_opt(&irs);
        let mut resp: RegistryResponse = Response::new();
        resp.attr("action", text("bind_identity_storage"));
        match irs {
            Some(a) => {
                resp.msg(RegistryMsg::BindIdentityRegistry { storage: a.clone(), registry: ctx.contract.clone() });
                resp.attr("irs_address", a);
                resp.attr("notified_irs", text("true"));
            },
            None => {},
        }
        Ok(resp)
    }

    /// The registration of `wallet`, echoing the wallet as given.
    pub fn identity(&self, wallet: &AddrInput) -> (r: Result<IdentityResponse, StdFailure>)
        requires
            self.wf(),
        ensures
            match r {
                Ok(v) => wallet.valid() && v.wallet@ == wallet.text@ && if self@.contains_key(wallet.text@) {
                    v.identity_addr == Some(self@[wallet.text@].identity_addr) && v.country
                        == self@[wallet.text@].country
                } else {
                    v.identity_addr is None && v.country is None
                },
                Err(e) => !wallet.valid() && wallet.rejection == Some(e),
            },
    {
        let w = wallet.check()?;
        match self.registry.get(&w) {
            Some(reg) => Ok(
                IdentityResponse {
                    wallet: wallet.text.clone(),
                    identity_addr: Some(reg.identity_addr.clone()),
                    country: clone_opt(&reg.country),
                },
            ),
            None => Ok(IdentityResponse { wallet: wallet.text.clone(), identity_addr: None, country: None }),
        }
    }

    /// Whether `wallet` is registered here.
    pub fn contains(&self, wallet: &AddrInput) -> (r: Result<ContainsResponse, StdFailure>)
        requires
            self.wf(),
        ensures
            match r {
                Ok(v) => wallet.valid() && v.contains == self@.contains_key(wallet.text@),
                Err(e) => !wallet.valid() && wallet.rejection == Some(e),
            },
    {
        let w = wallet.check()?;
        Ok(ContainsResponse { contains: self.registry.contains(&w) })
    }

    pub fn trusted_issuers_registry(&self) -> (r: RegistryAddressResponse)
        ensures
            r.address == self.trusted_issuers,
    {
        RegistryAddressResponse { address: clone_opt(&self.trusted_issuers) }
    }

    pub fn claim_topics_registry(&self) -> (r: RegistryAddressResponse)
        ensures
            r.address == self.claim_topics,
    {
        RegistryAddressResponse { address: clone_opt(&self.claim_topics) }
    }

    pub fn config(&self) -> (r: ConfigResponse)
        ensures
            r.owner == self.owner,
            r.trusted_issuers == self.trusted_issuers,
            r.claim_topics == self.claim_topics,
            r.identity_storage == self.identity_storage,
    {
        ConfigResponse {
            owner: self.owner.clone(),
            trusted_issuers: clone_opt(&self.trusted_issuers),
            claim_topics: clone_opt(&self.claim_topics),
            identity_storage: clone_opt(&self.identity_storage),
        }
    }
}

impl View for RegistryState {
    type V = Map<Seq<char>, IdentityRef>;

    /// The registrations, by wallet.
    open spec fn view(&self) -> Map<Seq<char>, IdentityRef> {
        self.registry@
    }
}

} // verus!
