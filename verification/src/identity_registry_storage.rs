//! The identity registry storage: the identities (and countries) of
//! wallets, kept on behalf of the identity registries bound to it.
use vstd::prelude::*;
use crate::common::{AddrInput, StdFailure, StdFailureView, Response, Ctx, text, decimal, decimal_string};
use crate::addr_map::AddrMap;

verus! {

/// The identity stored for a wallet, and its country code.
#[derive(Debug)]
pub struct Identity {
    pub identity: String,
    pub country: u16,
}

/// Errors of the identity storage.
#[derive(Debug)]
pub enum StorageError {
    Std(StdFailure),
    Unauthorized,
    IdentityAlreadyStored,
    IdentityNotStored,
    TooManyRegistries,
    RegistryNotBound,
}

pub enum StorageErr {
    Std(StdFailureView),
    Unauthorized,
    IdentityAlreadyStored,
    IdentityNotStored,
    TooManyRegistries,
    RegistryNotBound,
}

impl View for StorageError {
    type V = StorageErr;

    open spec fn view(&self) -> StorageErr {
        match self {
            StorageError::Std(e) => StorageErr::Std(e@),
            StorageError::Unauthorized => StorageErr::Unauthorized,
            StorageError::IdentityAlreadyStored => StorageErr::IdentityAlreadyStored,
            StorageError::IdentityNotStored => StorageErr::IdentityNotStored,
            StorageError::TooManyRegistries => StorageErr::TooManyRegistries,
            StorageError::RegistryNotBound => StorageErr::RegistryNotBound,
        }
    }
}

/// The storage sends no messages.
pub type StorageResponse = Response<()>;

#[derive(Debug, PartialEq)]
pub struct IdentityResponse {
    pub identity: String,
    pub country: u16,
}

#[derive(Debug, PartialEq)]
pub struct CountryResponse {
    pub country: u16,
}

#[derive(Debug, PartialEq)]
pub struct LinkedRegistriesResponse {
    pub registries: Vec<String>,
}

#[derive(Debug, PartialEq)]
pub struct OwnerResponse {
    pub owner: String,
}

/// The most identity registries that can be bound at once.
pub const MAX_REGISTRIES: usize = 300;

/// The storage's state.
pub struct StorageState {
    pub owner: String,
    pub identities: AddrMap<Identity>,
    /// The bound identity registries, in the order they were bound.
    pub linked: Vec<String>,
}

pub open spec fn views(v: Seq<String>) -> Seq<Seq<char>> {
    v.map_values(|x: String| x@)
}

/// The storage's state as mathematics.
pub struct StorageModel {
    pub owner: Seq<char>,
    pub identities: Map<Seq<char>, (Seq<char>, u16)>,
    pub linked: Seq<Seq<char>>,
}

impl View for StorageState {
    type V = StorageModel;

    open spec fn view(&self) -> StorageModel {
        StorageModel {
            owner: self.owner@,
            identities: self.identities@.map_values(|i: Identity| (i.identity@, i.country)),
            linked: views(self.linked@),
        }
    }
}

/// A response with no messages and no events, only these attributes.
pub open spec fn plain(resp: StorageResponse, attrs: Seq<(Seq<char>, Seq<char>)>) -> bool {
    &&& resp.messages@.len() == 0
    &&& resp.evts().len() == 0
    &&& resp.attrs() == attrs
}

fn response2(action: &str, k1: &str, v1: String, k2: &str, v2: String) -> (r: StorageResponse)
    ensures
        plain(r, seq![("action"@, action@), (k1@, v1@), (k2@, v2@)]),
{
    let ghost a = v1@;
    let ghost b = v2@;
    let mut r: StorageResponse = Response::new();
    r.attr("action", text(action));
    r.attr(k1, v1);
    r.attr(k2, v2);
    assert(r.attrs() =~= seq![("action"@, action@), (k1@, a), (k2@, b)]);
    r
}

fn response1(action: &str, k1: &str, v1: String) -> (r: StorageResponse)
    ensures
        plain(r, seq![("action"@, action@), (k1@, v1@)]),
{
    let ghost a = v1@;
    let mut r: StorageResponse = Response::new();
    r.attr("action", text(action));
    r.attr(k1, v1);
    assert(r.attrs() =~= seq![("action"@, action@), (k1@, a)]);
    r
}

impl StorageModel {
    /// Whether `a` may manage identities: the owner or a bound registry.
    pub open spec fn manages(self, a: Seq<char>) -> bool {
        a == self.owner || self.linked.contains(a)
    }

    /// The refusal of an identity change on `addrs` (checked in order), if any.
    pub open spec fn manage_error(self, ctx: Ctx, addrs: Seq<AddrInput>) -> Option<StorageErr> {
        if !self.manages(ctx.sender.text@) {
            Some(StorageErr::Unauthorized)
        } else if addrs.len() > 0 && !addrs[0].valid() {
            Some(StorageErr::Std(addrs[0].rejection->0@))
        } else if addrs.len() > 1 && !addrs[1].valid() {
            Some(StorageErr::Std(addrs[1].rejection->0@))
        } else {
            None
        }
    }

    /// The refusal of an owner-only call on `a`, if any.
    pub open spec fn owner_error(self, ctx: Ctx, a: AddrInput) -> Option<StorageErr> {
        if ctx.sender.text@ != self.owner {
            Some(StorageErr::Unauthorized)
        } else if !a.valid() {
            Some(StorageErr::Std(a.rejection->0@))
        } else {
            None
        }
    }
}

impl StorageState {
    /// The identities keep their order, and the bound registries are
    /// distinct and at most `MAX_REGISTRIES`.
    pub open spec fn wf(&self) -> bool {
        &&& self.identities.wf()
        &&& views(self.linked@).no_duplicates()
        &&& self.linked@.len() <= MAX_REGISTRIES
    }

    pub fn instantiate(ctx: &Ctx, owner: AddrInput) -> (r: Result<(StorageState, StorageResponse), StorageError>)
        ensures
            match r {
                Ok((s, resp)) => owner.valid() && s.wf() && s@ == (StorageModel {
                    owner: owner.text@,
                    identities: Map::empty(),
                    linked: seq![],
                }) && plain(resp, seq![("method"@, "instantiate"@), ("owner"@, ctx.sender.text@)]),
                Err(e) => !owner.valid() && e@ == StorageErr::Std(owner.rejection->0@),
            },
    {
        let o = match owner.check() {
            Ok(a) => a,
            Err(e) => return Err(StorageError::Std(e)),
        };
        let s = StorageState { owner: o, identities: AddrMap::new(), linked: Vec::new() };
        assert(s@.identities =~= Map::empty());
        assert(s@.linked =~= seq![]);
        let mut resp: StorageResponse = Response::new();
        resp.attr("method", text("instantiate"));
        resp.attr("owner", ctx.sender.text.clone());
        assert(resp.attrs() =~= seq![("method"@, "instantiate"@), ("owner"@, ctx.sender.text@)]);
        Ok((s, resp))
    }

    fn linked_index(&self, a: &String) -> (r: Option<usize>)
        ensures
            match r {
                Some(i) => i < self.linked@.len() && self.linked@[i as int]@ == a@ && forall|j: int|
                    0 <= j < i ==> self.linked@[j]@ != a@,
                None => !views(self.linked@).contains(a@),
            },
    {
        let mut i: usize = 0;
        while i < self.linked.len()
            invariant
                i <= self.linked@.len(),
                forall|j: int| 0 <= j < i ==> #[trigger] self.linked@[j]@ != a@,
            decreases self.linked@.len() - i,
        {
            if self.linked[i] == *a {
                return Some(i);
            }
            i = i + 1;
        }
        proof {
            if views(self.linked@).contains(a@) {
                let k = choose|k: int| 0 <= k < views(self.linked@).len() && views(self.linked@)[k] == a@;
                assert(self.linked@[k]@ == a@);
            }
        }
        None
    }

    fn check_manager(&self, ctx: &Ctx) -> (r: Result<(), StorageError>)
        ensures
            match r {
                Ok(_) => self@.manages(ctx.sender.text@),
                Err(e) => !self@.manages(ctx.sender.text@) && e@ == StorageErr::Unauthorized,
            },
    {
        if ctx.sender.text == self.owner {
            return Ok(());
        }
        match self.linked_index(&ctx.sender.text) {
            Some(i) => {
                assert(views(self.linked@)[i as int] == ctx.sender.text@);
                Ok(())
            },
            None => Err(StorageError::Unauthorized),
        }
    }

    /// Owner or bound registry: stores `identity` and `country` for a wallet
    /// that has none yet.
    pub fn add_identity(&mut self, ctx: &Ctx, wallet: AddrInput, identity: AddrInput, country: u16) -> (r: Result<
        StorageResponse,
        StorageError,
    >)
        requires
            old(self).wf(),
        ensures
            final(self).wf(),
            match r {
                Ok(resp) => {
                    &&& old(self)@.manage_error(*ctx, seq![wallet, identity]) is None
                    &&& !old(self)@.identities.contains_key(wallet.text@)
                    &&& final(self)@ == (StorageModel {
                        identities: old(self)@.identities.insert(wallet.text@, (identity.text@, country)),
                        ..old(self)@
                    })
                    &&& plain(
                        resp,
                        seq![("action"@, "add_identity"@), ("wallet"@, wallet.text@), ("identity"@, identity.text@)],
                    )
                },
                Err(e) => final(self)@ == old(self)@ && if old(self)@.manage_error(*ctx, seq![wallet, identity]) is Some {
                    old(self)@.manage_error(*ctx, seq![wallet, identity]) == Some(e@)
                } else {
                    old(self)@.identities.contains_key(wallet.text@) && e@ == StorageErr::IdentityAlreadyStored
                },
            },
    {
        self.check_manager(ctx)?;
        let w = match wallet.check() {
            Ok(a) => a,
            Err(e) => return Err(StorageError::Std(e)),
        };
        let i = match identity.check() {
            Ok(a) => a,
            Err(e) => return Err(StorageError::Std(e)),
        };
        if self.identities.contains(&w) {
            return Err(StorageError::IdentityAlreadyStored);
        }
        self.identities.insert(w, Identity { identity: i.clone(), country });
        assert(self@.identities =~= old(self)@.identities.insert(wallet.text@, (identity.text@, country)));
        Ok(response2("add_identity", "wallet", wallet.text, "identity", i))
    }

    /// Owner or bound registry: replaces the identity stored for a wallet.
    pub fn modify_identity(&mut self, ctx: &Ctx, wallet: AddrInput, identity: AddrInput) -> (r: Result<
        StorageResponse,
        StorageError,
    >)
        requires
            old(self).wf(),
        ensures
            final(self).wf(),
            match r {
                Ok(resp) => {
                    &&& old(self)@.manage_error(*ctx, seq![wallet, identity]) is None
                    &&& old(self)@.identities.contains_key(wallet.text@)
                    &&& final(self)@ == (StorageModel {
                        identities: old(self)@.identities.insert(
                            wallet.text@,
                            (identity.text@, old(self)@.identities[wallet.text@].1),
                        ),
                        ..old(self)@
                    })
                    &&& plain(
                        resp,
                        seq![
                            ("action"@, "modify_identity"@),
                            ("wallet"@, wallet.text@),
                            ("identity"@, identity.text@),
                        ],
                    )
                },
                Err(e) => final(self)@ == old(self)@ && if old(self)@.manage_error(*ctx, seq![wallet, identity]) is Some {
                    old(self)@.manage_error(*ctx, seq![wallet, identity]) == Some(e@)
                } else {
                    !old(self)@.identities.contains_key(wallet.text@) && e@ == StorageErr::IdentityNotStored
                },
            },
    {
        self.check_manager(ctx)?;
        let w = match wallet.check() {
            Ok(a) => a,
            Err(e) => return Err(StorageError::Std(e)),
        };
        let i = match identity.check() {
            Ok(a) => a,
            Err(e) => return Err(StorageError::Std(e)),
        };
        let country = match self.identities.get(&w) {
            Some(stored) => stored.country,
            None => return Err(StorageError::IdentityNotStored),
        };
        self.identities.insert(w, Identity { identity: i.clone(), country });
        assert(self@.identities =~= old(self)@.identities.insert(
            wallet.text@,
            (identity.text@, old(self)@.identities[wallet.text@].1),
        ));
        Ok(response2("modify_identity", "wallet", wallet.text, "identity", i))
    }

    /// Owner or bound registry: replaces the country stored for a wallet.
    pub fn modify_country(&mut self, ctx: &Ctx, wallet: AddrInput, country: u16) -> (r: Result<
        StorageResponse,
        StorageError,
    >)
        requires
            old(self).wf(),
        ensures
            final(self).wf(),
            match r {
                Ok(resp) => {
                    &&& old(self)@.manage_error(*ctx, seq![wallet]) is None
                    &&& old(self)@.identities.contains_key(wallet.text@)
                    &&& final(self)@ == (StorageModel {
                        identities: old(self)@.identities.insert(
                            wallet.text@,
                            (old(self)@.identities[wallet.text@].0, country),
                        ),
                        ..old(self)@
                    })
                    &&& plain(
                        resp,
                        seq![
                            ("action"@, "modify_country"@),
                            ("wallet"@, wallet.text@),
                            ("country"@, decimal(country as nat)),
                        ],
                    )
                },
                Err(e) => final(self)@ == old(self)@ && if old(self)@.manage_error(*ctx, seq![wallet]) is Some {
                    old(self)@.manage_error(*ctx, seq![wallet]) == Some(e@)
                } else {
                    !old(self)@.identities.contains_key(wallet.text@) && e@ == StorageErr::IdentityNotStored
                },
            },
    {
        self.check_manager(ctx)?;
        let w = match wallet.check() {
            Ok(a) => a,
            Err(e) => return Err(StorageError::Std(e)),
        };
        let identity = match self.identities.get(&w) {
            Some(stored) => stored.identity.clone(),
            None => return Err(StorageError::IdentityNotStored),
        };
        self.identities.insert(w, Identity { identity, country });
        assert(self@.identities =~= old(self)@.identities.insert(
            wallet.text@,
            (old(self)@.identities[wallet.text@].0, country),
        ));
        Ok(response2("modify_country", "wallet", wallet.text, "country", decimal_string(country as u128)))
    }

    /// Owner or bound registry: drops the identity stored for a wallet.
    pub fn remove_identity(&mut self, ctx: &Ctx, wallet: AddrInput) -> (r: Result<StorageResponse, StorageError>)
        requires
            old(self).wf(),
        ensures
            final(self).wf(),
            match r {
                Ok(resp) => {
                    &&& old(self)@.manage_error(*ctx, seq![wallet]) is None
                    &&& old(self)@.identities.contains_key(wallet.text@)
                    &&& final(self)@ == (StorageModel {
                        identities: old(self)@.identities.remove(wallet.text@),
                        ..old(self)@
                    })
                    &&& plain(resp, seq![("action"@, "remove_identity"@), ("wallet"@, wallet.text@)])
                },
                Err(e) => final(self)@ == old(self)@ && if old(self)@.manage_error(*ctx, seq![wallet]) is Some {
                    old(self)@.manage_error(*ctx, seq![wallet]) == Some(e@)
                } else {
                    !old(self)@.identities.contains_key(wallet.text@) && e@ == StorageErr::IdentityNotStored
                },
            },
    {
        self.check_manager(ctx)?;
        let w = match wallet.check() {
            Ok(a) => a,
            Err(e) => return Err(StorageError::Std(e)),
        };
        if !self.identities.contains(&w) {
            return Err(StorageError::IdentityNotStored);
        }
        self.identities.remove(&w);
        assert(self@.identities =~= old(self)@.identities.remove(wallet.text@));
        Ok(response1("remove_identity", "wallet", wallet.text))
    }

    /// Owner only: binds an identity registry (binding one already bound
    /// changes nothing); refused once `MAX_REGISTRIES` are bound.
    pub fn bind_registry(&mut self, ctx: &Ctx, registry: AddrInput) -> (r: Result<StorageResponse, StorageError>)
        requires
            old(self).wf(),
        ensures
            final(self).wf(),
            match r {
                Ok(resp) => {
                    &&& old(self)@.owner_error(*ctx, registry) is None
                    &&& old(self)@.linked.len() < MAX_REGISTRIES
                    &&& final(self)@ == (StorageModel {
                        linked: if old(self)@.linked.contains(registry.text@) {
                            old(self)@.linked
                        } else {
                            old(self)@.linked.push(registry.text@)
                        },
                        ..old(self)@
                    })
                    &&& plain(resp, seq![("action"@, "bind_registry"@), ("registry"@, registry.text@)])
                },
                Err(e) => final(self)@ == old(self)@ && if old(self)@.owner_error(*ctx, registry) is Some {
                    old(self)@.owner_error(*ctx, registry) == Some(e@)
                } else {
                    old(self)@.linked.len() >= MAX_REGISTRIES && e@ == StorageErr::TooManyRegistries
                },
            },
    {
        if ctx.sender.text != self.owner {
            return Err(StorageError::Unauthorized);
        }
        let a = match registry.check() {
            Ok(a) => a,
            Err(e) => return Err(StorageError::Std(e)),
        };
        if self.linked.len() >= MAX_REGISTRIES {
            return Err(StorageError::TooManyRegistries);
        }
        match self.linked_index(&a) {
            Some(i) => {
                assert(views(self.linked@)[i as int] == a@);
            },
            None => {
                let ghost before = self.linked@;
                self.linked.push(a);
                assert(views(self.linked@) =~= views(before).push(registry.text@));
            },
        }
        Ok(response1("bind_registry", "registry", registry.text))
    }

    /// Owner only: unbinds a bound identity registry.
    pub fn unbind_registry(&mut self, ctx: &Ctx, registry: AddrInput) -> (r: Result<StorageResponse, StorageError>)
        requires
            old(self).wf(),
        ensures
            final(self).wf(),
            match r {
                Ok(resp) => {
                    &&& old(self)@.owner_error(*ctx, registry) is None
                    &&& old(self)@.linked.contains(registry.text@)
                    &&& final(self)@ == (StorageModel {
                        linked: old(self)@.linked.remove(old(self)@.linked.index_of(registry.text@)),
                        ..old(self)@
                    })
                    &&& plain(resp, seq![("action"@, "unbind_registry"@), ("registry"@, registry.text@)])
                },
                Err(e) => final(self)@ == old(self)@ && if old(self)@.owner_error(*ctx, registry) is Some {
                    old(self)@.owner_error(*ctx, registry) == Some(e@)
                } else {
                    !old(self)@.linked.contains(registry.text@) && e@ == StorageErr::RegistryNotBound
                },
            },
    {
        if ctx.sender.text != self.owner {
            return Err(StorageError::Unauthorized);
        }
        let a = match registry.check() {
            Ok(a) => a,
            Err(e) => return Err(StorageError::Std(e)),
        };
        match self.linked_index(&a) {
            Some(i) => {
                let ghost before = views(self.linked@);
                proof {
                    assert(before[i as int] == a@);
                    assert(before.contains(a@));
                    let k = before.index_of(a@);
                    before.index_of_first_ensures(a@);
                    assert(k == i);
                }
                self.linked.remove(i);
                assert(views(self.linked@) =~= before.remove(i as int));
                proof {
                    assert forall|x: int, y: int| 0 <= x < y < views(self.linked@).len() implies views(self.linked@)[x]
                        != views(self.linked@)[y] by {
                        if x >= i {
                            assert(before[x + 1] != before[y + 1]);
                        } else if y >= i {
                            assert(before[x] != before[y + 1]);
                        } else {
                            assert(before[x] != before[y]);
                        }
                    }
                }
            },
            None => return Err(StorageError::RegistryNotBound),
        }
        Ok(response1("unbind_registry", "registry", registry.text))
    }

    /// Owner only: hands ownership to `new_owner`.
    pub fn transfer_ownership(&mut self, ctx: &Ctx, new_owner: AddrInput) -> (r: Result<StorageResponse, StorageError>)
        requires
            old(self).wf(),
        ensures
            final(self).wf(),
            match r {
                Ok(resp) => old(self)@.owner_error(*ctx, new_owner) is None && final(self)@ == (StorageModel {
                    owner: new_owner.text@,
                    ..old(self)@
                }) && plain(resp, seq![("action"@, "transfer_ownership"@), ("new_owner"@, new_owner.text@)]),
                Err(e) => final(self)@ == old(self)@ && old(self)@.owner_error(*ctx, new_owner) == Some(e@),
            },
    {
        if ctx.sender.text != self.owner {
            return Err(StorageError::Unauthorized);
        }
        let a = match new_owner.check() {
            Ok(a) => a,
            Err(e) => return Err(StorageError::Std(e)),
        };
        self.owner = a;
        Ok(response1("transfer_ownership", "new_owner", new_owner.text))
    }

    /// The identity stored for `wallet`.
    pub fn stored_identity(&self, wallet: &AddrInput) -> (r: Result<IdentityResponse, StdFailure>)
        requires
            self.wf(),
        ensures
            match r {
                Ok(v) => wallet.valid() && self@.identities.contains_key(wallet.text@) && (v.identity@, v.country)
                    == self@.identities[wallet.text@],
                Err(e) => if !wallet.valid() {
                    wallet.rejection == Some(e)
                } else {
                    !self@.identities.contains_key(wallet.text@) && e == StdFailure::NotFound(e->NotFound_0)
                        && e->NotFound_0@ == "identity"@
                },
            },
    {
        let w = wallet.check()?;
        match self.identities.get(&w) {
            Some(i) => Ok(IdentityResponse { identity: i.identity.clone(), country: i.country }),
            None => Err(StdFailure::NotFound(text("identity"))),
        }
    }

    /// The country stored for `wallet`.
    pub fn stored_country(&self, wallet: &AddrInput) -> (r: Result<CountryResponse, StdFailure>)
        requires
            self.wf(),
        ensures
            match r {
                Ok(v) => wallet.valid() && self@.identities.contains_key(wallet.text@) && v.country
                    == self@.identities[wallet.text@].1,
                Err(e) => if !wallet.valid() {
                    wallet.rejection == Some(e)
                } else {
                    !self@.identities.contains_key(wallet.text@) && e == StdFailure::NotFound(e->NotFound_0)
                        && e->NotFound_0@ == "identity"@
                },
            },
    {
        let w = wallet.check()?;
        match self.identities.get(&w) {
            Some(i) => Ok(CountryResponse { country: i.country }),
            None => Err(StdFailure::NotFound(text("identity"))),
        }
    }

    pub fn linked_registries(&self) -> (r: LinkedRegistriesResponse)
        ensures
            views(r.registries@) == self@.linked,
    {
        let mut out: Vec<String> = Vec::new();
        let mut i: usize = 0;
        while i < self.linked.len()
            invariant
                i <= self.linked@.len(),
                views(out@) == views(self.linked@).take(i as int),
            decreases self.linked@.len() - i,
        {
            let c = self.linked[i].clone();
            let ghost before = out@;
            out.push(c);
            assert(c@ == self.linked@[i as int]@);
            assert(views(out@) =~= views(before).push(c@));
            assert(views(out@) =~= views(self.linked@).take(i + 1));
            i = i + 1;
        }
        assert(views(self.linked@).take(self.linked@.len() as int) =~= views(self.linked@));
        LinkedRegistriesResponse { registries: out }
    }

    pub fn owner(&self) -> (r: OwnerResponse)
        ensures
            r.owner@ == self@.owner,
    {
        OwnerResponse { owner: self.owner.clone() }
    }
}


/// Storing an identity for a wallet that had none and then removing it
/// leaves the identities as they were.
pub proof fn lemma_add_then_remove(m: StorageModel, wallet: Seq<char>, identity: Seq<char>, country: u16)
    requires
        !m.identities.contains_key(wallet),
    ensures
        m.identities.insert(wallet, (identity, country)).remove(wallet) == m.identities,
{
    assert(m.identities.insert(wallet, (identity, country)).remove(wallet) =~= m.identities);
}

/// Binding a registry that is not bound and then unbinding it leaves the
/// bound registries as they were.
pub proof fn lemma_bind_then_unbind(linked: Seq<Seq<char>>, registry: Seq<char>)
    requires
        !linked.contains(registry),
    ensures
        linked.push(registry).remove(linked.push(registry).index_of(registry)) == linked,
{
    let l = linked.push(registry);
    assert(l[linked.len() as int] == registry);
    assert(l.contains(registry));
    l.index_of_first_ensures(registry);
    let k = l.index_of(registry);
    if k < linked.len() {
        assert(linked[k] == registry);
    }
    assert(k == linked.len());
    assert(l.remove(k) =~= linked);
}

/// What `stored_identity` answers after `add_identity` stored an identity.
pub proof fn lemma_stored_after_add(m: StorageModel, wallet: Seq<char>, identity: Seq<char>, country: u16)
    ensures
        (StorageModel { identities: m.identities.insert(wallet, (identity, country)), ..m }).identities[wallet]
            == (identity, country),
{
}
} // verus!
