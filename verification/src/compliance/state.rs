//! The compliance contract's state, its administration, and the
//! notifications it relays to its modules.
use vstd::prelude::*;
use crate::common::{AddrInput, StdFailure, StdFailureView, Response, Ctx, text, decimal, decimal_string};
use crate::addr_map::AddrMap;
use crate::compliance::module::ModuleExecuteMsg;
use crate::compliance::msg::{ConfigResponse, ModulesResponse, ModuleInfoResponse};

verus! {

/// A registered module's name.
#[derive(Debug)]
pub struct ModuleInfo {
    pub name: String,
}

/// Errors of the compliance contract.
#[derive(Debug)]
pub enum ComplianceError {
    Std(StdFailure),
    Unauthorized,
    CountryRestricted { country: u16 },
    TransferLimitExceeded { amount: String, limit: String },
    CustomError { msg: String },
}

pub enum ComplianceErr {
    Std(StdFailureView),
    Unauthorized,
    CountryRestricted { country: u16 },
    TransferLimitExceeded { amount: Seq<char>, limit: Seq<char> },
    CustomError { msg: Seq<char> },
}

impl View for ComplianceError {
    type V = ComplianceErr;

    open spec fn view(&self) -> ComplianceErr {
        match self {
            ComplianceError::Std(e) => ComplianceErr::Std(e@),
            ComplianceError::Unauthorized => ComplianceErr::Unauthorized,
            ComplianceError::CountryRestricted { country } => ComplianceErr::CountryRestricted { country: *country },
            ComplianceError::TransferLimitExceeded { amount, limit } => ComplianceErr::TransferLimitExceeded {
                amount: amount@,
                limit: limit@,
            },
            ComplianceError::CustomError { msg } => ComplianceErr::CustomError { msg: msg@ },
        }
    }
}

/// A call on a compliance module.
#[derive(Debug)]
pub struct ModuleCall {
    pub module: String,
    pub msg: ModuleExecuteMsg,
}

pub type ComplianceResponse = Response<ModuleCall>;

/// The contract's state.
pub struct ComplianceState {
    pub owner: String,
    pub identity_registry: Option<String>,
    /// Per-sender transfer limits (`None`: unlimited).
    pub per_addr_limit: AddrMap<Option<u128>>,
    /// The countries both parties must be in, when set and not empty.
    pub allowed_countries: Option<Vec<String>>,
    /// The modules by address.
    pub modules: AddrMap<ModuleInfo>,
    /// The modules' addresses by name.
    pub module_names: AddrMap<String>,
}

pub open spec fn views(v: Seq<String>) -> Seq<Seq<char>> {
    v.map_values(|x: String| x@)
}

pub open spec fn opt_text(o: Option<String>) -> Option<Seq<char>> {
    match o {
        Some(s) => Some(s@),
        None => None,
    }
}

pub open spec fn opt_views(o: Option<Vec<String>>) -> Option<Seq<Seq<char>>> {
    match o {
        Some(v) => Some(views(v@)),
        None => None,
    }
}

/// The contract's state as mathematics.
#[verifier::ext_equal]
pub struct ComplianceModel {
    pub owner: Seq<char>,
    pub identity_registry: Option<Seq<char>>,
    pub limits: Map<Seq<char>, Option<u128>>,
    pub allowed_countries: Option<Seq<Seq<char>>>,
    /// Module address to name.
    pub modules: Map<Seq<char>, Seq<char>>,
    /// Module name to address.
    pub module_names: Map<Seq<char>, Seq<char>>,
}

impl View for ComplianceState {
    type V = ComplianceModel;

    open spec fn view(&self) -> ComplianceModel {
        ComplianceModel {
            owner: self.owner@,
            identity_registry: opt_text(self.identity_registry),
            limits: self.per_addr_limit@,
            allowed_countries: opt_views(self.allowed_countries),
            modules: self.modules@.map_values(|i: ModuleInfo| i.name@),
            module_names: self.module_names@.map_values(|a: String| a@),
        }
    }
}

impl ComplianceModel {
    /// The name index and the modules agree: each module is found under
    /// its name, and each name leads to a module of that name.
    pub open spec fn names_consistent(self) -> bool {
        &&& forall|a: Seq<char>|
            #[trigger] self.modules.contains_key(a) ==> self.module_names.contains_key(self.modules[a])
                && self.module_names[self.modules[a]] == a
        &&& forall|n: Seq<char>|
            #[trigger] self.module_names.contains_key(n) ==> self.modules.contains_key(self.module_names[n])
                && self.modules[self.module_names[n]] == n
    }

    /// The limit set for `a`, if any.
    pub open spec fn limit_of(self, a: Seq<char>) -> Option<u128> {
        if self.limits.contains_key(a) {
            self.limits[a]
        } else {
            None
        }
    }

    /// The refusal of an owner-only call on `a`, if any.
    pub open spec fn owner_error(self, ctx: Ctx, a: AddrInput) -> Option<ComplianceErr> {
        if ctx.sender.text@ != self.owner {
            Some(ComplianceErr::Unauthorized)
        } else if !a.valid() {
            Some(ComplianceErr::Std(a.rejection->0@))
        } else {
            None
        }
    }

    /// The refusal of registering module `m` under `name`, if any.
    pub open spec fn add_module_error(self, ctx: Ctx, m: AddrInput, name: Seq<char>) -> Option<ComplianceErr> {
        if self.owner_error(ctx, m) is Some {
            self.owner_error(ctx, m)
        } else if self.modules.contains_key(m.text@) {
            Some(ComplianceErr::CustomError { msg: "Module already exists"@ })
        } else if self.module_names.contains_key(name) {
            Some(ComplianceErr::CustomError { msg: "Module name already exists"@ })
        } else {
            None
        }
    }
}

/// The address an optional input gives when the chain accepts it; a
/// rejected one counts as none.
pub open spec fn accepted(a: Option<AddrInput>) -> Option<Seq<char>> {
    match a {
        Some(x) => if x.valid() {
            Some(x.text@)
        } else {
            None
        },
        None => None,
    }
}

fn accepted_addr(a: &Option<AddrInput>) -> (r: Option<String>)
    ensures
        opt_text(r) == accepted(*a),
{
    match a {
        Some(x) => match x.check() {
            Ok(s) => Some(s),
            Err(_) => None,
        },
        None => None,
    }
}

pub fn clone_opt(o: &Option<String>) -> (r: Option<String>)
    ensures
        r == *o,
{
    match o {
        Some(s) => Some(s.clone()),
        None => None,
    }
}

pub fn copy_strings(v: &Vec<String>) -> (r: Vec<String>)
    ensures
        views(r@) == views(v@),
{
    let mut out: Vec<String> = Vec::new();
    let mut i: usize = 0;
    while i < v.len()
        invariant
            i <= v@.len(),
            views(out@) == views(v@).take(i as int),
        decreases v@.len() - i,
    {
        let c = v[i].clone();
        let ghost before = out@;
        out.push(c);
        assert(views(out@) =~= views(before).push(c@));
        assert(views(out@) =~= views(v@).take(i + 1));
        i = i + 1;
    }
    assert(views(v@).take(v@.len() as int) =~= views(v@));
    out
}

/// A response with no messages and no events, only these attributes.
pub open spec fn plain(resp: ComplianceResponse, attrs: Seq<(Seq<char>, Seq<char>)>) -> bool {
    &&& resp.messages@.len() == 0
    &&& resp.evts().len() == 0
    &&& resp.attrs() == attrs
}

fn response1(action: &str, k1: &str, v1: String) -> (r: ComplianceResponse)
    ensures
        plain(r, seq![("action"@, action@), (k1@, v1@)]),
{
    let ghost a = v1@;
    let mut r: ComplianceResponse = Response::new();
    r.attr("action", text(action));
    r.attr(k1, v1);
    assert(r.attrs() =~= seq![("action"@, action@), (k1@, a)]);
    r
}

fn response0(action: &str) -> (r: ComplianceResponse)
    ensures
        plain(r, seq![("action"@, action@)]),
{
    let mut r: ComplianceResponse = Response::new();
    r.attr("action", text(action));
    assert(r.attrs() =~= seq![("action"@, action@)]);
    r
}

/// The notification relayed to each module.
pub enum Notice {
    Transferred { from: Seq<char>, to: Seq<char>, amount: u128 },
    Created { to: Seq<char>, amount: u128 },
    Destroyed { from: Seq<char>, amount: u128 },
}

pub open spec fn notice_of(m: ModuleExecuteMsg) -> Notice {
    match m {
        ModuleExecuteMsg::Transferred { from, to, amount } => Notice::Transferred { from: from@, to: to@, amount },
        ModuleExecuteMsg::Created { to, amount } => Notice::Created { to: to@, amount },
        ModuleExecuteMsg::Destroyed { from, amount } => Notice::Destroyed { from: from@, amount },
    }
}

/// The response carries `n` to every module, in address order, and no
/// events.
pub open spec fn notifies(resp: ComplianceResponse, modules: Seq<Seq<char>>, n: Notice) -> bool {
    &&& resp.evts().len() == 0
    &&& resp.messages@.len() == modules.len()
    &&& forall|j: int|
        0 <= j < modules.len() ==> (#[trigger] resp.messages@[j]).module@ == modules[j] && notice_of(
            resp.messages@[j].msg,
        ) == n
}

impl ComplianceState {
    pub open spec fn wf(&self) -> bool {
        &&& self.per_addr_limit.wf()
        &&& self.modules.wf()
        &&& self.module_names.wf()
    }

    /// Sets up the contract; a rejected identity registry address is left
    /// unset, and no countries are restricted.
    pub fn instantiate(ctx: &Ctx, owner: AddrInput, identity_registry: Option<AddrInput>) -> (r: Result<
        (ComplianceState, ComplianceResponse),
        ComplianceError,
    >)
        ensures
            match r {
                Ok((s, resp)) => owner.valid() && s.wf() && s@ == (ComplianceModel {
                    owner: owner.text@,
                    identity_registry: accepted(identity_registry),
                    limits: Map::empty(),
                    allowed_countries: None,
                    modules: Map::empty(),
                    module_names: Map::empty(),
                }) && s@.names_consistent() && plain(
                    resp,
                    seq![("method"@, "instantiate"@), ("owner"@, ctx.sender.text@)],
                ),
                Err(e) => !owner.valid() && e@ == ComplianceErr::Std(owner.rejection->0@),
            },
    {
        let o = match owner.check() {
            Ok(a) => a,
            Err(e) => return Err(ComplianceError::Std(e)),
        };
        let s = ComplianceState {
            owner: o,
            identity_registry: accepted_addr(&identity_registry),
            per_addr_limit: AddrMap::new(),
            allowed_countries: None,
            modules: AddrMap::new(),
            module_names: AddrMap::new(),
        };
        assert(s@.modules =~= Map::empty());
        assert(s@.module_names =~= Map::empty());
        let mut resp: ComplianceResponse = Response::new();
        resp.attr("method", text("instantiate"));
        resp.attr("owner", ctx.sender.text.clone());
        assert(resp.attrs() =~= seq![("method"@, "instantiate"@), ("owner"@, ctx.sender.text@)]);
        Ok((s, resp))
    }

    fn only_owner(&self, ctx: &Ctx) -> (r: Result<(), ComplianceError>)
        ensures
            match r {
                Ok(_) => ctx.sender.text@ == self@.owner,
                Err(e) => ctx.sender.text@ != self@.owner && e@ == ComplianceErr::Unauthorized,
            },
    {
        if ctx.sender.text != self.owner {
            return Err(ComplianceError::Unauthorized);
        }
        Ok(())
    }

    /// Owner only: registers module `module` under a name no other module
    /// has.
    pub fn add_module(&mut self, ctx: &Ctx, module: AddrInput, name: String) -> (r: Result<
        ComplianceResponse,
        ComplianceError,
    >)
        requires
            old(self).wf(),
        ensures
            final(self).wf(),
            old(self)@.names_consistent() ==> final(self)@.names_consistent(),
            match r {
                Ok(resp) => old(self)@.add_module_error(*ctx, module, name@) is None && final(self)@ == (
                ComplianceModel {
                    modules: old(self)@.modules.insert(module.text@, name@),
                    module_names: old(self)@.module_names.insert(name@, module.text@),
                    ..old(self)@
                }) && plain(
                    resp,
                    seq![("action"@, "add_module"@), ("module"@, module.text@), ("name"@, name@)],
                ),
                Err(e) => final(self)@ == old(self)@ && old(self)@.add_module_error(*ctx, module, name@) == Some(e@),
            },
    {
        self.only_owner(ctx)?;
        let a = match module.check() {
            Ok(a) => a,
            Err(e) => return Err(ComplianceError::Std(e)),
        };
        if self.modules.contains(&a) {
            return Err(ComplianceError::CustomError { msg: text("Module already exists") });
        }
        if self.module_names.contains(&name) {
            return Err(ComplianceError::CustomError { msg: text("Module name already exists") });
        }
        let ghost m0 = self@;
        self.modules.insert(a.clone(), ModuleInfo { name: name.clone() });
        self.module_names.insert(name.clone(), a);
        assert(self@.modules =~= m0.modules.insert(module.text@, name@));
        assert(self@.module_names =~= m0.module_names.insert(name@, module.text@));
        let ghost nv = name@;
        let mut resp: ComplianceResponse = Response::new();
        resp.attr("action", text("add_module"));
        resp.attr("module", module.text);
        resp.attr("name", name);
        assert(resp.attrs() =~= seq![("action"@, "add_module"@), ("module"@, module.text@), ("name"@, nv)]);
        Ok(resp)
    }

    /// Owner only: unregisters module `module` and frees its name (a no-op
    /// for an address that is not a module).
    pub fn remove_module(&mut self, ctx: &Ctx, module: AddrInput) -> (r: Result<ComplianceResponse, ComplianceError>)
        requires
            old(self).wf(),
        ensures
            final(self).wf(),
            old(self)@.names_consistent() ==> final(self)@.names_consistent(),
            match r {
                Ok(resp) => old(self)@.owner_error(*ctx, module) is None && final(self)@ == (ComplianceModel {
                    modules: old(self)@.modules.remove(module.text@),
                    module_names: if old(self)@.modules.contains_key(module.text@) {
                        old(self)@.module_names.remove(old(self)@.modules[module.text@])
                    } else {
                        old(self)@.module_names
                    },
                    ..old(self)@
                }) && plain(resp, seq![("action"@, "remove_module"@), ("module"@, module.text@)]),
                Err(e) => final(self)@ == old(self)@ && old(self)@.owner_error(*ctx, module) == Some(e@),
            },
    {
        self.only_owner(ctx)?;
        let a = match module.check() {
            Ok(a) => a,
            Err(e) => return Err(ComplianceError::Std(e)),
        };
        let ghost m0 = self@;
        let name = match self.modules.get(&a) {
            Some(info) => Some(info.name.clone()),
            None => None,
        };
        match name {
            Some(n) => {
                self.module_names.remove(&n);
                assert(self@.module_names =~= m0.module_names.remove(m0.modules[module.text@]));
            },
            None => {},
        }
        self.modules.remove(&a);
        assert(self@.modules =~= m0.modules.remove(module.text@));
        Ok(response1("remove_module", "module", module.text))
    }

    /// Owner only: sets (or, with `None`, lifts) the transfer limit of
    /// `address`.
    pub fn set_per_address_limit(&mut self, ctx: &Ctx, address: AddrInput, limit: Option<u128>) -> (r: Result<
        ComplianceResponse,
        ComplianceError,
    >)
        requires
            old(self).wf(),
        ensures
            final(self).wf(),
            match r {
                Ok(resp) => old(self)@.owner_error(*ctx, address) is None && final(self)@ == (ComplianceModel {
                    limits: old(self)@.limits.insert(address.text@, limit),
                    ..old(self)@
                }) && plain(resp, seq![("action"@, "set_per_address_limit"@), ("address"@, address.text@)]),
                Err(e) => final(self)@ == old(self)@ && old(self)@.owner_error(*ctx, address) == Some(e@),
            },
    {
        self.only_owner(ctx)?;
        let a = match address.check() {
            Ok(a) => a,
            Err(e) => return Err(ComplianceError::Std(e)),
        };
        self.per_addr_limit.insert(a, limit);
        Ok(response1("set_per_address_limit", "address", address.text))
    }

    /// Owner only: sets the country whitelist (`None`: no restriction).
    pub fn set_allowed_countries(&mut self, ctx: &Ctx, countries: Option<Vec<String>>) -> (r: Result<
        ComplianceResponse,
        ComplianceError,
    >)
        requires
            old(self).wf(),
        ensures
            final(self).wf(),
            match r {
                Ok(resp) => ctx.sender.text@ == old(self)@.owner && final(self)@ == (ComplianceModel {
                    allowed_countries: opt_views(countries),
                    ..old(self)@
                }) && plain(resp, seq![("action"@, "set_allowed_countries"@)]),
                Err(e) => final(self)@ == old(self)@ && ctx.sender.text@ != old(self)@.owner && e@
                    == ComplianceErr::Unauthorized,
            },
    {
        self.only_owner(ctx)?;
        self.allowed_countries = countries;
        Ok(response0("set_allowed_countries"))
    }

    /// Owner only: links the identity registry (unlinks it when the address
    /// is absent or rejected).
    pub fn set_identity_registry(&mut self, ctx: &Ctx, addr: Option<AddrInput>) -> (r: Result<
        ComplianceResponse,
        ComplianceError,
    >)
        requires
            old(self).wf(),
        ensures
            final(self).wf(),
            match r {
                Ok(resp) => ctx.sender.text@ == old(self)@.owner && final(self)@ == (ComplianceModel {
                    identity_registry: accepted(addr),
                    ..old(self)@
                }) && plain(resp, seq![("action"@, "set_identity_registry"@)]),
                Err(e) => final(self)@ == old(self)@ && ctx.sender.text@ != old(self)@.owner && e@
                    == ComplianceErr::Unauthorized,
            },
    {
        self.only_owner(ctx)?;
        self.identity_registry = accepted_addr(&addr);
        Ok(response0("set_identity_registry"))
    }

    /// Owner only: hands ownership to `owner`.
    pub fn update_owner(&mut self, ctx: &Ctx, owner: AddrInput) -> (r: Result<ComplianceResponse, ComplianceError>)
        requires
            old(self).wf(),
        ensures
            final(self).wf(),
            match r {
                Ok(resp) => old(self)@.owner_error(*ctx, owner) is None && final(self)@ == (ComplianceModel {
                    owner: owner.text@,
                    ..old(self)@
                }) && plain(resp, seq![("action"@, "update_owner"@), ("owner"@, owner.text@)]),
                Err(e) => final(self)@ == old(self)@ && old(self)@.owner_error(*ctx, owner) == Some(e@),
            },
    {
        self.only_owner(ctx)?;
        let o = match owner.check() {
            Ok(a) => a,
            Err(e) => return Err(ComplianceError::Std(e)),
        };
        self.owner = o;
        Ok(response1("update_owner", "owner", owner.text))
    }

    /// Appends to `resp` one call per module, in address order, built by
    /// `make` from the module's position.
    fn notify_all(&self, resp: &mut ComplianceResponse, n: &ModuleExecuteMsg)
        requires
            self.wf(),
            old(resp).messages@.len() == 0,
            old(resp).evts().len() == 0,
        ensures
            final(resp).attrs() == old(resp).attrs(),
            notifies(*final(resp), self.modules.keys(), notice_of(*n)),
    {
        let ghost ks = self.modules.keys();
        let mut i: usize = 0;
        while i < self.modules.len()
            invariant
                self.wf(),
                ks == self.modules.keys(),
                i <= ks.len(),
                resp.attrs() == old(resp).attrs(),
                resp.evts().len() == 0,
                resp.messages@.len() == i,
                forall|j: int|
                    0 <= j < i ==> (#[trigger] resp.messages@[j]).module@ == ks[j] && notice_of(
                        resp.messages@[j].msg,
                    ) == notice_of(*n),
            decreases ks.len() - i,
        {
            let (a, _) = self.modules.entry(i);
            let m = match n {
                ModuleExecuteMsg::Transferred { from, to, amount } => ModuleExecuteMsg::Transferred {
                    from: from.clone(),
                    to: to.clone(),
                    amount: *amount,
                },
                ModuleExecuteMsg::Created { to, amount } => ModuleExecuteMsg::Created {
                    to: to.clone(),
                    amount: *amount,
                },
                ModuleExecuteMsg::Destroyed { from, amount } => ModuleExecuteMsg::Destroyed {
                    from: from.clone(),
                    amount: *amount,
                },
            };
            resp.msg(ModuleCall { module: a.clone(), msg: m });
            i = i + 1;
        }
    }

    /// Relays a transfer to every module (anyone may call).
    pub fn transferred(&self, from: String, to: String, amount: u128) -> (resp: ComplianceResponse)
        requires
            self.wf(),
        ensures
            resp.attrs() == seq![
                ("action"@, "transferred"@),
                ("from"@, from@),
                ("to"@, to@),
                ("amount"@, decimal(amount as nat)),
            ],
            notifies(resp, self.modules.keys(), Notice::Transferred { from: from@, to: to@, amount }),
    {
        let mut resp: ComplianceResponse = Response::new();
        resp.attr("action", text("transferred"));
        resp.attr("from", from.clone());
        resp.attr("to", to.clone());
        resp.attr("amount", decimal_string(amount));
        let n = ModuleExecuteMsg::Transferred { from, to, amount };
        self.notify_all(&mut resp, &n);
        resp
    }

    /// Relays a mint to every module (anyone may call).
    pub fn created(&self, to: String, amount: u128) -> (resp: ComplianceResponse)
        requires
            self.wf(),
        ensures
            resp.attrs() == seq![("action"@, "created"@), ("to"@, to@), ("amount"@, decimal(amount as nat))],
            notifies(resp, self.modules.keys(), Notice::Created { to: to@, amount }),
    {
        let mut resp: ComplianceResponse = Response::new();
        resp.attr("action", text("created"));
        resp.attr("to", to.clone());
        resp.attr("amount", decimal_string(amount));
        let n = ModuleExecuteMsg::Created { to, amount };
        self.notify_all(&mut resp, &n);
        resp
    }

    /// Relays a burn to every module (anyone may call).
    pub fn destroyed(&self, from: String, amount: u128) -> (resp: ComplianceResponse)
        requires
            self.wf(),
        ensures
            resp.attrs() == seq![("action"@, "destroyed"@), ("from"@, from@), ("amount"@, decimal(amount as nat))],
            notifies(resp, self.modules.keys(), Notice::Destroyed { from: from@, amount }),
    {
        let mut resp: ComplianceResponse = Response::new();
        resp.attr("action", text("destroyed"));
        resp.attr("from", from.clone());
        resp.attr("amount", decimal_string(amount));
        let n = ModuleExecuteMsg::Destroyed { from, amount };
        self.notify_all(&mut resp, &n);
        resp
    }

    /// The owner, linked registry, whitelist and number of modules.
    pub fn config(&self) -> (r: ConfigResponse)
        requires
            self.wf(),
        ensures
            r.owner@ == self@.owner,
            opt_text(r.identity_registry) == self@.identity_registry,
            opt_views(r.allowed_countries) == self@.allowed_countries,
            r.module_count == self.modules.pairs().len() as u32,
    {
        let countries = match &self.allowed_countries {
            Some(v) => Some(copy_strings(v)),
            None => None,
        };
        ConfigResponse {
            owner: self.owner.clone(),
            identity_registry: clone_opt(&self.identity_registry),
            allowed_countries: countries,
            module_count: self.modules.len() as u32,
        }
    }

    /// The modules, in address order.
    pub fn module_list(&self) -> (r: ModulesResponse)
        requires
            self.wf(),
        ensures
            r.modules@.len() == self.modules.pairs().len(),
            forall|j: int|
                0 <= j < r.modules@.len() ==> (#[trigger] r.modules@[j]).address@ == self.modules.pairs()[j].0
                    && r.modules@[j].name@ == self.modules.pairs()[j].1.name@,
    {
        let mut out: Vec<crate::compliance::msg::ModuleInfo> = Vec::new();
        let mut k: usize = 0;
        while k < self.modules.len()
            invariant
                k <= self.modules.pairs().len(),
                out@.len() == k,
                forall|j: int|
                    0 <= j < k ==> (#[trigger] out@[j]).address@ == self.modules.pairs()[j].0 && out@[j].name@
                        == self.modules.pairs()[j].1.name@,
            decreases self.modules.pairs().len() - k,
        {
            let (a, info) = self.modules.entry(k);
            out.push(crate::compliance::msg::ModuleInfo { address: a.clone(), name: info.name.clone() });
            k = k + 1;
        }
        ModulesResponse { modules: out }
    }

    /// The module at `module`, if registered, echoing the address as given.
    pub fn module_info(&self, module: &AddrInput) -> (r: Result<ModuleInfoResponse, StdFailure>)
        requires
            self.wf(),
        ensures
            match r {
                Ok(v) => module.valid() && match v.info {
                    Some(i) => self@.modules.contains_key(module.text@) && i.address@ == module.text@ && i.name@
                        == self@.modules[module.text@],
                    None => !self@.modules.contains_key(module.text@),
                },
                Err(e) => !module.valid() && module.rejection == Some(e),
            },
    {
        let a = module.check()?;
        match self.modules.get(&a) {
            Some(info) => Ok(
                ModuleInfoResponse {
                    info: Some(
                        crate::compliance::msg::ModuleInfo { address: module.text.clone(), name: info.name.clone() },
                    ),
                },
            ),
            None => Ok(ModuleInfoResponse { info: None }),
        }
    }
}


/// Registering a module under a free name and then unregistering it leaves
/// the modules and their names as they were.
pub proof fn lemma_add_then_remove_module(m: ComplianceModel, a: Seq<char>, name: Seq<char>)
    requires
        !m.modules.contains_key(a),
        !m.module_names.contains_key(name),
    ensures
        ({
            let added = ComplianceModel {
                modules: m.modules.insert(a, name),
                module_names: m.module_names.insert(name, a),
                ..m
            };
            &&& added.modules.remove(a) == m.modules
            &&& added.module_names.remove(added.modules[a]) == m.module_names
        }),
{
    assert(m.modules.insert(a, name).remove(a) =~= m.modules);
    assert(m.module_names.insert(name, a).remove(name) =~= m.module_names);
}
} // verus!
