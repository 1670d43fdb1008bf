//! Multi-signature governance with a time lock: members file proposals,
//! approve them, and once enough approvals are in and the lock has run out
//! anyone executes them. The actions understood are pausing and unpausing.
use vstd::prelude::*;
use crate::common::{AddrInput, StdFailure, StdFailureView, Response, text, decimal, decimal_string};
use crate::key_order::key_bytes;
use crate::token::types::{ContractError, TokenErr, Ctx, TokenResponse, GovConfig, GovProposal};
use crate::token::state::{TokenState, TokenModel, first_rejection, names_view};
use crate::id_map::IdMap;
use crate::token::auth::{plain, owner_error, action_response_with};
use crate::token::admin::{insert_all, check_all, set_all};

verus! {

pub open spec fn ascii_lower(b: u8) -> u8 {
    if 65 <= b <= 90 {
        (b + 32) as u8
    } else {
        b
    }
}

/// Equal bytes once ASCII capitals are lowered.
pub open spec fn same_ignoring_ascii_case(a: Seq<u8>, b: Seq<u8>) -> bool {
    a.len() == b.len() && forall|i: int| 0 <= i < a.len() ==> ascii_lower(#[trigger] a[i]) == ascii_lower(b[i])
}

/// Whether `action` names `word`, ignoring ASCII case.
pub open spec fn names(action: Seq<char>, word: Seq<char>) -> bool {
    same_ignoring_ascii_case(key_bytes(action), key_bytes(word))
}

/// Whether two strings are equal ignoring ASCII case.
pub fn eq_ignore_ascii_case(a: &str, b: &str) -> (r: bool)
    ensures
        r == same_ignoring_ascii_case(key_bytes(a@), key_bytes(b@)),
{
    let x: &[u8] = a.as_bytes();
    let y: &[u8] = b.as_bytes();
    if x.len() != y.len() {
        return false;
    }
    let mut i: usize = 0;
    while i < x.len()
        invariant
            x@ == key_bytes(a@),
            y@ == key_bytes(b@),
            x@.len() == y@.len(),
            i <= x@.len(),
            forall|j: int| 0 <= j < i ==> ascii_lower(#[trigger] x@[j]) == ascii_lower(y@[j]),
        decreases x@.len() - i,
    {
        let p = x[i];
        let q = y[i];
        let lp: u8 = if 65 <= p && p <= 90 { p + 32 } else { p };
        let lq: u8 = if 65 <= q && q <= 90 { q + 32 } else { q };
        if lp != lq {
            return false;
        }
        i = i + 1;
    }
    true
}

pub open spec fn gov_config_error(m: TokenModel, ctx: Ctx, members: Seq<AddrInput>, threshold: u32) -> Option<
    TokenErr,
> {
    if ctx.sender.text@ != m.owner {
        Some(TokenErr::Unauthorized)
    } else if threshold == 0 {
        Some(TokenErr::NotCompliant("threshold=0"@))
    } else if members.len() == 0 {
        Some(TokenErr::NotCompliant("no members"@))
    } else if threshold > (members.len() as u32) {
        Some(TokenErr::NotCompliant("threshold>members"@))
    } else if first_rejection(members) is Some {
        Some(TokenErr::Std(first_rejection(members)->0@))
    } else {
        None
    }
}

pub open spec fn is_member(m: TokenModel, a: Seq<char>) -> bool {
    TokenModel::flag(m.gov_members, a)
}

pub open spec fn submit_error(m: TokenModel, ctx: Ctx) -> Option<TokenErr> {
    if !ctx.sender.valid() {
        Some(TokenErr::Std(ctx.sender.rejection->0@))
    } else if !is_member(m, ctx.sender.text@) {
        Some(TokenErr::Unauthorized)
    } else if m.gov_config is None {
        Some(TokenErr::Std(StdFailureView::NotFound("gov_config"@)))
    } else {
        None
    }
}

pub open spec fn gov_approve_error(m: TokenModel, ctx: Ctx, id: u64) -> Option<TokenErr> {
    if !ctx.sender.valid() {
        Some(TokenErr::Std(ctx.sender.rejection->0@))
    } else if !is_member(m, ctx.sender.text@) {
        Some(TokenErr::Unauthorized)
    } else if !m.gov_proposals.contains_key(id) {
        Some(TokenErr::Std(StdFailureView::NotFound("gov_proposal"@)))
    } else if m.gov_proposals[id].executed {
        Some(TokenErr::Std(StdFailureView::Generic("already executed"@)))
    } else if approvers_of(m, id).contains(ctx.sender.text@) {
        Some(TokenErr::AlreadyApproved)
    } else {
        None
    }
}

/// The members that approved proposal `id`.
pub open spec fn approvers_of(m: TokenModel, id: u64) -> Seq<Seq<char>> {
    if m.gov_approvers.contains_key(id) {
        m.gov_approvers[id]
    } else {
        seq![]
    }
}

/// Each proposal's approval count is the number of distinct members that
/// approved it, approvals are only recorded for proposals that exist, and
/// every proposal id has been handed out.
pub open spec fn gov_consistent(m: TokenModel) -> bool {
    &&& forall|id: u64| #[trigger]
        m.gov_proposals.contains_key(id) ==> id <= m.gov_proposal_seq && m.gov_proposals[id].approvals
            == approvers_of(m, id).len() && approvers_of(m, id).no_duplicates()
    &&& forall|id: u64| #[trigger] m.gov_approvers.contains_key(id) ==> m.gov_proposals.contains_key(id)
}

/// Whether `a` is among `v`.
fn holds_name(v: &Vec<String>, a: &String) -> (r: bool)
    ensures
        r == names_view(v@).contains(a@),
{
    let mut i: usize = 0;
    while i < v.len()
        invariant
            i <= v@.len(),
            forall|j: int| 0 <= j < i ==> #[trigger] v@[j]@ != a@,
        decreases v@.len() - i,
    {
        if v[i] == *a {
            assert(names_view(v@)[i as int] == a@);
            return true;
        }
        i = i + 1;
    }
    proof {
        if names_view(v@).contains(a@) {
            let k = choose|k: int| 0 <= k < names_view(v@).len() && names_view(v@)[k] == a@;
            assert(v@[k]@ == a@);
        }
    }
    false
}

/// An owned copy of a list of strings.
fn copy_names(v: &Vec<String>) -> (r: Vec<String>)
    ensures
        names_view(r@) == names_view(v@),
{
    let mut out: Vec<String> = Vec::new();
    let mut i: usize = 0;
    while i < v.len()
        invariant
            i <= v@.len(),
            names_view(out@) == names_view(v@).take(i as int),
        decreases v@.len() - i,
    {
        let c = v[i].clone();
        let ghost before = out@;
        out.push(c);
        assert(names_view(out@) =~= names_view(before).push(c@));
        assert(names_view(out@) =~= names_view(v@).take(i + 1));
        i = i + 1;
    }
    assert(names_view(v@).take(v@.len() as int) =~= names_view(v@));
    out
}

/// The members that approved proposal `id`, as stored.
fn stored_approvers(m: &IdMap<Vec<String>>, id: u64) -> (r: Vec<String>)
    requires
        m.wf(),
    ensures
        names_view(r@) == (if m@.contains_key(id) {
            names_view(m@[id]@)
        } else {
            seq![]
        }),
{
    match m.get(id) {
        Some(v) => copy_names(v),
        None => {
            let e: Vec<String> = Vec::new();
            assert(names_view(e@) =~= seq![]);
            e
        },
    }
}

pub open spec fn gov_execute_error(m: TokenModel, ctx: Ctx, id: u64) -> Option<TokenErr> {
    let p = m.gov_proposals[id];
    if m.gov_config is None {
        Some(TokenErr::Std(StdFailureView::NotFound("gov_config"@)))
    } else if !m.gov_proposals.contains_key(id) {
        Some(TokenErr::Std(StdFailureView::NotFound("gov_proposal"@)))
    } else if p.executed {
        Some(TokenErr::InvalidRequest)
    } else if p.approvals < m.gov_config->0.threshold {
        Some(TokenErr::InvalidRequest)
    } else if ctx.time < p.timelock_end {
        Some(TokenErr::InvalidRequest)
    } else {
        None
    }
}

/// The pause flag after a proposal's action.
pub open spec fn paused_after(paused: bool, action: Seq<char>) -> bool {
    if names(action, "pause"@) {
        true
    } else if names(action, "unpause"@) {
        false
    } else {
        paused
    }
}

/// The attributes describing a proposal's action.
pub open spec fn action_attrs(action: Seq<char>) -> Seq<(Seq<char>, Seq<char>)> {
    if names(action, "pause"@) {
        seq![("gov_action"@, "pause"@)]
    } else if names(action, "unpause"@) {
        seq![("gov_action"@, "unpause"@)]
    } else {
        seq![("gov_action"@, "noop"@), ("raw"@, action)]
    }
}

impl GovProposal {
    pub fn duplicate(&self) -> (r: GovProposal)
        ensures
            r == *self,
    {
        GovProposal {
            id: self.id,
            action: self.action.clone(),
            proposer: self.proposer.clone(),
            approvals: self.approvals,
            executed: self.executed,
            creation_time: self.creation_time,
            timelock_end: self.timelock_end,
        }
    }
}

impl TokenState {
    /// Owner only: sets the threshold and time lock and enrols `members`
    /// (earlier members stay enrolled).
    pub fn set_governance_config(
        &mut self,
        ctx: &Ctx,
        members: Vec<AddrInput>,
        threshold: u32,
        timelock_seconds: u64,
    ) -> (r: Result<TokenResponse, ContractError>)
        requires
            old(self).wf(),
        ensures
            final(self).wf(),
            old(self).supply_consistent() ==> final(self).supply_consistent(),
            gov_consistent(old(self)@) ==> gov_consistent(final(self)@),
            match r {
                Ok(resp) => gov_config_error(old(self)@, *ctx, members@, threshold) is None && final(self)@ == (TokenModel {
                    gov_members: insert_all(old(self)@.gov_members, members@, true),
                    gov_config: Some(GovConfig { threshold, timelock_seconds }),
                    ..old(self)@
                }) && plain(
                    resp,
                    seq![
                        ("action"@, "set_governance_config"@),
                        ("members"@, decimal(members@.len())),
                        ("threshold"@, decimal(threshold as nat)),
                        ("timelock_seconds"@, decimal(timelock_seconds as nat)),
                    ],
                ),
                Err(e) => gov_config_error(old(self)@, *ctx, members@, threshold) == Some(e@) && final(self)@ == old(self)@,
            },
    {
        self.only_owner(ctx)?;
        if threshold == 0 {
            return Err(ContractError::NotCompliant(text("threshold=0")));
        }
        if members.len() == 0 {
            return Err(ContractError::NotCompliant(text("no members")));
        }
        if threshold > members.len() as u32 {
            return Err(ContractError::NotCompliant(text("threshold>members")));
        }
        match check_all(&members) {
            Ok(_) => {},
            Err(e) => return Err(ContractError::Std(e)),
        }
        set_all(&mut self.gov_members, &members, true);
        self.gov_config = Some(GovConfig { threshold, timelock_seconds });
        let mut resp: TokenResponse = Response::new();
        resp.attr("action", text("set_governance_config"));
        resp.attr("members", decimal_string(members.len() as u128));
        resp.attr("threshold", decimal_string(threshold as u128));
        resp.attr("timelock_seconds", decimal_string(timelock_seconds as u128));
        assert(resp.attrs() =~= seq![
            ("action"@, "set_governance_config"@),
            ("members"@, decimal(members@.len())),
            ("threshold"@, decimal(threshold as nat)),
            ("timelock_seconds"@, decimal(timelock_seconds as nat)),
        ]);
        Ok(resp)
    }

    /// Member only: files a proposal; it can execute once the time lock,
    /// counted from now, has run out.
    pub fn submit_gov_proposal(&mut self, ctx: &Ctx, action: String) -> (r: Result<
        TokenResponse,
        ContractError,
    >)
        requires
            old(self).wf(),
            submit_error(old(self)@, *ctx) is None ==> old(self).gov_proposal_seq < u64::MAX,
            submit_error(old(self)@, *ctx) is None ==> (old(self).gov_config matches Some(c) && ctx.time
                + c.timelock_seconds <= u64::MAX),
        ensures
            final(self).wf(),
            old(self).supply_consistent() ==> final(self).supply_consistent(),
            gov_consistent(old(self)@) ==> gov_consistent(final(self)@),
            match r {
                Ok(resp) => {
                    let id = (old(self)@.gov_proposal_seq + 1) as u64;
                    let end = (ctx.time + old(self)@.gov_config->0.timelock_seconds) as u64;
                    &&& submit_error(old(self)@, *ctx) is None
                    &&& final(self)@ == (TokenModel {
                        gov_proposal_seq: id,
                        gov_proposals: old(self)@.gov_proposals.insert(
                            id,
                            GovProposal {
                                id,
                                action,
                                proposer: ctx.sender.text,
                                approvals: 0,
                                executed: false,
                                creation_time: ctx.time,
                                timelock_end: end,
                            },
                        ),
                        ..old(self)@
                    })
                    &&& plain(
                        resp,
                        seq![
                            ("action"@, "submit_gov_proposal"@),
                            ("proposal_id"@, decimal(id as nat)),
                            ("timelock_end"@, decimal(end as nat)),
                        ],
                    )
                },
                Err(e) => submit_error(old(self)@, *ctx) == Some(e@) && final(self)@ == old(self)@,
            },
    {
        let sender = match ctx.sender.check() {
            Ok(a) => a,
            Err(e) => return Err(ContractError::Std(e)),
        };
        if !crate::token::auth::flag(&self.gov_members, &sender) {
            return Err(ContractError::Unauthorized);
        }
        let cfg = match self.gov_config {
            Some(c) => c,
            None => return Err(ContractError::Std(StdFailure::NotFound(text("gov_config")))),
        };
        let seq = self.gov_proposal_seq + 1;
        self.gov_proposal_seq = seq;
        let end = ctx.time + cfg.timelock_seconds;
        self.gov_proposals.insert(
            seq,
            GovProposal {
                id: seq,
                action,
                proposer: sender,
                approvals: 0,
                executed: false,
                creation_time: ctx.time,
                timelock_end: end,
            },
        );
        let mut resp: TokenResponse = Response::new();
        resp.attr("action", text("submit_gov_proposal"));
        resp.attr("proposal_id", decimal_string(seq as u128));
        resp.attr("timelock_end", decimal_string(end as u128));
        assert(resp.attrs() =~= seq![
            ("action"@, "submit_gov_proposal"@),
            ("proposal_id"@, decimal(seq as nat)),
            ("timelock_end"@, decimal(end as nat)),
        ]);
        Ok(resp)
    }

    /// Member only: adds the caller's approval to a proposal not yet
    /// executed; a member that already approved it is refused, so the count
    /// is of distinct members.
    pub fn approve_gov_proposal(&mut self, ctx: &Ctx, proposal_id: u64) -> (r: Result<
        TokenResponse,
        ContractError,
    >)
        requires
            old(self).wf(),
            gov_approve_error(old(self)@, *ctx, proposal_id) is None ==> old(self)@.gov_proposals[proposal_id].approvals
                < u32::MAX,
        ensures
            final(self).wf(),
            old(self).supply_consistent() ==> final(self).supply_consistent(),
            gov_consistent(old(self)@) ==> gov_consistent(final(self)@),
            match r {
                Ok(resp) => {
                    let p = old(self)@.gov_proposals[proposal_id];
                    &&& gov_approve_error(old(self)@, *ctx, proposal_id) is None
                    &&& final(self)@ == (TokenModel {
                        gov_proposals: old(self)@.gov_proposals.insert(
                            proposal_id,
                            GovProposal { approvals: (p.approvals + 1) as u32, ..p },
                        ),
                        gov_approvers: old(self)@.gov_approvers.insert(
                            proposal_id,
                            approvers_of(old(self)@, proposal_id).push(ctx.sender.text@),
                        ),
                        ..old(self)@
                    })
                    &&& plain(
                        resp,
                        seq![
                            ("action"@, "approve_gov_proposal"@),
                            ("proposal_id"@, decimal(proposal_id as nat)),
                        ],
                    )
                },
                Err(e) => gov_approve_error(old(self)@, *ctx, proposal_id) == Some(e@) && final(self)@
                    == old(self)@,
            },
    {
        let sender = match ctx.sender.check() {
            Ok(a) => a,
            Err(e) => return Err(ContractError::Std(e)),
        };
        if !crate::token::auth::flag(&self.gov_members, &sender) {
            return Err(ContractError::Unauthorized);
        }
        let p = match self.gov_proposals.get(proposal_id) {
            Some(p) => p.duplicate(),
            None => return Err(ContractError::Std(StdFailure::NotFound(text("gov_proposal")))),
        };
        if p.executed {
            return Err(ContractError::Std(StdFailure::Generic(text("already executed"))));
        }
        let mut voters = stored_approvers(&self.gov_approvers, proposal_id);
        if holds_name(&voters, &sender) {
            return Err(ContractError::AlreadyApproved);
        }
        let ghost m0 = self@;
        let ghost before = names_view(voters@);
        let approvals = p.approvals + 1;
        self.gov_proposals.insert(proposal_id, GovProposal { approvals, ..p });
        voters.push(sender);
        assert(names_view(voters@) =~= before.push(ctx.sender.text@));
        self.gov_approvers.insert(proposal_id, voters);
        assert(self@.gov_approvers =~= m0.gov_approvers.insert(proposal_id, before.push(ctx.sender.text@)));
        proof {
            let m1 = self@;
            if gov_consistent(m0) {
                assert forall|id: u64| #[trigger] m1.gov_proposals.contains_key(id) implies id <= m1.gov_proposal_seq
                    && m1.gov_proposals[id].approvals == approvers_of(m1, id).len() && approvers_of(
                    m1,
                    id,
                ).no_duplicates() by {
                    if id == proposal_id {
                        assert(m0.gov_proposals.contains_key(id));
                        assert(approvers_of(m1, id) == before.push(ctx.sender.text@));
                        assert(!before.contains(ctx.sender.text@));
                        assert forall|a: int, b: int| 0 <= a < b < approvers_of(m1, id).len() implies approvers_of(
                            m1,
                            id,
                        )[a] != approvers_of(m1, id)[b] by {
                            if b == before.len() {
                                assert(before[a] == approvers_of(m1, id)[a]);
                            }
                        }
                    } else {
                        assert(m0.gov_proposals.contains_key(id));
                        assert(approvers_of(m1, id) == approvers_of(m0, id));
                    }
                }
                assert forall|id: u64| #[trigger] m1.gov_approvers.contains_key(id) implies m1.gov_proposals.contains_key(
                    id,
                ) by {
                    if id != proposal_id {
                        assert(m0.gov_approvers.contains_key(id));
                    }
                }
            }
        }
        Ok(action_response_with("approve_gov_proposal", "proposal_id", decimal_string(proposal_id as u128)))
    }

    /// Anyone: executes a proposal that is not yet executed, has at least
    /// the threshold of approvals and whose time lock has run out; "pause"
    /// and "unpause" (in any ASCII case) set the pause flag, any other action
    /// does nothing. The proposal is then marked executed.
    pub fn execute_gov_proposal(&mut self, ctx: &Ctx, proposal_id: u64) -> (r: Result<
        TokenResponse,
        ContractError,
    >)
        requires
            old(self).wf(),
        ensures
            final(self).wf(),
            old(self).supply_consistent() ==> final(self).supply_consistent(),
            gov_consistent(old(self)@) ==> gov_consistent(final(self)@),
            match r {
                Ok(resp) => {
                    let p = old(self)@.gov_proposals[proposal_id];
                    &&& gov_execute_error(old(self)@, *ctx, proposal_id) is None
                    &&& final(self)@ == (TokenModel {
                        paused: paused_after(old(self)@.paused, p.action@),
                        gov_proposals: old(self)@.gov_proposals.insert(
                            proposal_id,
                            GovProposal { executed: true, ..p },
                        ),
                        ..old(self)@
                    })
                    &&& plain(
                        resp,
                        action_attrs(p.action@) + seq![
                            ("action"@, "execute_gov_proposal"@),
                            ("proposal_id"@, decimal(proposal_id as nat)),
                        ],
                    )
                },
                Err(e) => gov_execute_error(old(self)@, *ctx, proposal_id) == Some(e@) && final(self)@
                    == old(self)@,
            },
    {
        let cfg = match self.gov_config {
            Some(c) => c,
            None => return Err(ContractError::Std(StdFailure::NotFound(text("gov_config")))),
        };
        let p = match self.gov_proposals.get(proposal_id) {
            Some(p) => p.duplicate(),
            None => return Err(ContractError::Std(StdFailure::NotFound(text("gov_proposal")))),
        };
        if p.executed {
            return Err(ContractError::InvalidRequest);
        }
        if p.approvals < cfg.threshold {
            return Err(ContractError::InvalidRequest);
        }
        if ctx.time < p.timelock_end {
            return Err(ContractError::InvalidRequest);
        }
        let mut resp: TokenResponse = Response::new();
        if eq_ignore_ascii_case(p.action.as_str(), "pause") {
            self.paused = true;
            resp.attr("gov_action", text("pause"));
        } else if eq_ignore_ascii_case(p.action.as_str(), "unpause") {
            self.paused = false;
            resp.attr("gov_action", text("unpause"));
        } else {
            resp.attr("gov_action", text("noop"));
            resp.attr("raw", p.action.clone());
        }
        let ghost a0 = resp.attrs();
        assert(a0 =~= action_attrs(p.action@));
        self.gov_proposals.insert(proposal_id, GovProposal { executed: true, ..p });
        resp.attr("action", text("execute_gov_proposal"));
        resp.attr("proposal_id", decimal_string(proposal_id as u128));
        assert(resp.attrs() =~= a0 + seq![
            ("action"@, "execute_gov_proposal"@),
            ("proposal_id"@, decimal(proposal_id as nat)),
        ]);
        Ok(resp)
    }
}

} // verus!
