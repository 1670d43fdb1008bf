//! An on-chain identity: claims about its holder, each filed by the issuer
//! that vouches for it, under a topic; a claim counts until it expires or is
//! revoked.
use vstd::prelude::*;
use crate::common::{AddrInput, StdFailure, StdFailureView, Response, Ctx, text, decimal, decimal_string};
use crate::id_map::{IdMap, lemma_ids_map_at};

verus! {

/// A claim, under the id it was filed as.
#[derive(Debug)]
pub struct ClaimRecord {
    pub id: u64,
    pub topic: u32,
    pub issuer: String,
    pub data: Option<String>,
    pub issued_at: u64,
    pub expires_at: Option<u64>,
    pub revoked: bool,
}

/// Errors of the identity contract.
#[derive(Debug)]
pub enum ClaimError {
    Std(StdFailure),
    Unauthorized,
}

pub enum ClaimErr {
    Std(StdFailureView),
    Unauthorized,
}

impl View for ClaimError {
    type V = ClaimErr;

    open spec fn view(&self) -> ClaimErr {
        match self {
            ClaimError::Std(e) => ClaimErr::Std(e@),
            ClaimError::Unauthorized => ClaimErr::Unauthorized,
        }
    }
}

/// The identity contract sends no messages.
pub type ClaimResponseBody = Response<()>;

#[derive(Debug, PartialEq)]
pub struct ClaimResponse {
    pub id: u64,
    pub topic: u32,
    pub issuer: String,
    pub data: Option<String>,
    pub issued_at: u64,
    pub expires_at: Option<u64>,
    pub revoked: bool,
}

#[derive(Debug, PartialEq)]
pub struct HasValidClaimResponse {
    pub valid: bool,
}

/// The (empty) migration message.
#[derive(Debug, PartialEq)]
pub struct MigrateMsg {}

/// The identity's state.
pub struct IdentityState {
    pub owner: String,
    pub claim_seq: u64,
    /// The claims by id (each stored under the pair of its topic and id).
    pub claims: IdMap<ClaimRecord>,
}

/// A response with no messages and no events, only these attributes.
pub open spec fn plain(resp: ClaimResponseBody, attrs: Seq<(Seq<char>, Seq<char>)>) -> bool {
    &&& resp.messages@.len() == 0
    &&& resp.evts().len() == 0
    &&& resp.attrs() == attrs
}

fn response2(action: &str, k1: &str, v1: String, k2: &str, v2: String) -> (r: ClaimResponseBody)
    ensures
        plain(r, seq![("action"@, action@), (k1@, v1@), (k2@, v2@)]),
{
    let ghost a = v1@;
    let ghost b = v2@;
    let mut r: ClaimResponseBody = Response::new();
    r.attr("action", text(action));
    r.attr(k1, v1);
    r.attr(k2, v2);
    assert(r.attrs() =~= seq![("action"@, action@), (k1@, a), (k2@, b)]);
    r
}

/// Whether claim `c` counts for `topic` at time `t`: not revoked, not
/// expired, and, when a whitelist is given, filed by an issuer on it.
pub open spec fn counts(c: ClaimRecord, topic: u32, whitelist: Option<Seq<Seq<char>>>, t: u64) -> bool {
    &&& c.topic == topic
    &&& !c.revoked
    &&& (c.expires_at matches Some(exp) ==> exp > t)
    &&& (whitelist matches Some(list) ==> list.contains(c.issuer@))
}

/// The claims under `topic`, in id order.
pub open spec fn topic_claims(s: Seq<(u64, ClaimRecord)>, topic: u32) -> Seq<ClaimRecord>
    decreases s.len(),
{
    if s.len() == 0 {
        seq![]
    } else if s.last().1.topic == topic {
        topic_claims(s.drop_last(), topic).push(s.last().1)
    } else {
        topic_claims(s.drop_last(), topic)
    }
}

pub open spec fn strings(v: Seq<String>) -> Seq<Seq<char>> {
    v.map_values(|x: String| x@)
}

pub open spec fn opt_strings(v: Option<Vec<String>>) -> Option<Seq<Seq<char>>> {
    match v {
        Some(l) => Some(strings(l@)),
        None => None,
    }
}

pub open spec fn answer_of(r: ClaimResponse, c: ClaimRecord) -> bool {
    &&& r.id == c.id
    &&& r.topic == c.topic
    &&& r.issuer@ == c.issuer@
    &&& r.data == c.data
    &&& r.issued_at == c.issued_at
    &&& r.expires_at == c.expires_at
    &&& r.revoked == c.revoked
}

fn clone_opt(o: &Option<String>) -> (r: Option<String>)
    ensures
        r == *o,
{
    match o {
        Some(s) => Some(s.clone()),
        None => None,
    }
}

fn listed(list: &Vec<String>, a: &String) -> (r: bool)
    ensures
        r == strings(list@).contains(a@),
{
    let mut i: usize = 0;
    while i < list.len()
        invariant
            i <= list@.len(),
            forall|j: int| 0 <= j < i ==> #[trigger] list@[j]@ != a@,
        decreases list@.len() - i,
    {
        if list[i] == *a {
            assert(strings(list@)[i as int] == a@);
            return true;
        }
        i = i + 1;
    }
    proof {
        if strings(list@).contains(a@) {
            let k = choose|k: int| 0 <= k < strings(list@).len() && strings(list@)[k] == a@;
            assert(list@[k]@ == a@);
        }
    }
    false
}

impl IdentityState {
    /// Each claim is stored under its own id, and no id exceeds the counter.
    pub open spec fn wf(&self) -> bool {
        &&& self.claims.wf()
        &&& forall|k: u64| #[trigger] self.claims@.contains_key(k) ==> self.claims@[k].id == k && k
            <= self.claim_seq
    }

    pub fn instantiate(ctx: &Ctx, owner: AddrInput) -> (r: Result<(IdentityState, ClaimResponseBody), ClaimError>)
        ensures
            match r {
                Ok((s, resp)) => owner.valid() && s.wf() && s.owner@ == owner.text@ && s.claim_seq == 0
                    && s.claims@.is_empty() && plain(
                    resp,
                    seq![("method"@, "instantiate"@), ("owner"@, ctx.sender.text@)],
                ),
                Err(e) => !owner.valid() && e@ == ClaimErr::Std(owner.rejection->0@),
            },
    {
        let o = match owner.check() {
            Ok(a) => a,
            Err(e) => return Err(ClaimError::Std(e)),
        };
        let s = IdentityState { owner: o, claim_seq: 0, claims: IdMap::new() };
        let mut resp: ClaimResponseBody = Response::new();
        resp.attr("method", text("instantiate"));
        resp.attr("owner", ctx.sender.text.clone());
        assert(resp.attrs() =~= seq![("method"@, "instantiate"@), ("owner"@, ctx.sender.text@)]);
        Ok((s, resp))
    }

    /// The issuer files a claim under `topic`; it gets the next id and the
    /// current time as its issue time.
    pub fn add_claim(
        &mut self,
        ctx: &Ctx,
        topic: u32,
        issuer: AddrInput,
        data: Option<String>,
        expires_at: Option<u64>,
    ) -> (r: Result<ClaimResponseBody, ClaimError>)
        requires
            old(self).wf(),
            issuer.valid() && ctx.sender.text@ == issuer.text@ ==> old(self).claim_seq < u64::MAX,
        ensures
            final(self).wf(),
            match r {
                Ok(resp) => {
                    let id = (old(self).claim_seq + 1) as u64;
                    &&& issuer.valid() && ctx.sender.text@ == issuer.text@
                    &&& final(self).owner == old(self).owner
                    &&& final(self).claim_seq == id
                    &&& !old(self).claims@.contains_key(id)
                    &&& final(self).claims@ == old(self).claims@.insert(
                        id,
                        ClaimRecord {
                            id,
                            topic,
                            issuer: issuer.text,
                            data,
                            issued_at: ctx.time,
                            expires_at,
                            revoked: false,
                        },
                    )
                    &&& plain(
                        resp,
                        seq![
                            ("action"@, "add_claim"@),
                            ("topic"@, decimal(topic as nat)),
                            ("id"@, decimal(id as nat)),
                        ],
                    )
                },
                Err(e) => *final(self) == *old(self) && if !issuer.valid() {
                    e@ == ClaimErr::Std(issuer.rejection->0@)
                } else {
                    ctx.sender.text@ != issuer.text@ && e@ == ClaimErr::Unauthorized
                },
            },
    {
        let i = match issuer.check() {
            Ok(a) => a,
            Err(e) => return Err(ClaimError::Std(e)),
        };
        if ctx.sender.text != i {
            return Err(ClaimError::Unauthorized);
        }
        let seq = self.claim_seq + 1;
        self.claim_seq = seq;
        self.claims.insert(
            seq,
            ClaimRecord { id: seq, topic, issuer: i, data, issued_at: ctx.time, expires_at, revoked: false },
        );
        Ok(response2(
            "add_claim",
            "topic",
            decimal_string(topic as u128),
            "id",
            decimal_string(seq as u128),
        ))
    }

    /// Its issuer or the identity's owner revokes a claim.
    pub fn revoke_claim(&mut self, ctx: &Ctx, topic: u32, claim_id: u64) -> (r: Result<ClaimResponseBody, ClaimError>)
        requires
            old(self).wf(),
        ensures
            final(self).wf(),
            match r {
                Ok(resp) => {
                    let c = old(self).claims@[claim_id];
                    &&& old(self).claims@.contains_key(claim_id) && c.topic == topic
                    &&& (ctx.sender.text@ == c.issuer@ || ctx.sender.text@ == old(self).owner@)
                    &&& final(self).owner == old(self).owner
                    &&& final(self).claim_seq == old(self).claim_seq
                    &&& final(self).claims@ == revoked(old(self).claims@, claim_id)
                    &&& plain(
                        resp,
                        seq![
                            ("action"@, "revoke_claim"@),
                            ("topic"@, decimal(topic as nat)),
                            ("id"@, decimal(claim_id as nat)),
                        ],
                    )
                },
                Err(e) => *final(self) == *old(self) && if !(old(self).claims@.contains_key(claim_id)
                    && old(self).claims@[claim_id].topic == topic) {
                    e matches ClaimError::Std(StdFailure::NotFound(k)) && k@ == "claim"@
                } else {
                    ctx.sender.text@ != old(self).claims@[claim_id].issuer@ && ctx.sender.text@ != old(self).owner@ && e@ == ClaimErr::Unauthorized
                },
            },
    {
        let c = match self.claims.get(claim_id) {
            Some(c) => {
                if c.topic != topic {
                    return Err(ClaimError::Std(StdFailure::NotFound(text("claim"))));
                }
                ClaimRecord {
                    id: c.id,
                    topic: c.topic,
                    issuer: c.issuer.clone(),
                    data: clone_opt(&c.data),
                    issued_at: c.issued_at,
                    expires_at: c.expires_at,
                    revoked: true,
                }
            },
            None => return Err(ClaimError::Std(StdFailure::NotFound(text("claim")))),
        };
        if ctx.sender.text != c.issuer && ctx.sender.text != self.owner {
            return Err(ClaimError::Unauthorized);
        }
        self.claims.insert(claim_id, c);
        Ok(response2(
            "revoke_claim",
            "topic",
            decimal_string(topic as u128),
            "id",
            decimal_string(claim_id as u128),
        ))
    }

    /// Owner only: hands ownership to `owner` (checked before the caller).
    pub fn update_owner(&mut self, ctx: &Ctx, owner: AddrInput) -> (r: Result<ClaimResponseBody, ClaimError>)
        requires
            old(self).wf(),
        ensures
            final(self).wf(),
            match r {
                Ok(resp) => owner.valid() && ctx.sender.text@ == old(self).owner@ && *final(self) == (
                IdentityState { owner: owner.text, ..*old(self) }) && plain(
                    resp,
                    seq![("action"@, "update_owner"@), ("owner"@, owner.text@)],
                ),
                Err(e) => *final(self) == *old(self) && if !owner.valid() {
                    e@ == ClaimErr::Std(owner.rejection->0@)
                } else {
                    ctx.sender.text@ != old(self).owner@ && e@ == ClaimErr::Unauthorized
                },
            },
    {
        let o = match owner.check() {
            Ok(a) => a,
            Err(e) => return Err(ClaimError::Std(e)),
        };
        if ctx.sender.text != self.owner {
            return Err(ClaimError::Unauthorized);
        }
        self.owner = o;
        let ghost ot = owner.text@;
        let mut resp: ClaimResponseBody = Response::new();
        resp.attr("action", text("update_owner"));
        resp.attr("owner", owner.text);
        assert(resp.attrs() =~= seq![("action"@, "update_owner"@), ("owner"@, ot)]);
        Ok(resp)
    }

    /// The claims filed under `topic`, in id order.
    pub fn claims_by_topic(&self, topic: u32) -> (r: Vec<ClaimResponse>)
        requires
            self.wf(),
        ensures
            r@.len() == topic_claims(self.claims.pairs(), topic).len(),
            forall|j: int|
                0 <= j < r@.len() ==> answer_of(#[trigger] r@[j], topic_claims(self.claims.pairs(), topic)[j]),
    {
        let ghost s = self.claims.pairs();
        let mut out: Vec<ClaimResponse> = Vec::new();
        let mut i: usize = 0;
        while i < self.claims.len()
            invariant
                s == self.claims.pairs(),
                i <= s.len(),
                out@.len() == topic_claims(s.take(i as int), topic).len(),
                forall|j: int|
                    0 <= j < out@.len() ==> answer_of(#[trigger] out@[j], topic_claims(s.take(i as int), topic)[j]),
            decreases s.len() - i,
        {
            let (_, c) = self.claims.entry(i);
            assert(s.take(i + 1).drop_last() =~= s.take(i as int));
            if c.topic == topic {
                out.push(
                    ClaimResponse {
                        id: c.id,
                        topic: c.topic,
                        issuer: c.issuer.clone(),
                        data: clone_opt(&c.data),
                        issued_at: c.issued_at,
                        expires_at: c.expires_at,
                        revoked: c.revoked,
                    },
                );
            }
            i = i + 1;
        }
        assert(s.take(s.len() as int) =~= s);
        out
    }

    /// Whether some claim counts for `topic` at `at_time` (by default the
    /// current time), from an issuer on the whitelist when one is given.
    pub fn has_valid_claim(
        &self,
        ctx: &Ctx,
        topic: u32,
        issuer_whitelist: Option<Vec<String>>,
        at_time: Option<u64>,
    ) -> (r: HasValidClaimResponse)
        requires
            self.wf(),
        ensures
            r.valid == exists|k: u64|
                #[trigger] self.claims@.contains_key(k) && counts(
                    self.claims@[k],
                    topic,
                    opt_strings(issuer_whitelist),
                    match at_time {
                        Some(t) => t,
                        None => ctx.time,
                    },
                ),
    {
        let t = match at_time {
            Some(t) => t,
            None => ctx.time,
        };
        let ghost wl = opt_strings(issuer_whitelist);
        let ghost s = self.claims.pairs();
        let mut i: usize = 0;
        while i < self.claims.len()
            invariant
                self.wf(),
                s == self.claims.pairs(),
                i <= s.len(),
                wl == opt_strings(issuer_whitelist),
                t == match at_time {
                    Some(x) => x,
                    None => ctx.time,
                },
                forall|j: int| 0 <= j < i ==> !counts(#[trigger] s[j].1, topic, wl, t),
            decreases s.len() - i,
        {
            let (_, c) = self.claims.entry(i);
            let live = !c.revoked && match c.expires_at {
                Some(exp) => exp > t,
                None => true,
            };
            let trusted = match &issuer_whitelist {
                Some(list) => listed(list, &c.issuer),
                None => true,
            };
            if c.topic == topic && live && trusted {
                proof {
                    lemma_ids_map_at(s, i as int);
                    assert(self.claims@.contains_key(s[i as int].0));
                    assert(counts(self.claims@[s[i as int].0], topic, wl, t));
                }
                return HasValidClaimResponse { valid: true };
            }
            i = i + 1;
        }
        proof {
            assert forall|k: u64| #[trigger] self.claims@.contains_key(k) implies !counts(self.claims@[k], topic, wl, t) by {
                let j = crate::id_map::id_index(s, k);
                assert(crate::id_map::has_id(s, k));
                lemma_ids_map_at(s, j);
            }
        }
        HasValidClaimResponse { valid: false }
    }
}


/// A claim just filed counts for its topic, at any time before it expires,
/// for a whitelist that names its issuer (or no whitelist).
pub proof fn lemma_filed_claim_counts(
    claims: Map<u64, ClaimRecord>,
    id: u64,
    c: ClaimRecord,
    whitelist: Option<Seq<Seq<char>>>,
    t: u64,
)
    requires
        !c.revoked,
        c.expires_at matches Some(exp) ==> t < exp,
        whitelist matches Some(list) ==> list.contains(c.issuer@),
    ensures
        exists|k: u64| #[trigger] claims.insert(id, c).contains_key(k) && counts(claims.insert(id, c)[k], c.topic, whitelist, t),
{
    assert(claims.insert(id, c).contains_key(id));
}

/// A revoked claim never counts.
pub proof fn lemma_revoked_claim_never_counts(c: ClaimRecord, topic: u32, whitelist: Option<Seq<Seq<char>>>, t: u64)
    ensures
        !counts(ClaimRecord { revoked: true, ..c }, topic, whitelist, t),
{
}

/// The claims after claim `id` is revoked.
pub open spec fn revoked(claims: Map<u64, ClaimRecord>, id: u64) -> Map<u64, ClaimRecord> {
    claims.insert(id, ClaimRecord { revoked: true, ..claims[id] })
}

/// Revoking the only claim that counted leaves none that counts.
pub proof fn lemma_revoking_last_valid_claim(
    claims: Map<u64, ClaimRecord>,
    id: u64,
    topic: u32,
    whitelist: Option<Seq<Seq<char>>>,
    t: u64,
)
    requires
        claims.contains_key(id),
        forall|k: u64| #[trigger] claims.contains_key(k) && k != id ==> !counts(claims[k], topic, whitelist, t),
    ensures
        !exists|k: u64| #[trigger] revoked(claims, id).contains_key(k) && counts(revoked(claims, id)[k], topic, whitelist, t),
{
}
} // verus!
