//! The trusted issuers registry: the claim issuers that are trusted, each
//! with the topics it is trusted for, and the reverse index from a topic to
//! the issuers trusted for it.
use vstd::prelude::*;
use crate::common::{AddrInput, StdFailure, StdFailureView, Response, Ctx, text};
use crate::addr_map::{AddrMap, has_key};
use crate::id_map::IdMap;

verus! {

/// The most issuers `AddIssuer` lets in.
pub const MAX_ISSUERS: usize = 50;

/// The most topics one issuer is trusted for.
pub const MAX_TOPICS_PER_ISSUER: usize = 15;

/// The topics an issuer is trusted for.
#[derive(Debug)]
pub struct IssuerTopics {
    pub topics: Vec<u32>,
}

/// Errors of the trusted issuers registry.
#[derive(Debug)]
pub enum IssuersError {
    Std(StdFailure),
    Unauthorized,
    IssuerAlreadyTrusted { issuer: String },
    IssuerNotFound { issuer: String },
    TooManyIssuers { max: usize },
    TooManyTopicsPerIssuer { max: usize },
    EmptyTopics,
}

pub enum IssuersErr {
    Std(StdFailureView),
    Unauthorized,
    IssuerAlreadyTrusted { issuer: Seq<char> },
    IssuerNotFound { issuer: Seq<char> },
    TooManyIssuers { max: usize },
    TooManyTopicsPerIssuer { max: usize },
    EmptyTopics,
}

impl View for IssuersError {
    type V = IssuersErr;

    open spec fn view(&self) -> IssuersErr {
        match self {
            IssuersError::Std(e) => IssuersErr::Std(e@),
            IssuersError::Unauthorized => IssuersErr::Unauthorized,
            IssuersError::IssuerAlreadyTrusted { issuer } => IssuersErr::IssuerAlreadyTrusted { issuer: issuer@ },
            IssuersError::IssuerNotFound { issuer } => IssuersErr::IssuerNotFound { issuer: issuer@ },
            IssuersError::TooManyIssuers { max } => IssuersErr::TooManyIssuers { max: *max },
            IssuersError::TooManyTopicsPerIssuer { max } => IssuersErr::TooManyTopicsPerIssuer { max: *max },
            IssuersError::EmptyTopics => IssuersErr::EmptyTopics,
        }
    }
}

/// The registry sends no messages.
pub type IssuersResponse = Response<()>;

#[derive(Debug, PartialEq)]
pub struct IssuerTopicsResponse {
    pub issuer: String,
    pub topics: Vec<u32>,
}

#[derive(Debug, PartialEq)]
pub struct IsIssuerForTopicResponse {
    pub issuer: String,
    pub topic: u32,
    pub allowed: bool,
}

#[derive(Debug, PartialEq)]
pub struct AllIssuersResponse {
    pub issuers: Vec<IssuerTopicsResponse>,
}

#[derive(Debug, PartialEq)]
pub struct TrustedIssuersForTopicResponse {
    pub issuers: Vec<String>,
}

/// The (empty) migration message.
#[derive(Debug, PartialEq)]
pub struct MigrateMsg {}

/// The registry's state.
pub struct IssuersState {
    pub owner: String,
    pub issuers: AddrMap<IssuerTopics>,
    /// For each topic (by its number), the issuers trusted for it, in the
    /// order they were added.
    pub index: IdMap<Vec<String>>,
}

pub open spec fn views(v: Seq<String>) -> Seq<Seq<char>> {
    v.map_values(|x: String| x@)
}

/// The registry's state as mathematics.
#[verifier::ext_equal]
pub struct IssuersModel {
    pub owner: Seq<char>,
    pub issuers: Map<Seq<char>, Seq<u32>>,
    pub index: Map<u32, Seq<Seq<char>>>,
}

impl View for IssuersState {
    type V = IssuersModel;

    open spec fn view(&self) -> IssuersModel {
        IssuersModel {
            owner: self.owner@,
            issuers: self.issuers@.map_values(|it: IssuerTopics| it.topics@),
            index: Map::new(
                |t: u32| self.index@.contains_key(t as u64),
                |t: u32| views(self.index@[t as u64]@),
            ),
        }
    }
}

/// The issuers listed for topic `t` (none when the topic has no entry).
pub open spec fn listed_for(ix: Map<u32, Seq<Seq<char>>>, t: u32) -> Seq<Seq<char>> {
    if ix.contains_key(t) {
        ix[t]
    } else {
        seq![]
    }
}

/// Lists `i` for topic `t` unless it is listed already.
pub open spec fn enlist(ix: Map<u32, Seq<Seq<char>>>, t: u32, i: Seq<char>) -> Map<u32, Seq<Seq<char>>> {
    if listed_for(ix, t).contains(i) {
        ix
    } else {
        ix.insert(t, listed_for(ix, t).push(i))
    }
}

/// Lists `i` for each of `ts`, in order.
pub open spec fn enlist_all(ix: Map<u32, Seq<Seq<char>>>, ts: Seq<u32>, i: Seq<char>) -> Map<u32, Seq<Seq<char>>>
    decreases ts.len(),
{
    if ts.len() == 0 {
        ix
    } else {
        enlist(enlist_all(ix, ts.drop_last(), i), ts.last(), i)
    }
}

/// `l` without the entries equal to `x`.
pub open spec fn without(l: Seq<Seq<char>>, x: Seq<char>) -> Seq<Seq<char>>
    decreases l.len(),
{
    if l.len() == 0 {
        l
    } else if l.last() == x {
        without(l.drop_last(), x)
    } else {
        without(l.drop_last(), x).push(l.last())
    }
}

/// Takes `i` off topic `t`'s list, dropping the entry once it is empty.
pub open spec fn delist(ix: Map<u32, Seq<Seq<char>>>, t: u32, i: Seq<char>) -> Map<u32, Seq<Seq<char>>> {
    if ix.contains_key(t) {
        if without(ix[t], i).len() == 0 {
            ix.remove(t)
        } else {
            ix.insert(t, without(ix[t], i))
        }
    } else {
        ix
    }
}

/// Takes `i` off the list of each of `ts`, in order.
pub open spec fn delist_all(ix: Map<u32, Seq<Seq<char>>>, ts: Seq<u32>, i: Seq<char>) -> Map<u32, Seq<Seq<char>>>
    decreases ts.len(),
{
    if ts.len() == 0 {
        ix
    } else {
        delist(delist_all(ix, ts.drop_last(), i), ts.last(), i)
    }
}

/// No topic lists an issuer twice.
pub open spec fn lists_distinct(ix: Map<u32, Seq<Seq<char>>>) -> bool {
    forall|t: u32| #[trigger] listed_for(ix, t).no_duplicates()
}

impl IssuersModel {
    /// The topics of `a` (none when it is not trusted).
    pub open spec fn topics_of(self, a: Seq<char>) -> Seq<u32> {
        if self.issuers.contains_key(a) {
            self.issuers[a]
        } else {
            seq![]
        }
    }

    /// The reverse index lists exactly the trusted issuers of each topic,
    /// each once.
    pub open spec fn index_consistent(self) -> bool {
        &&& lists_distinct(self.index)
        &&& forall|t: u32, a: Seq<char>|
            #![trigger listed_for(self.index, t).contains(a)]
            #![trigger self.topics_of(a).contains(t)]
            listed_for(self.index, t).contains(a) <==> self.topics_of(a).contains(t)
    }
}

pub proof fn lemma_push_contains<A>(l: Seq<A>, v: A)
    ensures
        forall|y: A| #[trigger] l.push(v).contains(y) <==> (l.contains(y) || y == v),
{
    assert forall|y: A| #[trigger] l.push(v).contains(y) <==> (l.contains(y) || y == v) by {
        if l.push(v).contains(y) && y != v {
            let k = choose|k: int| 0 <= k < l.push(v).len() && l.push(v)[k] == y;
            assert(l[k] == y);
        }
        if l.contains(y) {
            let k = choose|k: int| 0 <= k < l.len() && l[k] == y;
            assert(l.push(v)[k] == y);
        }
        assert(l.push(v)[l.len() as int] == v);
    }
}

pub proof fn lemma_last_contains<A>(l: Seq<A>)
    requires
        l.len() > 0,
    ensures
        forall|y: A| #[trigger] l.contains(y) <==> (l.drop_last().contains(y) || y == l.last()),
{
    assert(l =~= l.drop_last().push(l.last()));
    lemma_push_contains(l.drop_last(), l.last());
}

pub proof fn lemma_push_distinct<A>(l: Seq<A>, v: A)
    requires
        l.no_duplicates(),
        !l.contains(v),
    ensures
        l.push(v).no_duplicates(),
{
    let q = l.push(v);
    assert forall|a: int, b: int| 0 <= a < q.len() && 0 <= b < q.len() && a != b implies q[a] != q[b] by {
        if a == l.len() {
            assert(l[b] == q[b]);
        } else if b == l.len() {
            assert(l[a] == q[a]);
        } else {
            assert(l[a] == q[a] && l[b] == q[b]);
        }
    }
}

pub proof fn lemma_drop_last_distinct<A>(l: Seq<A>)
    requires
        l.no_duplicates(),
        l.len() > 0,
    ensures
        l.drop_last().no_duplicates(),
        !l.drop_last().contains(l.last()),
{
    let p = l.drop_last();
    assert forall|a: int, b: int| 0 <= a < p.len() && 0 <= b < p.len() && a != b implies p[a] != p[b] by {
        assert(l[a] == p[a] && l[b] == p[b]);
    }
    if p.contains(l.last()) {
        let k = choose|k: int| 0 <= k < p.len() && p[k] == l.last();
        assert(l[k] == l[l.len() - 1]);
    }
}

pub proof fn lemma_without(l: Seq<Seq<char>>, x: Seq<char>)
    ensures
        forall|y: Seq<char>| #[trigger] without(l, x).contains(y) <==> (l.contains(y) && y != x),
        l.no_duplicates() ==> without(l, x).no_duplicates(),
    decreases l.len(),
{
    if l.len() > 0 {
        let p = l.drop_last();
        lemma_without(p, x);
        lemma_last_contains(l);
        lemma_push_contains(without(p, x), l.last());
        if l.no_duplicates() {
            lemma_drop_last_distinct(l);
            if l.last() != x {
                lemma_push_distinct(without(p, x), l.last());
            }
        }
    }
}

pub proof fn lemma_enlist_all(ix: Map<u32, Seq<Seq<char>>>, ts: Seq<u32>, i: Seq<char>)
    ensures
        forall|t: u32, a: Seq<char>|
            #[trigger] listed_for(enlist_all(ix, ts, i), t).contains(a) <==> (listed_for(ix, t).contains(a)
                || (a == i && ts.contains(t))),
        lists_distinct(ix) ==> lists_distinct(enlist_all(ix, ts, i)),
    decreases ts.len(),
{
    if ts.len() > 0 {
        let p = ts.drop_last();
        let r = enlist_all(ix, p, i);
        lemma_enlist_all(ix, p, i);
        lemma_last_contains(ts);
        let tl = ts.last();
        lemma_push_contains(listed_for(r, tl), i);
        assert forall|t: u32, a: Seq<char>|
            #[trigger] listed_for(enlist_all(ix, ts, i), t).contains(a) <==> (listed_for(ix, t).contains(a)
                || (a == i && ts.contains(t))) by {
            assert(listed_for(r, t).contains(a) <==> (listed_for(ix, t).contains(a) || (a == i && p.contains(t))));
            assert(listed_for(r, t).contains(i) <==> (listed_for(ix, t).contains(i) || p.contains(t)));
        }
        if lists_distinct(ix) {
            assert forall|t: u32| #[trigger] listed_for(enlist_all(ix, ts, i), t).no_duplicates() by {
                assert(listed_for(r, t).no_duplicates());
                if t == tl && !listed_for(r, t).contains(i) {
                    lemma_push_distinct(listed_for(r, t), i);
                }
            }
        }
    }
}

pub proof fn lemma_delist_all(ix: Map<u32, Seq<Seq<char>>>, ts: Seq<u32>, i: Seq<char>)
    ensures
        forall|t: u32, a: Seq<char>|
            #[trigger] listed_for(delist_all(ix, ts, i), t).contains(a) <==> (listed_for(ix, t).contains(a)
                && !(a == i && ts.contains(t))),
        lists_distinct(ix) ==> lists_distinct(delist_all(ix, ts, i)),
    decreases ts.len(),
{
    if ts.len() > 0 {
        let p = ts.drop_last();
        let r = delist_all(ix, p, i);
        lemma_delist_all(ix, p, i);
        lemma_last_contains(ts);
        let tl = ts.last();
        lemma_without(listed_for(r, tl), i);
        assert forall|t: u32, a: Seq<char>|
            #[trigger] listed_for(delist_all(ix, ts, i), t).contains(a) <==> (listed_for(ix, t).contains(a)
                && !(a == i && ts.contains(t))) by {
            assert(listed_for(r, t).contains(a) <==> (listed_for(ix, t).contains(a) && !(a == i && p.contains(t))));
            if t == tl && r.contains_key(t) && without(r[t], i).len() == 0 {
                assert(!without(r[t], i).contains(a));
            }
        }
        if lists_distinct(ix) {
            assert forall|t: u32| #[trigger] listed_for(delist_all(ix, ts, i), t).no_duplicates() by {
                assert(listed_for(r, t).no_duplicates());
            }
        }
    }
}

/// A response with no messages and no events, only these attributes.
pub open spec fn plain(resp: IssuersResponse, attrs: Seq<(Seq<char>, Seq<char>)>) -> bool {
    &&& resp.messages@.len() == 0
    &&& resp.evts().len() == 0
    &&& resp.attrs() == attrs
}

fn response1(action: &str, k1: &str, v1: String) -> (r: IssuersResponse)
    ensures
        plain(r, seq![("action"@, action@), (k1@, v1@)]),
{
    let ghost a = v1@;
    let mut r: IssuersResponse = Response::new();
    r.attr("action", text(action));
    r.attr(k1, v1);
    assert(r.attrs() =~= seq![("action"@, action@), (k1@, a)]);
    r
}

fn copy_topics(v: &Vec<u32>) -> (r: Vec<u32>)
    ensures
        r@ == v@,
{
    let mut out: Vec<u32> = Vec::new();
    let mut i: usize = 0;
    while i < v.len()
        invariant
            i <= v@.len(),
            out@ == v@.take(i as int),
        decreases v@.len() - i,
    {
        out.push(v[i]);
        assert(out@ =~= v@.take(i + 1));
        i = i + 1;
    }
    assert(v@.take(v@.len() as int) =~= v@);
    out
}

fn copy_strings(v: &Vec<String>) -> (r: Vec<String>)
    ensures
        views(r@) == views(v@),
{
    let mut out: Vec<String> = Vec::new();
    let mut i: usize = 0;
    while i < v.len()
        invariant
            i <= v@.len(),
            views(out@) == views(v@).take(i as int),
        decreases v@.len() - i,
    {
        let c = v[i].clone();
        let ghost before = out@;
        out.push(c);
        assert(views(out@) =~= views(before).push(c@));
        assert(views(out@) =~= views(v@).take(i + 1));
        i = i + 1;
    }
    assert(views(v@).take(v@.len() as int) =~= views(v@));
    out
}

fn holds(l: &Vec<String>, a: &String) -> (r: bool)
    ensures
        r == views(l@).contains(a@),
{
    let mut k: usize = 0;
    while k < l.len()
        invariant
            k <= l@.len(),
            forall|j: int| 0 <= j < k ==> #[trigger] l@[j]@ != a@,
        decreases l@.len() - k,
    {
        if l[k] == *a {
            assert(views(l@)[k as int] == a@);
            return true;
        }
        k = k + 1;
    }
    proof {
        if views(l@).contains(a@) {
            let j = choose|j: int| 0 <= j < views(l@).len() && views(l@)[j] == a@;
            assert(l@[j]@ == a@);
        }
    }
    false
}

fn dropping(l: &Vec<String>, x: &String) -> (r: Vec<String>)
    ensures
        views(r@) == without(views(l@), x@),
{
    let mut out: Vec<String> = Vec::new();
    let mut k: usize = 0;
    while k < l.len()
        invariant
            k <= l@.len(),
            views(out@) == without(views(l@).take(k as int), x@),
        decreases l@.len() - k,
    {
        assert(views(l@).take(k + 1).drop_last() =~= views(l@).take(k as int));
        if l[k] != *x {
            let c = l[k].clone();
            let ghost before = out@;
            out.push(c);
            assert(views(out@) =~= views(before).push(c@));
        }
        k = k + 1;
    }
    assert(views(l@).take(l@.len() as int) =~= views(l@));
    out
}

impl IssuersState {
    pub open spec fn wf(&self) -> bool {
        &&& self.issuers.wf()
        &&& self.index.wf()
    }

    /// The topics of `a` as stored, none when it is not trusted.
    fn stored_topics(&self, a: &String) -> (r: Vec<u32>)
        requires
            self.wf(),
        ensures
            r@ == self@.topics_of(a@),
    {
        match self.issuers.get(a) {
            Some(it) => copy_topics(&it.topics),
            None => Vec::new(),
        }
    }

    fn listed(&self, t: u32) -> (r: Vec<String>)
        requires
            self.wf(),
        ensures
            views(r@) == listed_for(self@.index, t),
    {
        match self.index.get(t as u64) {
            Some(l) => copy_strings(l),
            None => Vec::new(),
        }
    }

    /// Lists `i` for each topic of `ts`.
    fn enlist_topics(&mut self, ts: &Vec<u32>, i: &String)
        requires
            old(self).wf(),
        ensures
            final(self).wf(),
            final(self)@ == (IssuersModel { index: enlist_all(old(self)@.index, ts@, i@), ..old(self)@ }),
            final(self).issuers == old(self).issuers,
    {
        let mut k: usize = 0;
        while k < ts.len()
            invariant
                self.wf(),
                k <= ts@.len(),
                self@ == (IssuersModel { index: enlist_all(old(self)@.index, ts@.take(k as int), i@), ..old(self)@ }),
                self.issuers == old(self).issuers,
            decreases ts@.len() - k,
        {
            let t = ts[k];
            assert(ts@.take(k + 1).drop_last() =~= ts@.take(k as int));
            let ghost before = self@;
            let mut l = self.listed(t);
            if !holds(&l, i) {
                let ghost lv = views(l@);
                l.push(i.clone());
                assert(views(l@) =~= lv.push(i@));
                self.index.insert(t as u64, l);
                assert(self@.index =~= before.index.insert(t, lv.push(i@)));
            }
            assert(self@ =~= (IssuersModel { index: enlist_all(old(self)@.index, ts@.take(k + 1), i@), ..old(self)@ }));
            k = k + 1;
        }
        assert(ts@.take(ts@.len() as int) =~= ts@);
    }

    /// Takes `i` off the list of each topic of `ts`.
    fn delist_topics(&mut self, ts: &Vec<u32>, i: &String)
        requires
            old(self).wf(),
        ensures
            final(self).wf(),
            final(self)@ == (IssuersModel { index: delist_all(old(self)@.index, ts@, i@), ..old(self)@ }),
            final(self).issuers == old(self).issuers,
    {
        let mut k: usize = 0;
        while k < ts.len()
            invariant
                self.wf(),
                k <= ts@.len(),
                self@ == (IssuersModel { index: delist_all(old(self)@.index, ts@.take(k as int), i@), ..old(self)@ }),
                self.issuers == old(self).issuers,
            decreases ts@.len() - k,
        {
            let t = ts[k];
            assert(ts@.take(k + 1).drop_last() =~= ts@.take(k as int));
            let ghost before = self@;
            let kept = match self.index.get(t as u64) {
                Some(l) => Some(dropping(l, i)),
                None => None,
            };
            match kept {
                Some(l) => {
                    if l.len() == 0 {
                        self.index.remove(t as u64);
                        assert(self@.index =~= before.index.remove(t));
                    } else {
                        let ghost lv = views(l@);
                        self.index.insert(t as u64, l);
                        assert(self@.index =~= before.index.insert(t, lv));
                    }
                },
                None => {},
            }
            assert(self@ =~= (IssuersModel { index: delist_all(old(self)@.index, ts@.take(k + 1), i@), ..old(self)@ }));
            k = k + 1;
        }
        assert(ts@.take(ts@.len() as int) =~= ts@);
    }
}


/// The refusal of an owner-only change of `issuer`'s topics, if any.
pub open spec fn topics_error(m: IssuersModel, ctx: Ctx, issuer: AddrInput, topics: Seq<u32>) -> Option<IssuersErr> {
    if ctx.sender.text@ != m.owner {
        Some(IssuersErr::Unauthorized)
    } else if !issuer.valid() {
        Some(IssuersErr::Std(issuer.rejection->0@))
    } else if topics.len() == 0 {
        Some(IssuersErr::EmptyTopics)
    } else if topics.len() > MAX_TOPICS_PER_ISSUER {
        Some(IssuersErr::TooManyTopicsPerIssuer { max: MAX_TOPICS_PER_ISSUER })
    } else {
        None
    }
}

/// The refusal of an owner-only call on `a`, if any.
pub open spec fn owner_error(m: IssuersModel, ctx: Ctx, a: AddrInput) -> Option<IssuersErr> {
    if ctx.sender.text@ != m.owner {
        Some(IssuersErr::Unauthorized)
    } else if !a.valid() {
        Some(IssuersErr::Std(a.rejection->0@))
    } else {
        None
    }
}

/// The registry after `i` is trusted for exactly `topics`, its earlier
/// topics dropped from the index.
pub open spec fn retopiced(m: IssuersModel, i: Seq<char>, topics: Seq<u32>) -> IssuersModel {
    IssuersModel {
        issuers: m.issuers.insert(i, topics),
        index: enlist_all(delist_all(m.index, m.topics_of(i), i), topics, i),
        ..m
    }
}

/// The registry after a new issuer `i` is trusted for `topics`.
pub open spec fn added(m: IssuersModel, i: Seq<char>, topics: Seq<u32>) -> IssuersModel {
    IssuersModel { issuers: m.issuers.insert(i, topics), index: enlist_all(m.index, topics, i), ..m }
}

/// The registry after `i` is no longer trusted.
pub open spec fn removed(m: IssuersModel, i: Seq<char>) -> IssuersModel {
    IssuersModel { issuers: m.issuers.remove(i), index: delist_all(m.index, m.topics_of(i), i), ..m }
}

/// Trusting an issuer for new topics keeps the reverse index exact.
pub proof fn lemma_retopiced_consistent(m: IssuersModel, i: Seq<char>, topics: Seq<u32>)
    requires
        m.index_consistent(),
    ensures
        retopiced(m, i, topics).index_consistent(),
{
    let d = delist_all(m.index, m.topics_of(i), i);
    lemma_delist_all(m.index, m.topics_of(i), i);
    lemma_enlist_all(d, topics, i);
    let n = retopiced(m, i, topics);
    assert forall|t: u32, a: Seq<char>|
        #![trigger listed_for(n.index, t).contains(a)]
        #![trigger n.topics_of(a).contains(t)]
        listed_for(n.index, t).contains(a) <==> n.topics_of(a).contains(t) by {
        assert(listed_for(n.index, t).contains(a) <==> (listed_for(d, t).contains(a) || (a == i && topics.contains(t))));
        assert(listed_for(d, t).contains(a) <==> (listed_for(m.index, t).contains(a) && !(a == i && m.topics_of(i).contains(t))));
        assert(listed_for(m.index, t).contains(a) <==> m.topics_of(a).contains(t));
    }
}

/// Adding an issuer that was not trusted keeps the reverse index exact.
pub proof fn lemma_added_consistent(m: IssuersModel, i: Seq<char>, topics: Seq<u32>)
    requires
        m.index_consistent(),
        !m.issuers.contains_key(i),
    ensures
        added(m, i, topics).index_consistent(),
{
    lemma_enlist_all(m.index, topics, i);
    let n = added(m, i, topics);
    assert forall|t: u32, a: Seq<char>|
        #![trigger listed_for(n.index, t).contains(a)]
        #![trigger n.topics_of(a).contains(t)]
        listed_for(n.index, t).contains(a) <==> n.topics_of(a).contains(t) by {
        assert(listed_for(n.index, t).contains(a) <==> (listed_for(m.index, t).contains(a) || (a == i && topics.contains(t))));
        assert(listed_for(m.index, t).contains(a) <==> m.topics_of(a).contains(t));
    }
}

/// Removing an issuer keeps the reverse index exact.
pub proof fn lemma_removed_consistent(m: IssuersModel, i: Seq<char>)
    requires
        m.index_consistent(),
    ensures
        removed(m, i).index_consistent(),
{
    lemma_delist_all(m.index, m.topics_of(i), i);
    let n = removed(m, i);
    assert forall|t: u32, a: Seq<char>|
        #![trigger listed_for(n.index, t).contains(a)]
        #![trigger n.topics_of(a).contains(t)]
        listed_for(n.index, t).contains(a) <==> n.topics_of(a).contains(t) by {
        assert(listed_for(n.index, t).contains(a) <==> (listed_for(m.index, t).contains(a) && !(a == i && m.topics_of(i).contains(t))));
        assert(listed_for(m.index, t).contains(a) <==> m.topics_of(a).contains(t));
    }
}

impl IssuersState {
    pub fn instantiate(ctx: &Ctx, owner: AddrInput) -> (r: Result<(IssuersState, IssuersResponse), IssuersError>)
        ensures
            match r {
                Ok((s, resp)) => owner.valid() && s.wf() && s@.owner == owner.text@ && s@.issuers.is_empty()
                    && s@.index.is_empty() && s@.index_consistent() && plain(
                    resp,
                    seq![("method"@, "instantiate"@), ("owner"@, ctx.sender.text@)],
                ),
                Err(e) => !owner.valid() && e@ == IssuersErr::Std(owner.rejection->0@),
            },
    {
        let o = match owner.check() {
            Ok(a) => a,
            Err(e) => return Err(IssuersError::Std(e)),
        };
        let s = IssuersState { owner: o, issuers: AddrMap::new(), index: IdMap::new() };
        assert(s@.issuers =~= Map::empty());
        assert(s@.index =~= Map::empty());
        let mut resp: IssuersResponse = Response::new();
        resp.attr("method", text("instantiate"));
        resp.attr("owner", ctx.sender.text.clone());
        assert(resp.attrs() =~= seq![("method"@, "instantiate"@), ("owner"@, ctx.sender.text@)]);
        Ok((s, resp))
    }

    /// Owner only: trusts a new `issuer` for `topics` (between 1 and
    /// `MAX_TOPICS_PER_ISSUER`), refused for an issuer already trusted and
    /// once `MAX_ISSUERS` are trusted.
    pub fn add_issuer(&mut self, ctx: &Ctx, issuer: AddrInput, topics: Vec<u32>) -> (r: Result<
        IssuersResponse,
        IssuersError,
    >)
        requires
            old(self).wf(),
        ensures
            final(self).wf(),
            old(self)@.index_consistent() ==> final(self)@.index_consistent(),
            old(self).issuers.pairs().len() <= MAX_ISSUERS ==> final(self).issuers.pairs().len() <= MAX_ISSUERS,
            match r {
                Ok(resp) => topics_error(old(self)@, *ctx, issuer, topics@) is None
                    && !old(self)@.issuers.contains_key(issuer.text@)
                    && old(self).issuers.pairs().len() < MAX_ISSUERS && final(self)@ == added(
                    old(self)@,
                    issuer.text@,
                    topics@,
                ) && plain(resp, seq![("action"@, "add_issuer"@), ("issuer"@, issuer.text@)]),
                Err(e) => final(self)@ == old(self)@ && if topics_error(old(self)@, *ctx, issuer, topics@) is Some {
                    topics_error(old(self)@, *ctx, issuer, topics@) == Some(e@)
                } else if old(self)@.issuers.contains_key(issuer.text@) {
                    e@ == IssuersErr::IssuerAlreadyTrusted { issuer: issuer.text@ }
                } else {
                    old(self).issuers.pairs().len() >= MAX_ISSUERS && e@ == IssuersErr::TooManyIssuers { max: MAX_ISSUERS }
                },
            },
    {
        if ctx.sender.text != self.owner {
            return Err(IssuersError::Unauthorized);
        }
        let i = match issuer.check() {
            Ok(a) => a,
            Err(e) => return Err(IssuersError::Std(e)),
        };
        if topics.len() == 0 {
            return Err(IssuersError::EmptyTopics);
        }
        if topics.len() > MAX_TOPICS_PER_ISSUER {
            return Err(IssuersError::TooManyTopicsPerIssuer { max: MAX_TOPICS_PER_ISSUER });
        }
        if self.issuers.contains(&i) {
            return Err(IssuersError::IssuerAlreadyTrusted { issuer: i });
        }
        if self.issuers.len() >= MAX_ISSUERS {
            return Err(IssuersError::TooManyIssuers { max: MAX_ISSUERS });
        }
        let ghost m0 = self@;
        self.issuers.insert(i.clone(), IssuerTopics { topics: copy_topics(&topics) });
        assert(self@.issuers =~= m0.issuers.insert(issuer.text@, topics@));
        assert(self@.index =~= m0.index);
        assert(self@ =~= IssuersModel { issuers: m0.issuers.insert(issuer.text@, topics@), ..m0 });
        self.enlist_topics(&topics, &i);
        proof {
            if m0.index_consistent() {
                lemma_added_consistent(m0, issuer.text@, topics@);
            }
        }
        Ok(response1("add_issuer", "issuer", issuer.text))
    }

    /// Owner only: trusts an already trusted `issuer` for exactly `topics`,
    /// between 1 and `MAX_TOPICS_PER_ISSUER` of them; an unknown issuer is
    /// refused.
    pub fn update_issuer_topics(&mut self, ctx: &Ctx, issuer: AddrInput, topics: Vec<u32>) -> (r: Result<
        IssuersResponse,
        IssuersError,
    >)
        requires
            old(self).wf(),
        ensures
            final(self).wf(),
            old(self)@.index_consistent() ==> final(self)@.index_consistent(),
            final(self).issuers.pairs().len() == old(self).issuers.pairs().len(),
            match r {
                Ok(resp) => topics_error(old(self)@, *ctx, issuer, topics@) is None
                    && old(self)@.issuers.contains_key(issuer.text@) && final(self)@ == retopiced(
                    old(self)@,
                    issuer.text@,
                    topics@,
                ) && plain(resp, seq![("action"@, "update_issuer_topics"@), ("issuer"@, issuer.text@)]),
                Err(e) => final(self)@ == old(self)@ && if topics_error(old(self)@, *ctx, issuer, topics@) is Some {
                    topics_error(old(self)@, *ctx, issuer, topics@) == Some(e@)
                } else {
                    !old(self)@.issuers.contains_key(issuer.text@) && e@ == IssuersErr::IssuerNotFound {
                        issuer: issuer.text@,
                    }
                },
            },
    {
        if ctx.sender.text != self.owner {
            return Err(IssuersError::Unauthorized);
        }
        let i = match issuer.check() {
            Ok(a) => a,
            Err(e) => return Err(IssuersError::Std(e)),
        };
        if topics.len() == 0 {
            return Err(IssuersError::EmptyTopics);
        }
        if topics.len() > MAX_TOPICS_PER_ISSUER {
            return Err(IssuersError::TooManyTopicsPerIssuer { max: MAX_TOPICS_PER_ISSUER });
        }
        if !self.issuers.contains(&i) {
            return Err(IssuersError::IssuerNotFound { issuer: i });
        }
        let ghost m0 = self@;
        let ghost n0 = self.issuers.pairs().len();
        let old_topics = self.stored_topics(&i);
        self.delist_topics(&old_topics, &i);
        let ghost m1 = self@;
        assert(self.issuers.pairs().len() == n0);
        assert(has_key(self.issuers.pairs(), issuer.text@));
        self.issuers.insert(i.clone(), IssuerTopics { topics: copy_topics(&topics) });
        assert(self@.issuers =~= m1.issuers.insert(issuer.text@, topics@));
        assert(self@.index =~= m1.index);
        assert(self@ =~= IssuersModel { issuers: m1.issuers.insert(issuer.text@, topics@), ..m1 });
        self.enlist_topics(&topics, &i);
        assert(self@ =~= retopiced(m0, issuer.text@, topics@));
        proof {
            if m0.index_consistent() {
                lemma_retopiced_consistent(m0, issuer.text@, topics@);
            }
        }
        Ok(response1("update_issuer_topics", "issuer", issuer.text))
    }

    /// Owner only: stops trusting `issuer` (a no-op for an issuer not
    /// trusted).
    pub fn remove_issuer(&mut self, ctx: &Ctx, issuer: AddrInput) -> (r: Result<IssuersResponse, IssuersError>)
        requires
            old(self).wf(),
        ensures
            final(self).wf(),
            old(self)@.index_consistent() ==> final(self)@.index_consistent(),
            match r {
                Ok(resp) => owner_error(old(self)@, *ctx, issuer) is None && final(self)@ == removed(
                    old(self)@,
                    issuer.text@,
                ) && plain(resp, seq![("action"@, "remove_issuer"@), ("issuer"@, issuer.text@)]),
                Err(e) => final(self)@ == old(self)@ && owner_error(old(self)@, *ctx, issuer) == Some(e@),
            },
    {
        if ctx.sender.text != self.owner {
            return Err(IssuersError::Unauthorized);
        }
        let i = match issuer.check() {
            Ok(a) => a,
            Err(e) => return Err(IssuersError::Std(e)),
        };
        let ghost m0 = self@;
        let old_topics = self.stored_topics(&i);
        self.delist_topics(&old_topics, &i);
        let ghost m1 = self@;
        self.issuers.remove(&i);
        assert(self@.issuers =~= m0.issuers.remove(issuer.text@));
        assert(self@.index =~= m1.index);
        assert(self@ =~= removed(m0, issuer.text@));
        proof {
            if m0.index_consistent() {
                lemma_removed_consistent(m0, issuer.text@);
            }
        }
        Ok(response1("remove_issuer", "issuer", issuer.text))
    }

    /// Owner only: hands ownership to `owner`.
    pub fn update_owner(&mut self, ctx: &Ctx, owner: AddrInput) -> (r: Result<IssuersResponse, IssuersError>)
        requires
            old(self).wf(),
        ensures
            final(self).wf(),
            match r {
                Ok(resp) => owner_error(old(self)@, *ctx, owner) is None && final(self)@ == (IssuersModel {
                    owner: owner.text@,
                    ..old(self)@
                }) && plain(resp, seq![("action"@, "update_owner"@), ("owner"@, owner.text@)]),
                Err(e) => final(self)@ == old(self)@ && owner_error(old(self)@, *ctx, owner) == Some(e@),
            },
    {
        if ctx.sender.text != self.owner {
            return Err(IssuersError::Unauthorized);
        }
        let o = match owner.check() {
            Ok(a) => a,
            Err(e) => return Err(IssuersError::Std(e)),
        };
        self.owner = o;
        Ok(response1("update_owner", "owner", owner.text))
    }

    /// The topics `issuer` is trusted for (none when it is not trusted),
    /// echoing the issuer as given.
    pub fn issuer_topics(&self, issuer: &AddrInput) -> (r: Result<IssuerTopicsResponse, StdFailure>)
        requires
            self.wf(),
        ensures
            match r {
                Ok(v) => issuer.valid() && v.issuer@ == issuer.text@ && v.topics@ == self@.topics_of(issuer.text@),
                Err(e) => !issuer.valid() && issuer.rejection == Some(e),
            },
    {
        let i = issuer.check()?;
        Ok(IssuerTopicsResponse { issuer: issuer.text.clone(), topics: self.stored_topics(&i) })
    }

    /// Whether `issuer` is trusted for `topic`.
    pub fn is_issuer_for_topic(&self, issuer: &AddrInput, topic: u32) -> (r: Result<IsIssuerForTopicResponse, StdFailure>)
        requires
            self.wf(),
        ensures
            match r {
                Ok(v) => issuer.valid() && v.issuer@ == issuer.text@ && v.topic == topic && v.allowed
                    == self@.topics_of(issuer.text@).contains(topic),
                Err(e) => !issuer.valid() && issuer.rejection == Some(e),
            },
    {
        let i = issuer.check()?;
        let ts = self.stored_topics(&i);
        let mut allowed = false;
        let mut k: usize = 0;
        while k < ts.len()
            invariant
                k <= ts@.len(),
                allowed == ts@.take(k as int).contains(topic),
            decreases ts@.len() - k,
        {
            proof {
                lemma_last_contains(ts@.take(k + 1));
                assert(ts@.take(k + 1).drop_last() =~= ts@.take(k as int));
            }
            if ts[k] == topic {
                allowed = true;
            }
            k = k + 1;
        }
        assert(ts@.take(ts@.len() as int) =~= ts@);
        Ok(IsIssuerForTopicResponse { issuer: issuer.text.clone(), topic, allowed })
    }

    /// Every trusted issuer with its topics, in address order.
    pub fn all_issuers(&self) -> (r: AllIssuersResponse)
        requires
            self.wf(),
        ensures
            r.issuers@.len() == self.issuers.pairs().len(),
            forall|j: int|
                0 <= j < r.issuers@.len() ==> (#[trigger] r.issuers@[j]).issuer@ == self.issuers.pairs()[j].0
                    && r.issuers@[j].topics@ == self.issuers.pairs()[j].1.topics@,
    {
        let mut out: Vec<IssuerTopicsResponse> = Vec::new();
        let mut k: usize = 0;
        while k < self.issuers.len()
            invariant
                k <= self.issuers.pairs().len(),
                out@.len() == k,
                forall|j: int|
                    0 <= j < k ==> (#[trigger] out@[j]).issuer@ == self.issuers.pairs()[j].0 && out@[j].topics@
                        == self.issuers.pairs()[j].1.topics@,
            decreases self.issuers.pairs().len() - k,
        {
            let (a, it) = self.issuers.entry(k);
            out.push(IssuerTopicsResponse { issuer: a.clone(), topics: copy_topics(&it.topics) });
            k = k + 1;
        }
        AllIssuersResponse { issuers: out }
    }

    /// The issuers trusted for `topic`, as the reverse index lists them.
    pub fn trusted_issuers_for_topic(&self, topic: u32) -> (r: TrustedIssuersForTopicResponse)
        requires
            self.wf(),
        ensures
            views(r.issuers@) == listed_for(self@.index, topic),
    {
        TrustedIssuersForTopicResponse { issuers: self.listed(topic) }
    }
}

/// After `UpdateIssuerTopics`, the issuers listed for a topic include the
/// issuer exactly when the topic is among its new topics.
pub proof fn lemma_listed_after_update(m: IssuersModel, i: Seq<char>, topics: Seq<u32>, t: u32)
    requires
        m.index_consistent(),
    ensures
        listed_for(retopiced(m, i, topics).index, t).contains(i) <==> topics.contains(t),
{
    lemma_retopiced_consistent(m, i, topics);
    let n = retopiced(m, i, topics);
    assert(n.topics_of(i) == topics);
    assert(listed_for(n.index, t).contains(i) <==> n.topics_of(i).contains(t));
}

/// After `RemoveIssuer`, no topic lists the issuer.
pub proof fn lemma_unlisted_after_remove(m: IssuersModel, i: Seq<char>, t: u32)
    requires
        m.index_consistent(),
    ensures
        !listed_for(removed(m, i).index, t).contains(i),
{
    lemma_removed_consistent(m, i);
    let n = removed(m, i);
    assert(!n.issuers.contains_key(i));
    assert(listed_for(n.index, t).contains(i) <==> n.topics_of(i).contains(t));
}
} // verus!
