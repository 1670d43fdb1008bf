//! A map keyed by address, kept in the order in which the contracts' storage
//! walks it (see `key_order`).
use vstd::prelude::*;
use crate::key_order::{key_lt, key_less, lemma_key_lt_irreflexive, lemma_key_lt_total, lemma_key_lt_transitive};

verus! {

/// Sum of the values of a sequence of (key, amount) pairs.
pub open spec fn sum_values(s: Seq<(Seq<char>, u128)>) -> int
    decreases s.len(),
{
    if s.len() == 0 {
        0
    } else {
        sum_values(s.drop_last()) + s.last().1
    }
}

pub proof fn lemma_sum_values_push(s: Seq<(Seq<char>, u128)>, p: (Seq<char>, u128))
    ensures
        sum_values(s.push(p)) == sum_values(s) + p.1,
{
    assert(s.push(p).drop_last() =~= s);
}

pub proof fn lemma_sum_values_nonneg(s: Seq<(Seq<char>, u128)>)
    ensures
        sum_values(s) >= 0,
    decreases s.len(),
{
    if s.len() > 0 {
        lemma_sum_values_nonneg(s.drop_last());
    }
}

pub proof fn lemma_sum_values_update(s: Seq<(Seq<char>, u128)>, i: int, p: (Seq<char>, u128))
    requires
        0 <= i < s.len(),
    ensures
        sum_values(s.update(i, p)) == sum_values(s) - s[i].1 + p.1,
    decreases s.len(),
{
    if i == s.len() - 1 {
        assert(s.update(i, p).drop_last() =~= s.drop_last());
    } else {
        lemma_sum_values_update(s.drop_last(), i, p);
        assert(s.update(i, p).drop_last() =~= s.drop_last().update(i, p));
    }
}

pub proof fn lemma_sum_values_insert(s: Seq<(Seq<char>, u128)>, i: int, p: (Seq<char>, u128))
    requires
        0 <= i <= s.len(),
    ensures
        sum_values(s.insert(i, p)) == sum_values(s) + p.1,
    decreases s.len(),
{
    if i == s.len() {
        assert(s.insert(i, p) =~= s.push(p));
        lemma_sum_values_push(s, p);
    } else {
        lemma_sum_values_insert(s.drop_last(), i, p);
        assert(s.insert(i, p).drop_last() =~= s.drop_last().insert(i, p));
    }
}

pub proof fn lemma_sum_values_remove(s: Seq<(Seq<char>, u128)>, i: int)
    requires
        0 <= i < s.len(),
    ensures
        sum_values(s.remove(i)) == sum_values(s) - s[i].1,
    decreases s.len(),
{
    if i == s.len() - 1 {
        assert(s.remove(i) =~= s.drop_last());
    } else {
        lemma_sum_values_remove(s.drop_last(), i);
        assert(s.remove(i).drop_last() =~= s.drop_last().remove(i));
    }
}

/// An address-keyed map whose entries stand in storage order.
pub struct AddrMap<V> {
    entries: Vec<(String, V)>,
}

/// The position at which key `k` stands, or would stand, among `s`.
pub open spec fn slot<V>(s: Seq<(Seq<char>, V)>, k: Seq<char>) -> int {
    choose|i: int| #[trigger] is_slot(s, k, i)
}

/// Every key before position `i` precedes `k`, and none from `i` on does.
pub open spec fn is_slot<V>(s: Seq<(Seq<char>, V)>, k: Seq<char>, i: int) -> bool {
    &&& 0 <= i <= s.len()
    &&& forall|j: int| 0 <= j < i ==> key_lt(#[trigger] s[j].0, k)
    &&& forall|j: int| i <= j < s.len() ==> !key_lt(#[trigger] s[j].0, k)
}

pub open spec fn sorted_pairs<V>(s: Seq<(Seq<char>, V)>) -> bool {
    forall|i: int, j: int| 0 <= i < j < s.len() ==> key_lt(#[trigger] s[i].0, #[trigger] s[j].0)
}

pub open spec fn has_key<V>(s: Seq<(Seq<char>, V)>, k: Seq<char>) -> bool {
    exists|i: int| 0 <= i < s.len() && #[trigger] s[i].0 == k
}

/// A position at which key `k` stands among `s`.
pub open spec fn key_index<V>(s: Seq<(Seq<char>, V)>, k: Seq<char>) -> int {
    choose|i: int| 0 <= i < s.len() && #[trigger] s[i].0 == k
}

pub open spec fn pairs_map<V>(s: Seq<(Seq<char>, V)>) -> Map<Seq<char>, V> {
    Map::new(|k: Seq<char>| has_key(s, k), |k: Seq<char>| s[key_index(s, k)].1)
}

pub proof fn lemma_pairs_map_at<V>(s: Seq<(Seq<char>, V)>, i: int)
    requires
        sorted_pairs(s),
        0 <= i < s.len(),
    ensures
        pairs_map(s).contains_key(s[i].0),
        pairs_map(s)[s[i].0] == s[i].1,
{
    let k = s[i].0;
    assert(has_key(s, k));
    let j = key_index(s, k);
    assert(pairs_map(s)[k] == s[j].1);
    if j != i {
        if j < i {
            assert(key_lt(s[j].0, s[i].0));
        } else {
            assert(key_lt(s[i].0, s[j].0));
        }
        lemma_key_lt_irreflexive(k);
    }
}

impl<V> AddrMap<V> {
    /// The entries, as (address, value) pairs in storage order.
    pub closed spec fn pairs(&self) -> Seq<(Seq<char>, V)> {
        self.entries@.map_values(|e: (String, V)| (e.0@, e.1))
    }

    /// The entries are strictly increasing in storage order.
    pub open spec fn wf(&self) -> bool {
        sorted_pairs(self.pairs())
    }

    /// The addresses, in storage order.
    pub open spec fn keys(&self) -> Seq<Seq<char>> {
        self.pairs().map_values(|p: (Seq<char>, V)| p.0)
    }

    pub open spec fn view(&self) -> Map<Seq<char>, V> {
        pairs_map(self.pairs())
    }

    pub fn new() -> (m: Self)
        ensures
            m.wf(),
            m.pairs() == Seq::<(Seq<char>, V)>::empty(),
            m@ == Map::<Seq<char>, V>::empty(),
    {
        let m = AddrMap { entries: Vec::new() };
        assert(m.pairs() =~= Seq::<(Seq<char>, V)>::empty());
        assert(m@ =~= Map::<Seq<char>, V>::empty());
        m
    }

    pub fn len(&self) -> (n: usize)
        ensures
            n == self.pairs().len(),
    {
        self.entries.len()
    }

    /// The `i`-th entry in storage order.
    pub fn entry(&self, i: usize) -> (e: (&String, &V))
        requires
            i < self.pairs().len(),
        ensures
            e.0@ == self.pairs()[i as int].0,
            *e.1 == self.pairs()[i as int].1,
    {
        let e = &self.entries[i];
        (&e.0, &e.1)
    }

    /// Where `k` stands (first component true) or would stand (false).
    fn find(&self, k: &String) -> (r: (bool, usize))
        requires
            self.wf(),
        ensures
            r.1 <= self.pairs().len(),
            forall|j: int| 0 <= j < r.1 ==> key_lt(#[trigger] self.pairs()[j].0, k@),
            forall|j: int| r.1 <= j < self.pairs().len() ==> !key_lt(#[trigger] self.pairs()[j].0, k@),
            r.0 == (r.1 < self.pairs().len() && self.pairs()[r.1 as int].0 == k@),
            r.0 == has_key(self.pairs(), k@),
            r.1 == slot(self.pairs(), k@),
    {
        let ghost s = self.pairs();
        let mut i: usize = 0;
        while i < self.entries.len() && key_less(&self.entries[i].0, k)
            invariant
                s == self.pairs(),
                self.wf(),
                i <= s.len(),
                forall|j: int| 0 <= j < i ==> key_lt(#[trigger] s[j].0, k@),
            decreases s.len() - i,
        {
            i = i + 1;
        }
        proof {
            assert forall|j: int| i <= j < s.len() implies !key_lt(#[trigger] s[j].0, k@) by {
                if j > i {
                    assert(key_lt(s[i as int].0, s[j].0));
                    if key_lt(s[j].0, k@) {
                        lemma_key_lt_transitive(s[i as int].0, s[j].0, k@);
                    }
                }
            }
        }
        let found = i < self.entries.len() && self.entries[i].0 == *k;
        proof {
            if has_key(s, k@) {
                let w = choose|w: int| 0 <= w < s.len() && #[trigger] s[w].0 == k@;
                if w < i {
                    lemma_key_lt_irreflexive(k@);
                }
                if w > i {
                    assert(key_lt(s[i as int].0, s[w].0));
                    if s[i as int].0 != k@ {
                        lemma_key_lt_total(s[i as int].0, k@);
                    }
                }
            }
            assert(is_slot(s, k@, i as int));
            let c = slot(s, k@);
            if c < i {
                assert(!key_lt(s[c].0, k@));
            }
            if c > i {
                assert(key_lt(s[i as int].0, k@));
            }
        }
        (found, i)
    }

    /// The value stored under `k`.
    pub fn get(&self, k: &String) -> (r: Option<&V>)
        requires
            self.wf(),
        ensures
            r == (if self@.contains_key(k@) { Some(&self@[k@]) } else { None }),
    {
        let (found, i) = self.find(k);
        if found {
            proof {
                lemma_pairs_map_at(self.pairs(), i as int);
            }
            Some(&self.entries[i].1)
        } else {
            None
        }
    }

    pub fn contains(&self, k: &String) -> (r: bool)
        requires
            self.wf(),
        ensures
            r == self@.contains_key(k@),
    {
        self.find(k).0
    }

    /// Stores `v` under `k`, replacing what was there.
    pub fn insert(&mut self, k: String, v: V)
        requires
            old(self).wf(),
        ensures
            final(self).wf(),
            final(self)@ == old(self)@.insert(k@, v),
            has_key(old(self).pairs(), k@) ==> 0 <= slot(old(self).pairs(), k@) < old(self).pairs().len() && old(self).pairs()[slot(old(self).pairs(), k@)].0 == k@,
            !has_key(old(self).pairs(), k@) ==> 0 <= slot(old(self).pairs(), k@) <= old(self).pairs().len(),
            has_key(old(self).pairs(), k@) ==> final(self).pairs() == old(self).pairs().update(
                slot(old(self).pairs(), k@),
                (k@, v),
            ),
            !has_key(old(self).pairs(), k@) ==> final(self).pairs() == old(self).pairs().insert(
                slot(old(self).pairs(), k@),
                (k@, v),
            ),
    {
        let ghost s = self.pairs();
        let ghost kv = k@;
        let (found, i) = self.find(&k);
        if found {
            self.entries.set(i, (k, v));
            assert(self.pairs() =~= s.update(i as int, (kv, v)));
        } else {
            self.entries.insert(i, (k, v));
            assert(self.pairs() =~= s.insert(i as int, (kv, v)));
        }
        let ghost t = self.pairs();
        proof {
            assert forall|a: int, b: int| 0 <= a < b < t.len() implies key_lt(
                #[trigger] t[a].0,
                #[trigger] t[b].0,
            ) by {
                if !found {
                    if a < i && b > i {
                        assert(t[b].0 == s[b - 1].0);
                        if b - 1 > i {
                            assert(key_lt(s[i as int].0, s[b - 1].0));
                        }
                        if i < s.len() && s[i as int].0 != kv {
                            lemma_key_lt_total(s[i as int].0, kv);
                            if b - 1 > i {
                                lemma_key_lt_transitive(kv, s[i as int].0, s[b - 1].0);
                            }
                        }
                        lemma_key_lt_transitive(t[a].0, kv, t[b].0);
                    } else if a == i && b > i {
                        if s[b - 1].0 != kv {
                            lemma_key_lt_total(s[b - 1].0, kv);
                        }
                    } else if a < i && b == i {
                    } else if a > i {
                        assert(t[a].0 == s[a - 1].0 && t[b].0 == s[b - 1].0);
                    } else {
                        assert(t[a].0 == s[a].0);
                    }
                }
            }
            assert forall|kk: Seq<char>| #![auto] self@.contains_key(kk) <==> old(self)@.insert(
                kv,
                v,
            ).contains_key(kk) by {
                if has_key(t, kk) {
                    let w = choose|w: int| 0 <= w < t.len() && #[trigger] t[w].0 == kk;
                    if kk != kv {
                        if found || w < i {
                            assert(s[w].0 == kk);
                        } else {
                            assert(s[w - 1].0 == kk);
                        }
                    }
                }
                if has_key(s, kk) && kk != kv {
                    let w = choose|w: int| 0 <= w < s.len() && #[trigger] s[w].0 == kk;
                    if found || w < i {
                        assert(t[w].0 == kk);
                    } else {
                        assert(t[w + 1].0 == kk);
                    }
                }
                if kk == kv {
                    assert(t[i as int].0 == kv);
                }
            }
            assert forall|kk: Seq<char>| #[trigger] self@.contains_key(kk) implies self@[kk]
                == old(self)@.insert(kv, v)[kk] by {
                let w = choose|w: int| 0 <= w < t.len() && #[trigger] t[w].0 == kk;
                lemma_pairs_map_at(t, w);
                if kk != kv {
                    if found || w < i {
                        lemma_pairs_map_at(s, w);
                    } else {
                        lemma_pairs_map_at(s, w - 1);
                    }
                }
            }
            assert(self@ =~= old(self)@.insert(kv, v));
        }
    }

    /// Drops the entry under `k`, if any.
    pub fn remove(&mut self, k: &String)
        requires
            old(self).wf(),
        ensures
            final(self).wf(),
            final(self)@ == old(self)@.remove(k@),
            has_key(old(self).pairs(), k@) ==> final(self).pairs() == old(self).pairs().remove(
                slot(old(self).pairs(), k@),
            ),
            !has_key(old(self).pairs(), k@) ==> final(self).pairs() == old(self).pairs(),
    {
        let ghost s = self.pairs();
        let (found, i) = self.find(k);
        if found {
            self.entries.remove(i);
            assert(self.pairs() =~= s.remove(i as int));
            let ghost t = self.pairs();
            proof {
                assert forall|a: int, b: int| 0 <= a < b < t.len() implies key_lt(
                    #[trigger] t[a].0,
                    #[trigger] t[b].0,
                ) by {
                    if a < i && b >= i {
                        assert(t[b].0 == s[b + 1].0);
                    } else if a >= i {
                        assert(t[a].0 == s[a + 1].0 && t[b].0 == s[b + 1].0);
                    }
                }
                assert forall|kk: Seq<char>| #![auto] self@.contains_key(kk) <==> old(self)@.remove(k@).contains_key(kk) by {
                    if has_key(t, kk) {
                        let w = choose|w: int| 0 <= w < t.len() && #[trigger] t[w].0 == kk;
                        if w < i {
                            assert(s[w].0 == kk);
                            assert(key_lt(s[w].0, s[i as int].0));
                        } else {
                            assert(s[w + 1].0 == kk);
                            assert(key_lt(s[i as int].0, s[w + 1].0));
                        }
                        if kk == k@ {
                            lemma_key_lt_irreflexive(kk);
                        }
                    }
                    if has_key(s, kk) && kk != k@ {
                        let w = choose|w: int| 0 <= w < s.len() && #[trigger] s[w].0 == kk;
                        if w < i {
                            assert(t[w].0 == kk);
                        } else {
                            assert(w != i);
                            assert(t[w - 1].0 == kk);
                        }
                    }
                }
                assert forall|kk: Seq<char>| #[trigger] self@.contains_key(kk) implies self@[kk]
                    == old(self)@.remove(k@)[kk] by {
                    let w = choose|w: int| 0 <= w < t.len() && #[trigger] t[w].0 == kk;
                    lemma_pairs_map_at(t, w);
                    if w < i {
                        lemma_pairs_map_at(s, w);
                        assert(key_lt(s[w].0, s[i as int].0));
                        if kk == k@ {
                            lemma_key_lt_irreflexive(kk);
                        }
                    } else {
                        lemma_pairs_map_at(s, w + 1);
                        assert(key_lt(s[i as int].0, s[w + 1].0));
                        if kk == k@ {
                            lemma_key_lt_irreflexive(kk);
                        }
                    }
                }
                assert(self@ =~= old(self)@.remove(k@));
            }
        } else {
            assert(old(self)@.remove(k@) =~= old(self)@);
        }
    }
}

/// The amount under `k`, zero when there is none.
pub open spec fn amount_of(m: Map<Seq<char>, u128>, k: Seq<char>) -> u128 {
    if m.contains_key(k) {
        m[k]
    } else {
        0
    }
}

/// Sum of all amounts in the map.
pub open spec fn total(m: AddrMap<u128>) -> int {
    sum_values(m.pairs())
}

impl AddrMap<u128> {
    /// A copy of the amounts.
    pub fn duplicate(&self) -> (r: AddrMap<u128>)
        ensures
            r.pairs() == self.pairs(),
    {
        let mut entries: Vec<(String, u128)> = Vec::new();
        let mut i: usize = 0;
        while i < self.entries.len()
            invariant
                i <= self.entries@.len(),
                entries@.map_values(|e: (String, u128)| (e.0@, e.1)) == self.pairs().take(i as int),
            decreases self.entries@.len() - i,
        {
            let k = self.entries[i].0.clone();
            let v = self.entries[i].1;
            let ghost before = entries@;
            entries.push((k, v));
            assert(entries@.map_values(|e: (String, u128)| (e.0@, e.1)) =~= before.map_values(
                |e: (String, u128)| (e.0@, e.1),
            ).push((k@, v)));
            assert(self.pairs()[i as int] == (self.entries@[i as int].0@, self.entries@[i as int].1));
            assert(self.pairs().take(i + 1) =~= self.pairs().take(i as int).push(self.pairs()[i as int]));
            i = i + 1;
        }
        assert(self.pairs().take(self.entries@.len() as int) =~= self.pairs());
        AddrMap { entries }
    }
}

/// Stores amount `v` under `k`; the total changes by the difference.
pub fn set_amount(m: &mut AddrMap<u128>, k: String, v: u128)
    requires
        old(m).wf(),
    ensures
        final(m).wf(),
        final(m)@ == old(m)@.insert(k@, v),
        total(*final(m)) == total(*old(m)) - amount_of(old(m)@, k@) + v,
{
    let ghost s = m.pairs();
    let ghost kv = k@;
    m.insert(k, v);
    proof {
        let i = slot(s, kv);
        if has_key(s, kv) {
            lemma_pairs_map_at(s, i);
            lemma_sum_values_update(s, i, (kv, v));
        } else {
            lemma_sum_values_insert(s, i, (kv, v));
        }
    }
}

pub proof fn lemma_amount_le_total(m: AddrMap<u128>, k: Seq<char>)
    requires
        m.wf(),
    ensures
        amount_of(m@, k) <= total(m),
{
    let s = m.pairs();
    lemma_sum_values_nonneg(s);
    if m@.contains_key(k) {
        let i = key_index(s, k);
        assert(has_key(s, k));
        lemma_pairs_map_at(s, i);
        lemma_sum_values_remove(s, i);
        lemma_sum_values_nonneg(s.remove(i));
    }
}

/// The keys set to true, in order.
pub open spec fn enabled_keys(s: Seq<(Seq<char>, bool)>) -> Seq<Seq<char>>
    decreases s.len(),
{
    if s.len() == 0 {
        seq![]
    } else if s.last().1 {
        enabled_keys(s.drop_last()).push(s.last().0)
    } else {
        enabled_keys(s.drop_last())
    }
}

/// The keys set to true, in storage order.
pub fn enabled_list(m: &AddrMap<bool>) -> (r: Vec<String>)
    requires
        m.wf(),
    ensures
        r@.map_values(|x: String| x@) == enabled_keys(m.pairs()),
{
    let ghost ps = m.pairs();
    let mut out: Vec<String> = Vec::new();
    let mut i: usize = 0;
    while i < m.len()
        invariant
            ps == m.pairs(),
            i <= ps.len(),
            out@.map_values(|x: String| x@) == enabled_keys(ps.take(i as int)),
        decreases ps.len() - i,
    {
        let (k, on) = m.entry(i);
        assert(ps.take(i + 1).drop_last() =~= ps.take(i as int));
        if *on {
            out.push(k.clone());
        }
        assert(out@.map_values(|x: String| x@) =~= enabled_keys(ps.take(i + 1)));
        i = i + 1;
    }
    assert(ps.take(ps.len() as int) =~= ps);
    out
}

} // verus!
