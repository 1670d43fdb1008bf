//! A map keyed by a numeric id, kept in ascending id order (the order in
//! which the contracts' storage walks such maps).
use vstd::prelude::*;

verus! {

pub open spec fn id_lt(a: u64, b: u64) -> bool {
    a < b
}

pub proof fn lemma_has_id_dom<V>(s: Seq<(u64, V)>, k: u64)
    ensures
        has_id(s, k) == ids_map(s).contains_key(k),
{
}

/// A map keyed by a numeric id whose entries stand in ascending id order.
pub struct IdMap<V> {
    entries: Vec<(u64, V)>,
}

/// The position at which key `k` stands, or would stand, among `s`.
pub open spec fn id_slot<V>(s: Seq<(u64, V)>, k: u64) -> int {
    choose|i: int| #[trigger] is_id_slot(s, k, i)
}

/// Every key before position `i` precedes `k`, and none from `i` on does.
pub open spec fn is_id_slot<V>(s: Seq<(u64, V)>, k: u64, i: int) -> bool {
    &&& 0 <= i <= s.len()
    &&& forall|j: int| 0 <= j < i ==> id_lt(#[trigger] s[j].0, k)
    &&& forall|j: int| i <= j < s.len() ==> !id_lt(#[trigger] s[j].0, k)
}

pub open spec fn sorted_ids<V>(s: Seq<(u64, V)>) -> bool {
    forall|i: int, j: int| 0 <= i < j < s.len() ==> id_lt(#[trigger] s[i].0, #[trigger] s[j].0)
}

pub open spec fn has_id<V>(s: Seq<(u64, V)>, k: u64) -> bool {
    exists|i: int| 0 <= i < s.len() && #[trigger] s[i].0 == k
}

/// A position at which key `k` stands among `s`.
pub open spec fn id_index<V>(s: Seq<(u64, V)>, k: u64) -> int {
    choose|i: int| 0 <= i < s.len() && #[trigger] s[i].0 == k
}

pub open spec fn ids_map<V>(s: Seq<(u64, V)>) -> Map<u64, V> {
    Map::new(|k: u64| has_id(s, k), |k: u64| s[id_index(s, k)].1)
}

pub proof fn lemma_ids_map_at<V>(s: Seq<(u64, V)>, i: int)
    requires
        sorted_ids(s),
        0 <= i < s.len(),
    ensures
        ids_map(s).contains_key(s[i].0),
        ids_map(s)[s[i].0] == s[i].1,
{
    let k = s[i].0;
    assert(has_id(s, k));
    let j = id_index(s, k);
    assert(ids_map(s)[k] == s[j].1);
    if j != i {
        if j < i {
            assert(id_lt(s[j].0, s[i].0));
        } else {
            assert(id_lt(s[i].0, s[j].0));
        }
        
    }
}

impl<V> IdMap<V> {
    /// The entries, as (address, value) pairs in storage order.
    pub closed spec fn pairs(&self) -> Seq<(u64, V)> {
        self.entries@.map_values(|e: (u64, V)| (e.0, e.1))
    }

    /// The entries are strictly increasing in storage order.
    pub open spec fn wf(&self) -> bool {
        sorted_ids(self.pairs())
    }

    /// The addresses, in storage order.
    pub open spec fn keys(&self) -> Seq<u64> {
        self.pairs().map_values(|p: (u64, V)| p.0)
    }

    pub open spec fn view(&self) -> Map<u64, V> {
        ids_map(self.pairs())
    }

    pub fn new() -> (m: Self)
        ensures
            m.wf(),
            m.pairs() == Seq::<(u64, V)>::empty(),
            m@ == Map::<u64, V>::empty(),
    {
        let m = IdMap { entries: Vec::new() };
        assert(m.pairs() =~= Seq::<(u64, V)>::empty());
        assert(m@ =~= Map::<u64, V>::empty());
        m
    }

    pub fn len(&self) -> (n: usize)
        ensures
            n == self.pairs().len(),
    {
        self.entries.len()
    }

    /// The `i`-th entry in storage order.
    pub fn entry(&self, i: usize) -> (e: (u64, &V))
        requires
            i < self.pairs().len(),
        ensures
            e.0 == self.pairs()[i as int].0,
            *e.1 == self.pairs()[i as int].1,
    {
        let e = &self.entries[i];
        (e.0, &e.1)
    }

    /// Where `k` stands (first component true) or would stand (false).
    fn find(&self, k: u64) -> (r: (bool, usize))
        requires
            self.wf(),
        ensures
            r.1 <= self.pairs().len(),
            forall|j: int| 0 <= j < r.1 ==> id_lt(#[trigger] self.pairs()[j].0, k),
            forall|j: int| r.1 <= j < self.pairs().len() ==> !id_lt(#[trigger] self.pairs()[j].0, k),
            r.0 == (r.1 < self.pairs().len() && self.pairs()[r.1 as int].0 == k),
            r.0 == has_id(self.pairs(), k),
            r.1 == id_slot(self.pairs(), k),
    {
        let ghost s = self.pairs();
        let mut i: usize = 0;
        while i < self.entries.len() && self.entries[i].0 < k
            invariant
                s == self.pairs(),
                self.wf(),
                i <= s.len(),
                forall|j: int| 0 <= j < i ==> id_lt(#[trigger] s[j].0, k),
            decreases s.len() - i,
        {
            i = i + 1;
        }
        proof {
            assert forall|j: int| i <= j < s.len() implies !id_lt(#[trigger] s[j].0, k) by {
                if j > i {
                    assert(id_lt(s[i as int].0, s[j].0));
                    if id_lt(s[j].0, k) {
                        
                    }
                }
            }
        }
        let found = i < self.entries.len() && self.entries[i].0 == k;
        proof {
            if has_id(s, k) {
                let w = choose|w: int| 0 <= w < s.len() && #[trigger] s[w].0 == k;
                if w < i {
                    
                }
                if w > i {
                    assert(id_lt(s[i as int].0, s[w].0));
                    if s[i as int].0 != k {
                        
                    }
                }
            }
            assert(is_id_slot(s, k, i as int));
            let c = id_slot(s, k);
            if c < i {
                assert(!id_lt(s[c].0, k));
            }
            if c > i {
                assert(id_lt(s[i as int].0, k));
            }
        }
        (found, i)
    }

    /// The value stored under `k`.
    pub fn get(&self, k: u64) -> (r: Option<&V>)
        requires
            self.wf(),
        ensures
            r == (if self@.contains_key(k) { Some(&self@[k]) } else { None }),
    {
        let (found, i) = self.find(k);
        if found {
            proof {
                lemma_ids_map_at(self.pairs(), i as int);
            }
            Some(&self.entries[i].1)
        } else {
            None
        }
    }

    pub fn contains(&self, k: u64) -> (r: bool)
        requires
            self.wf(),
        ensures
            r == self@.contains_key(k),
    {
        self.find(k).0
    }

    /// Stores `v` under `k`, replacing what was there.
    pub fn insert(&mut self, k: u64, v: V)
        requires
            old(self).wf(),
        ensures
            final(self).wf(),
            final(self)@ == old(self)@.insert(k, v),
            has_id(old(self).pairs(), k) ==> 0 <= id_slot(old(self).pairs(), k) < old(self).pairs().len() && old(self).pairs()[id_slot(old(self).pairs(), k)].0 == k,
            !has_id(old(self).pairs(), k) ==> 0 <= id_slot(old(self).pairs(), k) <= old(self).pairs().len(),            has_id(old(self).pairs(), k) ==> final(self).pairs() == old(self).pairs().update(
                id_slot(old(self).pairs(), k),
                (k, v),
            ),
            !has_id(old(self).pairs(), k) ==> final(self).pairs() == old(self).pairs().insert(
                id_slot(old(self).pairs(), k),
                (k, v),
            ),
    {
        let ghost s = self.pairs();
        let ghost kv = k;
        let (found, i) = self.find(k);
        if found {
            self.entries.set(i, (k, v));
            assert(self.pairs() =~= s.update(i as int, (kv, v)));
        } else {
            self.entries.insert(i, (k, v));
            assert(self.pairs() =~= s.insert(i as int, (kv, v)));
        }
        let ghost t = self.pairs();
        proof {
            assert forall|a: int, b: int| 0 <= a < b < t.len() implies id_lt(
                #[trigger] t[a].0,
                #[trigger] t[b].0,
            ) by {
                if !found {
                    if a < i && b > i {
                        assert(t[b].0 == s[b - 1].0);
                        if b - 1 > i {
                            assert(id_lt(s[i as int].0, s[b - 1].0));
                        }
                        if i < s.len() && s[i as int].0 != kv {
                            
                            if b - 1 > i {
                                
                            }
                        }
                        
                    } else if a == i && b > i {
                        if s[b - 1].0 != kv {
                            
                        }
                    } else if a < i && b == i {
                    } else if a > i {
                        assert(t[a].0 == s[a - 1].0 && t[b].0 == s[b - 1].0);
                    } else {
                        assert(t[a].0 == s[a].0);
                    }
                }
            }
            assert forall|kk: u64| #![auto] self@.contains_key(kk) <==> old(self)@.insert(
                kv,
                v,
            ).contains_key(kk) by {
                if has_id(t, kk) {
                    let w = choose|w: int| 0 <= w < t.len() && #[trigger] t[w].0 == kk;
                    if kk != kv {
                        if found || w < i {
                            assert(s[w].0 == kk);
                        } else {
                            assert(s[w - 1].0 == kk);
                        }
                    }
                }
                if has_id(s, kk) && kk != kv {
                    let w = choose|w: int| 0 <= w < s.len() && #[trigger] s[w].0 == kk;
                    if found || w < i {
                        assert(t[w].0 == kk);
                    } else {
                        assert(t[w + 1].0 == kk);
                    }
                }
                if kk == kv {
                    assert(t[i as int].0 == kv);
                }
            }
            assert forall|kk: u64| #[trigger] self@.contains_key(kk) implies self@[kk]
                == old(self)@.insert(kv, v)[kk] by {
                let w = choose|w: int| 0 <= w < t.len() && #[trigger] t[w].0 == kk;
                lemma_ids_map_at(t, w);
                if kk != kv {
                    if found || w < i {
                        lemma_ids_map_at(s, w);
                    } else {
                        lemma_ids_map_at(s, w - 1);
                    }
                }
            }
            assert(self@ =~= old(self)@.insert(kv, v));
        }
    }

    /// Drops the entry under `k`, if any.
    pub fn remove(&mut self, k: u64)
        requires
            old(self).wf(),
        ensures
            final(self).wf(),
            final(self)@ == old(self)@.remove(k),
            has_id(old(self).pairs(), k) ==> final(self).pairs() == old(self).pairs().remove(
                id_slot(old(self).pairs(), k),
            ),
            !has_id(old(self).pairs(), k) ==> final(self).pairs() == old(self).pairs(),
    {
        let ghost s = self.pairs();
        let (found, i) = self.find(k);
        if found {
            self.entries.remove(i);
            assert(self.pairs() =~= s.remove(i as int));
            let ghost t = self.pairs();
            proof {
                assert forall|a: int, b: int| 0 <= a < b < t.len() implies id_lt(
                    #[trigger] t[a].0,
                    #[trigger] t[b].0,
                ) by {
                    if a < i && b >= i {
                        assert(t[b].0 == s[b + 1].0);
                    } else if a >= i {
                        assert(t[a].0 == s[a + 1].0 && t[b].0 == s[b + 1].0);
                    }
                }
                assert forall|kk: u64| #![auto] self@.contains_key(kk) <==> old(self)@.remove(k).contains_key(kk) by {
                    if has_id(t, kk) {
                        let w = choose|w: int| 0 <= w < t.len() && #[trigger] t[w].0 == kk;
                        if w < i {
                            assert(s[w].0 == kk);
                            assert(id_lt(s[w].0, s[i as int].0));
                        } else {
                            assert(s[w + 1].0 == kk);
                            assert(id_lt(s[i as int].0, s[w + 1].0));
                        }
                        if kk == k {
                            
                        }
                    }
                    if has_id(s, kk) && kk != k {
                        let w = choose|w: int| 0 <= w < s.len() && #[trigger] s[w].0 == kk;
                        if w < i {
                            assert(t[w].0 == kk);
                        } else {
                            assert(w != i);
                            assert(t[w - 1].0 == kk);
                        }
                    }
                }
                assert forall|kk: u64| #[trigger] self@.contains_key(kk) implies self@[kk]
                    == old(self)@.remove(k)[kk] by {
                    let w = choose|w: int| 0 <= w < t.len() && #[trigger] t[w].0 == kk;
                    lemma_ids_map_at(t, w);
                    if w < i {
                        lemma_ids_map_at(s, w);
                        assert(id_lt(s[w].0, s[i as int].0));
                        if kk == k {
                            
                        }
                    } else {
                        lemma_ids_map_at(s, w + 1);
                        assert(id_lt(s[i as int].0, s[w + 1].0));
                        if kk == k {
                            
                        }
                    }
                }
                assert(self@ =~= old(self)@.remove(k));
            }
        } else {
            assert(old(self)@.remove(k) =~= old(self)@);
        }
    }
}


/// `c` splits `s` into the entries with ids up to `start` and those after.
pub open spec fn splits_at<V>(s: Seq<(u64, V)>, start: u64, c: int) -> bool {
    &&& 0 <= c <= s.len()
    &&& forall|j: int| 0 <= j < c ==> #[trigger] s[j].0 <= start
    &&& forall|j: int| c <= j < s.len() ==> #[trigger] s[j].0 > start
}

/// The position of the first entry whose id is after `start`.
pub open spec fn first_after<V>(s: Seq<(u64, V)>, start: u64) -> int {
    choose|c: int| splits_at(s, start, c)
}

/// At most `lim` entries with ids after `start`, in ascending id order.
pub open spec fn page<V>(s: Seq<(u64, V)>, start: u64, lim: nat) -> Seq<(u64, V)> {
    let c = first_after(s, start);
    s.subrange(c, if c + lim < s.len() { c + lim } else { s.len() as int })
}

impl<V> IdMap<V> {
    /// The bounds, in storage order, of `page(self.pairs(), start, lim)`.
    pub fn page_bounds(&self, start: u64, lim: usize) -> (r: (usize, usize))
        requires
            self.wf(),
        ensures
            r.0 == first_after(self.pairs(), start),
            r.1 == (if r.0 + lim < self.pairs().len() { r.0 + lim } else { self.pairs().len() as int }),
            r.0 <= r.1 <= self.pairs().len(),
    {
        let ghost s = self.pairs();
        let mut i: usize = 0;
        while i < self.entries.len() && self.entries[i].0 <= start
            invariant
                s == self.pairs(),
                i <= s.len(),
                forall|j: int| 0 <= j < i ==> #[trigger] s[j].0 <= start,
            decreases s.len() - i,
        {
            i = i + 1;
        }
        proof {
            assert(splits_at(s, start, i as int)) by {
                assert forall|j: int| i <= j < s.len() implies #[trigger] s[j].0 > start by {
                    if j > i {
                        assert(id_lt(s[i as int].0, s[j].0));
                    }
                }
            }
            let c = first_after(s, start);
            assert(splits_at(s, start, c));
            if c < i {
                assert(s[c].0 > start);
            }
            if c > i {
                assert(s[i as int].0 <= start);
            }
        }
        let n = self.entries.len();
        let hi = if lim < n - i { i + lim } else { n };
        (i, hi)
    }
}
} // verus!
