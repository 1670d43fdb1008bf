//! Amounts keyed by an ordered pair of addresses (owner, spender).
use vstd::prelude::*;

verus! {

pub type PairKey = (Seq<char>, Seq<char>);

pub open spec fn unique_keys(s: Seq<(PairKey, u128)>) -> bool {
    forall|i: int, j: int| 0 <= i < s.len() && 0 <= j < s.len() && i != j ==> #[trigger] s[i].0 != #[trigger] s[j].0
}

pub open spec fn has_pair(s: Seq<(PairKey, u128)>, k: PairKey) -> bool {
    exists|i: int| 0 <= i < s.len() && #[trigger] s[i].0 == k
}

pub open spec fn pair_index(s: Seq<(PairKey, u128)>, k: PairKey) -> int {
    choose|i: int| 0 <= i < s.len() && #[trigger] s[i].0 == k
}

pub open spec fn rows_map(s: Seq<(PairKey, u128)>) -> Map<PairKey, u128> {
    Map::new(|k: PairKey| has_pair(s, k), |k: PairKey| s[pair_index(s, k)].1)
}

pub proof fn lemma_rows_map_at(s: Seq<(PairKey, u128)>, i: int)
    requires
        unique_keys(s),
        0 <= i < s.len(),
    ensures
        rows_map(s).contains_key(s[i].0),
        rows_map(s)[s[i].0] == s[i].1,
{
    let k = s[i].0;
    assert(has_pair(s, k));
    let j = pair_index(s, k);
    assert(rows_map(s)[k] == s[j].1);
}

/// Amounts keyed by (owner, spender).
pub struct PairMap {
    rows: Vec<(String, String, u128)>,
}

impl PairMap {
    pub closed spec fn seq(&self) -> Seq<(PairKey, u128)> {
        self.rows@.map_values(|r: (String, String, u128)| ((r.0@, r.1@), r.2))
    }

    pub open spec fn wf(&self) -> bool {
        unique_keys(self.seq())
    }

    pub open spec fn view(&self) -> Map<PairKey, u128> {
        rows_map(self.seq())
    }

    pub fn new() -> (m: Self)
        ensures
            m.wf(),
            m@ == Map::<PairKey, u128>::empty(),
    {
        let m = PairMap { rows: Vec::new() };
        assert(m@ =~= Map::<PairKey, u128>::empty());
        m
    }

    pub fn len(&self) -> (n: usize)
        ensures
            n == self.seq().len(),
    {
        self.rows.len()
    }

    /// The `i`-th row.
    pub fn row(&self, i: usize) -> (r: (&String, &String, u128))
        requires
            i < self.seq().len(),
        ensures
            (r.0@, r.1@) == self.seq()[i as int].0,
            r.2 == self.seq()[i as int].1,
    {
        let r = &self.rows[i];
        (&r.0, &r.1, r.2)
    }

    fn find(&self, a: &String, b: &String) -> (r: Option<usize>)
        requires
            self.wf(),
        ensures
            r matches Some(i) ==> i < self.seq().len() && self.seq()[i as int].0 == (a@, b@),
            r is None ==> !has_pair(self.seq(), (a@, b@)),
    {
        let mut i: usize = 0;
        while i < self.rows.len()
            invariant
                i <= self.seq().len(),
                forall|j: int| 0 <= j < i ==> #[trigger] self.seq()[j].0 != (a@, b@),
            decreases self.seq().len() - i,
        {
            if self.rows[i].0 == *a && self.rows[i].1 == *b {
                return Some(i);
            }
            i = i + 1;
        }
        None
    }

    /// The amount under (a, b), if any.
    pub fn get(&self, a: &String, b: &String) -> (r: Option<u128>)
        requires
            self.wf(),
        ensures
            r == (if self@.contains_key((a@, b@)) { Some(self@[(a@, b@)]) } else { None }),
    {
        match self.find(a, b) {
            Some(i) => {
                proof {
                    lemma_rows_map_at(self.seq(), i as int);
                }
                Some(self.rows[i].2)
            },
            None => None,
        }
    }

    /// Stores `v` under (a, b).
    pub fn insert(&mut self, a: String, b: String, v: u128)
        requires
            old(self).wf(),
        ensures
            final(self).wf(),
            final(self)@ == old(self)@.insert((a@, b@), v),
    {
        let ghost s = self.seq();
        let ghost k = (a@, b@);
        match self.find(&a, &b) {
            Some(i) => {
                self.rows.set(i, (a, b, v));
                assert(self.seq() =~= s.update(i as int, (k, v)));
            },
            None => {
                self.rows.push((a, b, v));
                assert(self.seq() =~= s.push((k, v)));
            },
        }
        let ghost t = self.seq();
        proof {
            assert forall|kk: PairKey| #![auto] self@.contains_key(kk) <==> old(self)@.insert(
                k,
                v,
            ).contains_key(kk) by {
                if has_pair(t, kk) && kk != k {
                    let w = choose|w: int| 0 <= w < t.len() && #[trigger] t[w].0 == kk;
                    assert(s[w].0 == kk);
                }
                if has_pair(s, kk) {
                    let w = choose|w: int| 0 <= w < s.len() && #[trigger] s[w].0 == kk;
                    if kk != k {
                        assert(t[w].0 == kk);
                    }
                }
                if kk == k {
                    if has_pair(s, k) {
                        let w = choose|w: int| 0 <= w < s.len() && #[trigger] s[w].0 == kk;
                        assert(t[w].0 == kk);
                    } else {
                        assert(t[s.len() as int].0 == kk);
                    }
                }
            }
            assert forall|kk: PairKey| #[trigger] self@.contains_key(kk) implies self@[kk] == old(self)@.insert(k, v)[kk] by {
                let w = choose|w: int| 0 <= w < t.len() && #[trigger] t[w].0 == kk;
                lemma_rows_map_at(t, w);
                if kk != k {
                    lemma_rows_map_at(s, w);
                }
            }
            assert(self@ =~= old(self)@.insert(k, v));
        }
    }

    /// Drops the row under (a, b), if any.
    pub fn remove(&mut self, a: &String, b: &String)
        requires
            old(self).wf(),
        ensures
            final(self).wf(),
            final(self)@ == old(self)@.remove((a@, b@)),
    {
        let ghost s = self.seq();
        let ghost k = (a@, b@);
        match self.find(a, b) {
            Some(i) => {
                self.rows.remove(i);
                assert(self.seq() =~= s.remove(i as int));
                let ghost t = self.seq();
                proof {
                    assert forall|kk: PairKey| #![auto] self@.contains_key(kk) <==> old(self)@.remove(k).contains_key(kk) by {
                        if has_pair(t, kk) {
                            let w = choose|w: int| 0 <= w < t.len() && #[trigger] t[w].0 == kk;
                            if w < i {
                                assert(s[w].0 == kk);
                            } else {
                                assert(s[w + 1].0 == kk);
                            }
                        }
                        if has_pair(s, kk) && kk != k {
                            let w = choose|w: int| 0 <= w < s.len() && #[trigger] s[w].0 == kk;
                            if w < i {
                                assert(t[w].0 == kk);
                            } else {
                                assert(t[w - 1].0 == kk);
                            }
                        }
                    }
                    assert forall|kk: PairKey| #[trigger] self@.contains_key(kk) implies self@[kk]
                        == old(self)@.remove(k)[kk] by {
                        let w = choose|w: int| 0 <= w < t.len() && #[trigger] t[w].0 == kk;
                        lemma_rows_map_at(t, w);
                        if w < i {
                            lemma_rows_map_at(s, w);
                        } else {
                            lemma_rows_map_at(s, w + 1);
                        }
                    }
                    assert(self@ =~= old(self)@.remove(k));
                }
            },
            None => {
                assert(old(self)@.remove(k) =~= old(self)@);
            },
        }
    }
}


/// The amount under `k`, zero where there is no row.
pub open spec fn amount_at(a: Map<PairKey, u128>, k: PairKey) -> int {
    if a.contains_key(k) {
        a[k] as int
    } else {
        0
    }
}

/// The owner side of a key when `by_owner`, else its spender side.
pub open spec fn side(k: PairKey, by_owner: bool) -> Seq<char> {
    if by_owner {
        k.0
    } else {
        k.1
    }
}

/// The side of a key that `side` does not name.
pub open spec fn other(k: PairKey, by_owner: bool) -> Seq<char> {
    if by_owner {
        k.1
    } else {
        k.0
    }
}

/// The key with `x` on the chosen side and `y` on the other.
pub open spec fn mk(x: Seq<char>, y: Seq<char>, by_owner: bool) -> PairKey {
    if by_owner {
        (x, y)
    } else {
        (y, x)
    }
}

/// The rows after every row with `lost` on the chosen side has been added
/// to the row with `new` there instead (same other side) and then dropped.
pub open spec fn merge(a: Map<PairKey, u128>, lost: Seq<char>, new: Seq<char>, by_owner: bool) -> Map<
    PairKey,
    u128,
> {
    Map::new(
        |k: PairKey|
            (a.contains_key(k) || (side(k, by_owner) == new && a.contains_key(
                mk(lost, other(k, by_owner), by_owner),
            ))) && side(k, by_owner) != lost,
        |k: PairKey|
            if side(k, by_owner) == new && a.contains_key(mk(lost, other(k, by_owner), by_owner)) {
                (amount_at(a, k) + a[mk(lost, other(k, by_owner), by_owner)]) as u128
            } else {
                a[k]
            },
    )
}

/// Whether one of the sums that `merge` forms exceeds `u128::MAX`.
pub open spec fn merge_overflows(a: Map<PairKey, u128>, lost: Seq<char>, new: Seq<char>, by_owner: bool) -> bool {
    exists|k: PairKey|
        #[trigger] a.contains_key(k) && side(k, by_owner) == lost && amount_at(
            a,
            mk(new, other(k, by_owner), by_owner),
        ) + a[k] > u128::MAX
}

/// `merge` carried out for the rows of `p` only.
pub open spec fn merge_upto(
    a: Map<PairKey, u128>,
    p: Seq<(PairKey, u128)>,
    lost: Seq<char>,
    new: Seq<char>,
    by_owner: bool,
) -> Map<PairKey, u128> {
    Map::new(
        |k: PairKey|
            (a.contains_key(k) || (side(k, by_owner) == new && has_pair(
                p,
                mk(lost, other(k, by_owner), by_owner),
            ))) && !(side(k, by_owner) == lost && has_pair(p, k)),
        |k: PairKey|
            if side(k, by_owner) == new && has_pair(p, mk(lost, other(k, by_owner), by_owner)) {
                (amount_at(a, k) + a[mk(lost, other(k, by_owner), by_owner)]) as u128
            } else {
                a[k]
            },
    )
}

proof fn lemma_has_pair_take(s: Seq<(PairKey, u128)>, i: int, q: PairKey)
    requires
        0 <= i < s.len(),
    ensures
        has_pair(s.take(i + 1), q) <==> (has_pair(s.take(i), q) || s[i].0 == q),
{
    if has_pair(s.take(i + 1), q) {
        let w = choose|w: int| 0 <= w < s.take(i + 1).len() && #[trigger] s.take(i + 1)[w].0 == q;
        if w < i {
            assert(s.take(i)[w].0 == q);
        }
    }
    if has_pair(s.take(i), q) {
        let w = choose|w: int| 0 <= w < s.take(i).len() && #[trigger] s.take(i)[w].0 == q;
        assert(s.take(i + 1)[w].0 == q);
    }
    if s[i].0 == q {
        assert(s.take(i + 1)[i].0 == q);
    }
}

proof fn lemma_not_earlier(s: Seq<(PairKey, u128)>, i: int)
    requires
        unique_keys(s),
        0 <= i < s.len(),
    ensures
        !has_pair(s.take(i), s[i].0),
{
    if has_pair(s.take(i), s[i].0) {
        let w = choose|w: int| 0 <= w < s.take(i).len() && #[trigger] s.take(i)[w].0 == s[i].0;
        assert(s[w].0 == s[i].0);
    }
}

proof fn lemma_mk_parts(k: PairKey, by_owner: bool)
    ensures
        mk(side(k, by_owner), other(k, by_owner), by_owner) == k,
        side(mk(k.0, k.1, true), true) == k.0,
{
}

impl PairMap {
    /// A copy holding the same rows in the same order.
    pub fn duplicate(&self) -> (r: PairMap)
        ensures
            r.seq() == self.seq(),
    {
        let mut rows: Vec<(String, String, u128)> = Vec::new();
        let mut i: usize = 0;
        while i < self.rows.len()
            invariant
                i <= self.rows@.len(),
                rows@.len() == i,
                forall|j: int|
                    0 <= j < i ==> (#[trigger] rows@[j]).0@ == self.rows@[j].0@ && rows@[j].1@
                        == self.rows@[j].1@ && rows@[j].2 == self.rows@[j].2,
            decreases self.rows@.len() - i,
        {
            let r = &self.rows[i];
            rows.push((r.0.clone(), r.1.clone(), r.2));
            i = i + 1;
        }
        let out = PairMap { rows };
        assert(out.seq() =~= self.seq());
        out
    }

    /// Carries out `merge` on a copy; `None` where a sum overflows.
    pub fn merged(&self, lost: &String, new: &String, by_owner: bool) -> (r: Option<PairMap>)
        requires
            self.wf(),
        ensures
            r is None <==> merge_overflows(self@, lost@, new@, by_owner),
            r matches Some(m) ==> m.wf() && m@ == merge(self@, lost@, new@, by_owner),
    {
        let mut work = self.duplicate();
        let ghost s = self.seq();
        let ghost a = self@;
        let mut i: usize = 0;
        assert(work@ =~= merge_upto(a, s.take(0), lost@, new@, by_owner));
        while i < self.rows.len()
            invariant
                self.wf(),
                s == self.seq(),
                a == self@,
                a == rows_map(s),
                i <= s.len(),
                work.wf(),
                work@ == merge_upto(a, s.take(i as int), lost@, new@, by_owner),
                forall|j: int|
                    0 <= j < i && side(#[trigger] s[j].0, by_owner) == lost@ ==> amount_at(
                        a,
                        mk(new@, other(s[j].0, by_owner), by_owner),
                    ) + s[j].1 <= u128::MAX,
            decreases s.len() - i,
        {
            let ghost w0 = work@;
            let ghost k0 = s[i as int].0;
            let (o, sp, v) = self.row(i);
            let hit = if by_owner { *o == *lost } else { *sp == *lost };
            proof {
                lemma_rows_map_at(s, i as int);
                lemma_not_earlier(s, i as int);
                assert forall|q: PairKey| #[trigger] has_pair(s.take(i + 1), q) <==> (has_pair(s.take(i as int), q) || k0 == q) by {
                    lemma_has_pair_take(s, i as int, q);
                }
            }
            if hit {
                let ghost x = other(k0, by_owner);
                let ghost target = mk(new@, x, by_owner);
                let t0: String = if by_owner { new.clone() } else { o.clone() };
                let t1: String = if by_owner { sp.clone() } else { new.clone() };
                assert((t0@, t1@) == target);
                assert(k0 == mk(lost@, x, by_owner));
                let cur: u128 = match work.get(&t0, &t1) {
                    Some(c) => c,
                    None => 0,
                };
                assert(cur == amount_at(a, target));
                match cur.checked_add(v) {
                    Some(m) => {
                        work.insert(t0, t1, m);
                        work.remove(o, sp);
                        proof {
                            let n = merge_upto(a, s.take(i + 1), lost@, new@, by_owner);
                            assert forall|k: PairKey| #![auto] work@.contains_key(k) <==> n.contains_key(k) by {
                                lemma_mk_parts(k, by_owner);
                            }
                            assert forall|k: PairKey| #[trigger] work@.contains_key(k) implies work@[k] == n[k] by {
                                lemma_mk_parts(k, by_owner);
                            }
                            assert(work@ =~= n);
                        }
                    },
                    None => {
                        assert(merge_overflows(a, lost@, new@, by_owner)) by {
                            assert(a.contains_key(k0));
                        }
                        return None;
                    },
                }
            } else {
                proof {
                    let n = merge_upto(a, s.take(i + 1), lost@, new@, by_owner);
                    assert forall|k: PairKey| #![auto] work@.contains_key(k) <==> n.contains_key(k) by {
                        lemma_mk_parts(k, by_owner);
                        lemma_mk_parts(k0, by_owner);
                    }
                    assert forall|k: PairKey| #[trigger] work@.contains_key(k) implies work@[k] == n[k] by {
                        lemma_mk_parts(k, by_owner);
                        lemma_mk_parts(k0, by_owner);
                    }
                    assert(work@ =~= n);
                }
            }
            i = i + 1;
        }
        proof {
            assert(s.take(s.len() as int) =~= s);
            assert(work@ =~= merge(a, lost@, new@, by_owner));
            if merge_overflows(a, lost@, new@, by_owner) {
                let k = choose|k: PairKey|
                    #[trigger] a.contains_key(k) && side(k, by_owner) == lost@ && amount_at(
                        a,
                        mk(new@, other(k, by_owner), by_owner),
                    ) + a[k] > u128::MAX;
                let j = pair_index(s, k);
                lemma_rows_map_at(s, j);
                assert(side(s[j].0, by_owner) == lost@);
            }
        }
        Some(work)
    }
}

} // verus!
