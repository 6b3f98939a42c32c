//! Sequences of ids in the order that a key gives them.

use vstd::prelude::*;

verus! {

/// Whether id `a` with key `ka` comes before id `b` with key `kb`: the smaller key first, and
/// of equal keys the smaller id.
pub open spec fn precedes(ka: int, a: u64, kb: int, b: u64) -> bool {
    ka < kb || (ka == kb && a < b)
}

/// Whether `s` lists ids in the order of their keys, none of them twice.
pub open spec fn is_ranked(s: Seq<u64>, key: spec_fn(u64) -> int) -> bool {
    forall|i: int, j: int|
        0 <= i < j < s.len() ==> precedes(key(#[trigger] s[i]), s[i], key(#[trigger] s[j]), s[j])
}

/// The ids of a finite set in the order of their keys.
pub open spec fn ranking(ids: Set<u64>, key: spec_fn(u64) -> int) -> Seq<u64> {
    choose|s: Seq<u64>| is_ranked(s, key) && #[trigger] s.to_set() == ids
}

/// The ids of a finite set in ascending order.
pub open spec fn ascending(ids: Set<u64>) -> Seq<u64> {
    ranking(ids, |id: u64| 0)
}

/// Two ranked sequences of the same ids are the same sequence.
pub proof fn ranked_is_unique(s: Seq<u64>, t: Seq<u64>, key: spec_fn(u64) -> int)
    requires
        is_ranked(s, key),
        is_ranked(t, key),
        s.to_set() == t.to_set(),
    ensures
        s == t,
    decreases s.len(),
{
    if s.len() == 0 {
        if t.len() > 0 {
            assert(t.to_set().contains(t[0]));
            assert(s.to_set().contains(t[0]));
        }
    } else {
        assert(s.to_set().contains(s[0]));
        assert(t.to_set().contains(s[0]));
        assert(t.len() > 0);
        assert(t.to_set().contains(s.last()));
        assert(s.to_set().contains(t.last()));
        let i = choose|i: int| 0 <= i < s.len() && s[i] == t.last();
        let j = choose|j: int| 0 <= j < t.len() && t[j] == s.last();
        assert(i == s.len() - 1);
        let s1 = s.drop_last();
        let t1 = t.drop_last();
        assert(s1.to_set() =~= t1.to_set()) by {
            assert forall|x: u64| s1.to_set().contains(x) implies t1.to_set().contains(x) by {
                let k = choose|k: int| 0 <= k < s1.len() && s1[k] == x;
                assert(s[k] == x);
                assert(s.to_set().contains(x));
                assert(t.to_set().contains(x));
                let m = choose|m: int| 0 <= m < t.len() && t[m] == x;
                assert(t1[m] == x);
            }
            assert forall|x: u64| t1.to_set().contains(x) implies s1.to_set().contains(x) by {
                let k = choose|k: int| 0 <= k < t1.len() && t1[k] == x;
                assert(t[k] == x);
                assert(t.to_set().contains(x));
                assert(s.to_set().contains(x));
                let m = choose|m: int| 0 <= m < s.len() && s[m] == x;
                assert(s1[m] == x);
            }
        }
        ranked_is_unique(s1, t1, key);
        assert(s =~= s1.push(s.last()));
        assert(t =~= t1.push(t.last()));
    }
}

/// A ranked sequence is the ranking of its own ids.
pub proof fn ranked_is_ranking(s: Seq<u64>, key: spec_fn(u64) -> int)
    requires
        is_ranked(s, key),
    ensures
        s == ranking(s.to_set(), key),
{
    let r = ranking(s.to_set(), key);
    assert(is_ranked(s, key) && s.to_set() == s.to_set());
    ranked_is_unique(s, r, key);
}

/// `s` with `x` put in front of the first id that it precedes.
pub open spec fn ranked_insert(s: Seq<u64>, x: u64, key: spec_fn(u64) -> int) -> Seq<u64>
    decreases s.len(),
{
    if s.len() == 0 {
        seq![x]
    } else if precedes(key(x), x, key(s[0]), s[0]) {
        seq![x] + s
    } else {
        seq![s[0]] + ranked_insert(s.drop_first(), x, key)
    }
}

proof fn ranked_insert_ranks(s: Seq<u64>, x: u64, key: spec_fn(u64) -> int)
    requires
        is_ranked(s, key),
        !s.contains(x),
    ensures
        is_ranked(ranked_insert(s, x, key), key),
        ranked_insert(s, x, key).to_set() == s.to_set().insert(x),
    decreases s.len(),
{
    let r = ranked_insert(s, x, key);
    if s.len() == 0 {
        assert(r[0] == x);
        assert(r.to_set() =~= s.to_set().insert(x));
    } else if precedes(key(x), x, key(s[0]), s[0]) {
        assert(r.to_set() =~= s.to_set().insert(x)) by {
            assert(r[0] == x);
            assert forall|y: u64| s.to_set().contains(y) implies r.to_set().contains(y) by {
                let k = choose|k: int| 0 <= k < s.len() && s[k] == y;
                assert(r[k + 1] == y);
            }
            assert forall|y: u64| r.to_set().contains(y) implies s.to_set().insert(x).contains(
                y,
            ) by {
                let k = choose|k: int| 0 <= k < r.len() && r[k] == y;
                if k > 0 {
                    assert(s[k - 1] == y);
                }
            }
        }
        assert forall|i: int, j: int| 0 <= i < j < r.len() implies precedes(
            key(#[trigger] r[i]),
            r[i],
            key(#[trigger] r[j]),
            r[j],
        ) by {
            assert(r[j] == s[j - 1]);
            if i > 0 {
                assert(r[i] == s[i - 1]);
            }
        }
    } else {
        let rest = s.drop_first();
        let tail = ranked_insert(rest, x, key);
        assert(s[0] != x) by {
            assert(s.contains(s[0]));
        }
        assert(!rest.contains(x)) by {
            if rest.contains(x) {
                let k = choose|k: int| 0 <= k < rest.len() && rest[k] == x;
                assert(s[k + 1] == x);
            }
        }
        ranked_insert_ranks(rest, x, key);
        assert(r.to_set() =~= s.to_set().insert(x)) by {
            assert forall|y: u64| s.to_set().insert(x).contains(y) implies r.to_set().contains(
                y,
            ) by {
                if y == s[0] {
                    assert(r[0] == y);
                } else {
                    assert(rest.to_set().insert(x).contains(y)) by {
                        if y != x {
                            let k = choose|k: int| 0 <= k < s.len() && s[k] == y;
                            assert(rest[k - 1] == y);
                        }
                    }
                    assert(tail.to_set().contains(y));
                    let k = choose|k: int| 0 <= k < tail.len() && tail[k] == y;
                    assert(r[k + 1] == y);
                }
            }
            assert forall|y: u64| r.to_set().contains(y) implies s.to_set().insert(x).contains(
                y,
            ) by {
                let k = choose|k: int| 0 <= k < r.len() && r[k] == y;
                if k > 0 {
                    assert(tail[k - 1] == y);
                    assert(tail.to_set().contains(y));
                    if y != x {
                        assert(rest.to_set().contains(y));
                        let m = choose|m: int| 0 <= m < rest.len() && rest[m] == y;
                        assert(s[m + 1] == y);
                    }
                } else {
                    assert(s[0] == y);
                }
            }
        }
        assert forall|i: int, j: int| 0 <= i < j < r.len() implies precedes(
            key(#[trigger] r[i]),
            r[i],
            key(#[trigger] r[j]),
            r[j],
        ) by {
            assert(r[j] == tail[j - 1]);
            if i > 0 {
                assert(r[i] == tail[i - 1]);
            } else {
                assert(tail.to_set().contains(tail[j - 1]));
                let y = tail[j - 1];
                if y != x {
                    assert(rest.to_set().contains(y));
                    let m = choose|m: int| 0 <= m < rest.len() && rest[m] == y;
                    assert(s[m + 1] == y);
                    assert(precedes(key(s[0]), s[0], key(s[m + 1]), s[m + 1]));
                }
            }
        }
    }
}

/// Every finite set of ids has a ranking.
pub proof fn ranking_ranks(ids: Set<u64>, key: spec_fn(u64) -> int)
    requires
        ids.finite(),
    ensures
        is_ranked(ranking(ids, key), key),
        ranking(ids, key).to_set() == ids,
        ranking(ids, key).no_duplicates(),
    decreases ids.len(),
{
    if ids.len() == 0 {
        let e = Seq::<u64>::empty();
        assert(e.to_set() =~= ids);
        assert(is_ranked(e, key));
    } else {
        let x = ids.choose();
        let rest = ids.remove(x);
        ranking_ranks(rest, key);
        let s = ranking(rest, key);
        assert(!s.contains(x)) by {
            if s.contains(x) {
                assert(s.to_set().contains(x));
            }
        }
        ranked_insert_ranks(s, x, key);
        assert(rest.insert(x) =~= ids);
        assert(ranked_insert(s, x, key).to_set() == ids);
    }
    let r = ranking(ids, key);
    assert forall|i: int, j: int| 0 <= i < j < r.len() implies r[i] != r[j] by {
        assert(precedes(key(r[i]), r[i], key(r[j]), r[j]));
    }
}

/// The number that is given by its bit 128 and the bits below.
pub open spec fn wide(v: (bool, u128)) -> int {
    if v.0 {
        u128::MAX + 1 + v.1
    } else {
        v.1 as int
    }
}

fn is_less(a: (bool, u128), b: (bool, u128)) -> (r: bool)
    ensures
        r == (wide(a) < wide(b)),
{
    (!a.0 && b.0) || (a.0 == b.0 && a.1 < b.1)
}

/// A growing list of ids in the order of their keys.
pub(crate) struct RankedIds {
    entries: Vec<((bool, u128), u64)>,
}

impl RankedIds {
    pub closed spec fn ids(self) -> Seq<u64> {
        Seq::new(self.entries@.len(), |i: int| self.entries@[i].1)
    }

    /// Whether the ids are in the order of a key, and listed with its values.
    pub closed spec fn ranked_by(self, key: spec_fn(u64) -> int) -> bool {
        &&& is_ranked(self.ids(), key)
        &&& forall|k: int|
            0 <= k < self.entries@.len() ==> wide((#[trigger] self.entries@[k]).0) == key(
                self.entries@[k].1,
            )
    }

    pub fn new() -> (r: Self)
        ensures
            r.ids() == Seq::<u64>::empty(),
            forall|key: spec_fn(u64) -> int| r.ranked_by(key),
    {
        let r = RankedIds { entries: Vec::new() };
        assert(r.ids() =~= Seq::<u64>::empty());
        r
    }

    /// Adds an id with its key.
    pub fn insert(&mut self, value: (bool, u128), id: u64, Ghost(key): Ghost<spec_fn(u64) -> int>)
        requires
            old(self).ranked_by(key),
            wide(value) == key(id),
            !old(self).ids().contains(id),
        ensures
            final(self).ranked_by(key),
            final(self).ids().to_set() == old(self).ids().to_set().insert(id),
    {
        let ghost found = self.entries@;
        let ghost ids = self.ids();
        let mut p: usize = self.entries.len();
        while p > 0 && (is_less(value, self.entries[p - 1].0) || (!is_less(
            self.entries[p - 1].0,
            value,
        ) && id < self.entries[p - 1].1))
            invariant
                p <= found.len(),
                self.entries@ == found,
                ids == self.ids(),
                self.ranked_by(key),
                wide(value) == key(id),
                forall|k: int|
                    p <= k < found.len() ==> precedes(
                        key(id),
                        id,
                        wide((#[trigger] found[k]).0),
                        found[k].1,
                    ),
            decreases p,
        {
            p = p - 1;
        }
        self.entries.insert(p, (value, id));
        proof {
            let after = self.ids();
            assert(after =~= ids.insert(p as int, id));
            assert forall|k: int| 0 <= k < self.entries@.len() implies wide(
                (#[trigger] self.entries@[k]).0,
            ) == key(self.entries@[k].1) by {
                if k < p {
                    assert(self.entries@[k] == found[k]);
                } else if k > p {
                    assert(self.entries@[k] == found[k - 1]);
                }
            }
            assert forall|a: int, b: int| 0 <= a < b < after.len() implies precedes(
                key(#[trigger] after[a]),
                after[a],
                key(#[trigger] after[b]),
                after[b],
            ) by {
                if a < p {
                    assert(after[a] == ids[a]);
                    if b == p {
                        assert(wide(found[p - 1].0) == key(ids[p - 1]));
                        assert(ids[p - 1] != id) by {
                            assert(ids.contains(ids[p - 1]));
                        }
                        if a < p - 1 {
                            assert(precedes(key(ids[a]), ids[a], key(ids[p - 1]), ids[p - 1]));
                        }
                    } else if b < p {
                        assert(after[b] == ids[b]);
                    } else {
                        assert(after[b] == ids[b - 1]);
                    }
                } else if a == p {
                    assert(after[b] == ids[b - 1]);
                    assert(wide(found[b - 1].0) == key(ids[b - 1]));
                } else {
                    assert(after[a] == ids[a - 1] && after[b] == ids[b - 1]);
                }
            }
            assert forall|x: u64| after.to_set().contains(x) implies ids.to_set().insert(
                id,
            ).contains(x) by {
                let k = choose|k: int| 0 <= k < after.len() && after[k] == x;
                if k < p {
                    assert(ids[k] == x);
                } else if k > p {
                    assert(ids[k - 1] == x);
                }
            }
            assert forall|x: u64| ids.to_set().insert(id).contains(x) implies after.to_set().contains(
                x,
            ) by {
                if x == id {
                    assert(after[p as int] == x);
                } else {
                    let k = choose|k: int| 0 <= k < ids.len() && ids[k] == x;
                    assert(after[if k < p { k } else { k + 1 }] == x);
                }
            }
            assert(after.to_set() =~= ids.to_set().insert(id));
        }
    }

    /// The ids in order.
    pub fn into_ids(self) -> (r: Vec<u64>)
        ensures
            r@ == self.ids(),
    {
        let mut r: Vec<u64> = Vec::new();
        let mut j: usize = 0;
        while j < self.entries.len()
            invariant
                j <= self.entries@.len(),
                r@ == self.ids().take(j as int),
            decreases self.entries@.len() - j,
        {
            r.push(self.entries[j].1);
            j = j + 1;
            assert(r@ =~= self.ids().take(j as int));
        }
        assert(r@ =~= self.ids());
        r
    }

    /// What is ranked by a key is the ranking of its ids.
    pub proof fn is_the_ranking(self, key: spec_fn(u64) -> int)
        requires
            self.ranked_by(key),
        ensures
            self.ids() == ranking(self.ids().to_set(), key),
    {
        ranked_is_ranking(self.ids(), key);
    }
}

} // verus!
