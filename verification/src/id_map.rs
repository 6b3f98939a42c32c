//! Ordered maps and sets of ids.

use crate::ranking;
use vstd::prelude::*;

verus! {

/// Whether a list of ids ascends.
pub open spec fn ascend(keys: Seq<u64>) -> bool {
    forall|i: int, j: int| 0 <= i < j < keys.len() ==> #[trigger] keys[i] < #[trigger] keys[j]
}

/// The place of an id in a list of ids.
pub open spec fn place_of(keys: Seq<u64>, id: u64) -> int {
    choose|i: int| 0 <= i < keys.len() && #[trigger] keys[i] == id
}

/// The map from each id of a list to the value at its place in another list.
pub open spec fn mapped<V: View>(keys: Seq<u64>, values: Seq<V>) -> Map<u64, V::V> {
    Map::new(|id: u64| keys.contains(id), |id: u64| values[place_of(keys, id)]@)
}

proof fn mapped_at<V: View>(keys: Seq<u64>, values: Seq<V>, i: int)
    requires
        ascend(keys),
        0 <= i < keys.len(),
    ensures
        mapped(keys, values).contains_key(keys[i]),
        mapped(keys, values)[keys[i]] == values[i]@,
        place_of(keys, keys[i]) == i,
{
    let p = place_of(keys, keys[i]);
    assert(0 <= p < keys.len() && keys[p] == keys[i]);
}

proof fn mapped_place<V: View>(keys: Seq<u64>, values: Seq<V>, id: u64)
    requires
        ascend(keys),
        mapped(keys, values).contains_key(id),
    ensures
        0 <= place_of(keys, id) < keys.len(),
        keys[place_of(keys, id)] == id,
        mapped(keys, values)[id] == values[place_of(keys, id)]@,
{
    let k = choose|k: int| 0 <= k < keys.len() && keys[k] == id;
    assert(keys[k] == id);
}

proof fn mapped_update<V: View>(keys: Seq<u64>, values: Seq<V>, i: int, value: V)
    requires
        ascend(keys),
        0 <= i < keys.len(),
        keys.len() == values.len(),
    ensures
        mapped(keys, values.update(i, value)) == mapped(keys, values).insert(keys[i], value@),
{
    let after = values.update(i, value);
    mapped_at(keys, after, i);
    assert forall|k: u64| keys.contains(k) implies mapped(keys, after)[k] == mapped(
        keys,
        values,
    ).insert(keys[i], value@)[k] by {
        mapped_place(keys, values, k);
        mapped_place(keys, after, k);
    }
    assert(mapped(keys, after) =~= mapped(keys, values).insert(keys[i], value@));
}

proof fn mapped_insert<V: View>(keys: Seq<u64>, values: Seq<V>, place: int, id: u64, value: V)
    requires
        ascend(keys),
        keys.len() == values.len(),
        0 <= place <= keys.len(),
        forall|i: int| 0 <= i < place ==> #[trigger] keys[i] < id,
        forall|i: int| place <= i < keys.len() ==> #[trigger] keys[i] > id,
    ensures
        ascend(keys.insert(place, id)),
        mapped(keys.insert(place, id), values.insert(place, value)) == mapped(keys, values).insert(
            id,
            value@,
        ),
{
    let keys1 = keys.insert(place, id);
    let values1 = values.insert(place, value);
    assert forall|i: int, j: int| 0 <= i < j < keys1.len() implies #[trigger] keys1[i]
        < #[trigger] keys1[j] by {
        if i != place {
            assert(keys1[i] == keys[if i < place { i } else { i - 1 }]);
        }
        if j != place {
            assert(keys1[j] == keys[if j < place { j } else { j - 1 }]);
        }
    }
    mapped_at(keys1, values1, place);
    let before = mapped(keys, values).insert(id, value@);
    assert forall|k: u64| mapped(keys1, values1).contains_key(k) == before.contains_key(k) by {
        if keys1.contains(k) && k != id {
            mapped_place(keys1, values1, k);
            let p = place_of(keys1, k);
            assert(keys[if p < place { p } else { p - 1 }] == k);
        }
        if keys.contains(k) {
            mapped_place(keys, values, k);
            let p = place_of(keys, k);
            assert(keys1[if p < place { p } else { p + 1 }] == k);
        }
    }
    assert forall|k: u64| keys1.contains(k) implies mapped(keys1, values1)[k] == before[k] by {
        mapped_place(keys1, values1, k);
        let p = place_of(keys1, k);
        if k != id {
            mapped_at(keys, values, if p < place { p } else { p - 1 });
        }
    }
    assert(mapped(keys1, values1) =~= before);
}

proof fn mapped_remove<V: View>(keys: Seq<u64>, values: Seq<V>, place: int)
    requires
        ascend(keys),
        keys.len() == values.len(),
        0 <= place < keys.len(),
    ensures
        ascend(keys.remove(place)),
        mapped(keys.remove(place), values.remove(place)) == mapped(keys, values).remove(
            keys[place],
        ),
{
    let id = keys[place];
    let keys1 = keys.remove(place);
    let values1 = values.remove(place);
    let before = mapped(keys, values).remove(id);
    assert forall|k: u64| mapped(keys1, values1).contains_key(k) == before.contains_key(k) by {
        if keys1.contains(k) {
            mapped_place(keys1, values1, k);
            let p = place_of(keys1, k);
            assert(keys[if p < place { p } else { p + 1 }] == k);
        }
        if keys.contains(k) && k != id {
            mapped_place(keys, values, k);
            let p = place_of(keys, k);
            assert(keys1[if p < place { p } else { p - 1 }] == k);
        }
    }
    assert forall|k: u64| keys1.contains(k) implies mapped(keys1, values1)[k] == before[k] by {
        mapped_place(keys1, values1, k);
        let p = place_of(keys1, k);
        mapped_at(keys, values, if p < place { p } else { p + 1 });
    }
    assert(mapped(keys1, values1) =~= before);
}

/// A map from ids to values, in the order of the ids.
#[derive(Debug, Eq, PartialEq)]
pub struct IdMap<V> {
    keys: Vec<u64>,
    values: Vec<V>,
}

impl<V: View> View for IdMap<V> {
    type V = Map<u64, V::V>;

    closed spec fn view(&self) -> Map<u64, V::V> {
        mapped(self.keys@, self.values@)
    }
}

impl<V> IdMap<V> {
    #[verifier::type_invariant]
    spec fn paired(self) -> bool {
        ascend(self.keys@) && self.keys@.len() == self.values@.len()
    }
}

impl<V: View> IdMap<V> {
    pub fn new() -> (r: Self)
        ensures
            r@ == Map::<u64, V::V>::empty(),
    {
        let r: IdMap<V> = IdMap { keys: Vec::new(), values: Vec::new() };
        assert(r@ =~= Map::<u64, V::V>::empty());
        r
    }

    /// The ids of a map are a finite set.
    pub proof fn ids_are_finite(self)
        ensures
            self@.dom().finite(),
    {
        assert(self@.dom() =~= self.keys@.to_set());
        vstd::seq_lib::seq_to_set_is_finite(self.keys@);
    }

    /// The first place whose id is not less than `id`.
    fn lower_bound(&self, id: u64) -> (r: usize)
        ensures
            r <= self.keys@.len(),
            forall|i: int| 0 <= i < r ==> #[trigger] self.keys@[i] < id,
            forall|i: int| r <= i < self.keys@.len() ==> #[trigger] self.keys@[i] >= id,
    {
        proof {
            use_type_invariant(self);
        }
        let mut low: usize = 0;
        let mut high: usize = self.keys.len();
        while low < high
            invariant
                low <= high <= self.keys@.len(),
                ascend(self.keys@),
                forall|i: int| 0 <= i < low ==> #[trigger] self.keys@[i] < id,
                forall|i: int| high <= i < self.keys@.len() ==> #[trigger] self.keys@[i] >= id,
            decreases high - low,
        {
            let middle: usize = low + (high - low) / 2;
            if self.keys[middle] < id {
                low = middle + 1;
            } else {
                high = middle;
            }
        }
        low
    }

    /// The place of an id, where the map has it.
    fn find(&self, id: u64) -> (r: Option<usize>)
        ensures
            match r {
                Some(i) => i < self.keys@.len() && i < self.values@.len() && self.keys@[i as int]
                    == id && self@.contains_key(id) && self@[id] == self.values@[i as int]@,
                None => !self@.contains_key(id),
            },
    {
        proof {
            use_type_invariant(self);
        }
        let i: usize = self.lower_bound(id);
        if i < self.keys.len() && self.keys[i] == id {
            proof {
                mapped_at(self.keys@, self.values@, i as int);
            }
            Some(i)
        } else {
            proof {
                if self@.contains_key(id) {
                    mapped_place(self.keys@, self.values@, id);
                }
            }
            None
        }
    }

    pub fn len(&self) -> (r: usize)
        ensures
            r == self@.dom().len(),
    {
        proof {
            use_type_invariant(self);
            assert(self@.dom() =~= self.keys@.to_set());
            self.keys@.unique_seq_to_set();
        }
        self.keys.len()
    }

    pub fn is_empty(&self) -> (r: bool)
        ensures
            r == (self@.dom() == Set::<u64>::empty()),
    {
        proof {
            if self.keys@.len() > 0 {
                assert(self@.dom().contains(self.keys@[0]));
            } else {
                assert(self@.dom() =~= Set::<u64>::empty());
            }
        }
        self.keys.len() == 0
    }

    pub fn contains_key(&self, id: u64) -> (r: bool)
        ensures
            r == self@.contains_key(id),
    {
        self.find(id).is_some()
    }

    pub fn get(&self, id: u64) -> (r: Option<&V>)
        ensures
            match r {
                Some(v) => self@.contains_key(id) && v@ == self@[id],
                None => !self@.contains_key(id),
            },
    {
        match self.find(id) {
            Some(i) => Some(&self.values[i]),
            None => None,
        }
    }

    pub fn get_mut(&mut self, id: u64) -> (r: Option<&mut V>)
        ensures
            match r {
                Some(v) => old(self)@.contains_key(id) && v@ == old(self)@[id] && final(self)@
                    == old(self)@.insert(id, final(v)@),
                None => !old(self)@.contains_key(id) && final(self)@ == old(self)@,
            },
    {
        proof {
            use_type_invariant(&*self);
        }
        let ghost keys = self.keys@;
        let ghost values = self.values@;
        match self.find(id) {
            Some(i) => {
                proof {
                    assert forall|v: V| mapped(keys, #[trigger] values.update(i as int, v))
                        == mapped(keys, values).insert(id, v@) by {
                        mapped_update(keys, values, i as int, v);
                    }
                }
                Some(&mut self.values[i])
            },
            None => None,
        }
    }

    /// Maps `id` to `value`, and returns what it was mapped to before.
    pub fn insert(&mut self, id: u64, value: V) -> (r: Option<V>)
        ensures
            final(self)@ == old(self)@.insert(id, value@),
            match r {
                Some(v) => old(self)@.contains_key(id) && v@ == old(self)@[id],
                None => !old(self)@.contains_key(id),
            },
    {
        proof {
            use_type_invariant(&*self);
        }
        let place: usize = self.lower_bound(id);
        let found: Option<usize> = self.find(id);
        let mut taken: IdMap<V> = IdMap { keys: Vec::new(), values: Vec::new() };
        std::mem::swap(self, &mut taken);
        let IdMap { mut keys, mut values } = taken;
        let ghost keys0 = keys@;
        let ghost values0 = values@;
        match found {
            Some(i) => {
                let displaced: V = values.remove(i);
                values.insert(i, value);
                proof {
                    assert(values@ =~= values0.update(i as int, value));
                    mapped_update(keys0, values0, i as int, value);
                }
                *self = IdMap { keys, values };
                Some(displaced)
            },
            None => {
                proof {
                    assert forall|i: int| place <= i < keys0.len() implies #[trigger] keys0[i]
                        > id by {
                        if keys0[i] == id {
                            mapped_at(keys0, values0, i);
                        }
                    }
                    mapped_insert(keys0, values0, place as int, id, value);
                }
                keys.insert(place, id);
                values.insert(place, value);
                *self = IdMap { keys, values };
                None
            },
        }
    }

    /// Takes `id` out of the map, and returns what it was mapped to.
    pub fn remove(&mut self, id: u64) -> (r: Option<V>)
        ensures
            final(self)@ == old(self)@.remove(id),
            match r {
                Some(v) => old(self)@.contains_key(id) && v@ == old(self)@[id],
                None => !old(self)@.contains_key(id),
            },
    {
        proof {
            use_type_invariant(&*self);
        }
        let i: usize = match self.find(id) {
            Some(i) => i,
            None => {
                assert(self@ =~= self@.remove(id));
                return None;
            },
        };
        let mut taken: IdMap<V> = IdMap { keys: Vec::new(), values: Vec::new() };
        std::mem::swap(self, &mut taken);
        let IdMap { mut keys, mut values } = taken;
        proof {
            mapped_remove(keys@, values@, i as int);
        }
        keys.remove(i);
        let removed: V = values.remove(i);
        *self = IdMap { keys, values };
        Some(removed)
    }

    /// The ids of the map in ascending order.
    pub fn keys(&self) -> (r: Vec<u64>)
        ensures
            r@ == ranking::ascending(self@.dom()),
            r@.to_set() == self@.dom(),
            ascend(r@),
    {
        proof {
            use_type_invariant(self);
        }
        let mut keys: Vec<u64> = Vec::new();
        let mut i: usize = 0;
        while i < self.keys.len()
            invariant
                i <= self.keys@.len(),
                keys@ == self.keys@.take(i as int),
            decreases self.keys@.len() - i,
        {
            keys.push(self.keys[i]);
            i = i + 1;
            assert(keys@ =~= self.keys@.take(i as int));
        }
        proof {
            assert(keys@ =~= self.keys@);
            assert(self@.dom() =~= keys@.to_set());
            ranking::ranked_is_ranking(keys@, |id: u64| 0);
        }
        keys
    }
}

impl<V: View + Clone> Clone for IdMap<V> {
    fn clone(&self) -> (r: Self)
        ensures
            r@.dom() == self@.dom(),
            forall|id: u64|
                #[trigger] self@.contains_key(id) ==> exists|a: V, b: V|
                    #[trigger] cloned(a, b) && a@ == self@[id] && b@ == r@[id],
    {
        proof {
            use_type_invariant(self);
        }
        let mut keys: Vec<u64> = Vec::new();
        let mut values: Vec<V> = Vec::new();
        let mut i: usize = 0;
        while i < self.keys.len()
            invariant
                self.keys@.len() == self.values@.len(),
                i == values@.len(),
                i <= self.keys@.len(),
                keys@ == self.keys@.take(i as int),
                forall|k: int| 0 <= k < i ==> cloned(self.values@[k], #[trigger] values@[k]),
            decreases self.keys@.len() - i,
        {
            keys.push(self.keys[i]);
            let value: V = self.values[i].clone();
            values.push(value);
            i = i + 1;
            assert(keys@ =~= self.keys@.take(i as int));
        }
        assert(keys@ =~= self.keys@);
        let r = IdMap { keys, values };
        proof {
            assert(r@.dom() =~= self@.dom());
            assert forall|id: u64| #[trigger] self@.contains_key(id) implies exists|a: V, b: V|
                #[trigger] cloned(a, b) && a@ == self@[id] && b@ == r@[id] by {
                mapped_place(self.keys@, self.values@, id);
                let p = place_of(self.keys@, id);
                mapped_at(r.keys@, r.values@, p);
                assert(cloned(self.values@[p], r.values@[p]));
            }
        }
        r
    }
}

/// A set of ids.
#[derive(Debug)]
pub struct IdSet {
    members: IdMap<()>,
}

impl View for IdSet {
    type V = Set<u64>;

    closed spec fn view(&self) -> Set<u64> {
        self.members@.dom()
    }
}

impl IdSet {
    pub fn new() -> (r: Self)
        ensures
            r@ == Set::<u64>::empty(),
    {
        let r = IdSet { members: IdMap::new() };
        assert(r@ =~= Set::<u64>::empty());
        r
    }

    pub fn len(&self) -> (r: usize)
        ensures
            r == self@.len(),
    {
        self.members.len()
    }

    pub fn contains(&self, id: u64) -> (r: bool)
        ensures
            r == self@.contains(id),
    {
        self.members.contains_key(id)
    }

    pub fn insert(&mut self, id: u64)
        ensures
            final(self)@ == old(self)@.insert(id),
    {
        self.members.insert(id, ());
        assert(self@ =~= old(self)@.insert(id));
    }

    pub fn remove(&mut self, id: u64)
        ensures
            final(self)@ == old(self)@.remove(id),
    {
        self.members.remove(id);
        assert(self@ =~= old(self)@.remove(id));
    }

    /// The members in ascending order.
    pub fn ids(&self) -> (r: Vec<u64>)
        ensures
            r@ == ranking::ascending(self@),
            r@.to_set() == self@,
    {
        self.members.keys()
    }
}

} // verus!
