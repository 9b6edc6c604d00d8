//! A map from names to values, kept in ascending order of names.
//!
//! Rooms map device names to devices and houses map room names to rooms;
//! both are a `NameMap`. Its entries are always strictly ascending by name,
//! so each name occurs at most once and listings come out sorted.
use vstd::prelude::*;
use vstd::string::*;
use crate::text::{
    lemma_text_less_irreflexive, lemma_text_less_total, lemma_text_less_transitive, text_equal,
    text_less, text_precedes,
};

verus! {

/// Names strictly ascending.
pub open spec fn strictly_sorted(keys: Seq<Seq<char>>) -> bool {
    forall|i: int, j: int| 0 <= i < j < keys.len() ==> text_less(keys[i], keys[j])
}

/// The map that pairs each of `keys` with the value at the same place.
pub open spec fn map_of<V>(keys: Seq<Seq<char>>, values: Seq<V>) -> Map<Seq<char>, V> {
    Map::new(|k: Seq<char>| keys.contains(k), |k: Seq<char>| values[keys.index_of(k)])
}

/// The map that a list of pairs gives when they are inserted one after the
/// other, later pairs replacing earlier ones of the same name.
pub open spec fn pairs_map<V>(pairs: Seq<(String, V)>) -> Map<Seq<char>, V>
    decreases pairs.len(),
{
    if pairs.len() == 0 {
        Map::empty()
    } else {
        pairs_map(pairs.drop_last()).insert(pairs.last().0@, pairs.last().1)
    }
}

/// A property that every paired value has, every value of the map has.
pub proof fn lemma_pairs_map_values<V>(pairs: Seq<(String, V)>, p: spec_fn(V) -> bool)
    requires
        forall|j: int| 0 <= j < pairs.len() ==> p(#[trigger] pairs[j].1),
    ensures
        forall|q: Seq<char>| #[trigger] pairs_map(pairs).contains_key(q) ==> p(pairs_map(pairs)[q]),
    decreases pairs.len(),
{
    if pairs.len() > 0 {
        let rest = pairs.drop_last();
        assert forall|j: int| 0 <= j < rest.len() implies p(#[trigger] rest[j].1) by {
            assert(rest[j] == pairs[j]);
        }
        lemma_pairs_map_values(rest, p);
        assert(p(pairs[pairs.len() - 1].1));
        assert forall|q: Seq<char>| #[trigger] pairs_map(pairs).contains_key(q) implies p(
            pairs_map(pairs)[q],
        ) by {
            if q != pairs.last().0@ {
                assert(pairs_map(rest).contains_key(q));
            }
        }
    }
}

/// In a strictly sorted list, a name sits at one place only.
pub proof fn lemma_sorted_unique(keys: Seq<Seq<char>>, i: int, j: int)
    requires
        strictly_sorted(keys),
        0 <= i < keys.len(),
        0 <= j < keys.len(),
        keys[i] == keys[j],
    ensures
        i == j,
{
    if i < j {
        lemma_text_less_irreflexive(keys[i]);
    } else if j < i {
        lemma_text_less_irreflexive(keys[i]);
    }
}

/// The value paired with the name at place `i`.
pub proof fn lemma_map_of_at<V>(keys: Seq<Seq<char>>, values: Seq<V>, i: int)
    requires
        strictly_sorted(keys),
        keys.len() == values.len(),
        0 <= i < keys.len(),
    ensures
        map_of(keys, values).contains_key(keys[i]),
        map_of(keys, values)[keys[i]] == values[i],
{
    assert(keys.contains(keys[i]));
    let j = keys.index_of(keys[i]);
    lemma_sorted_unique(keys, i, j);
}

/// A map from names to values, ascending by name.
#[derive(Debug, Clone, PartialEq)]
pub struct NameMap<V> {
    entries: Vec<(String, V)>,
}

impl<V> NameMap<V> {
    /// The entries, in order.
    pub closed spec fn entry_seq(&self) -> Seq<(String, V)> {
        self.entries@
    }

    /// The names, in order.
    pub open spec fn keys(&self) -> Seq<Seq<char>> {
        self.entry_seq().map_values(|e: (String, V)| e.0@)
    }

    /// The values, in the order of their names.
    pub open spec fn values(&self) -> Seq<V> {
        self.entry_seq().map_values(|e: (String, V)| e.1)
    }

    /// Names are strictly ascending.
    pub open spec fn wf(&self) -> bool {
        strictly_sorted(self.keys())
    }

    /// The map from names to values.
    pub open spec fn map(&self) -> Map<Seq<char>, V> {
        map_of(self.keys(), self.values())
    }

    /// The value paired with the name at place `i`.
    pub proof fn lemma_at(&self, i: int)
        requires
            self.wf(),
            0 <= i < self.keys().len(),
        ensures
            self.map().contains_key(self.keys()[i]),
            self.map()[self.keys()[i]] == self.values()[i],
    {
        lemma_map_of_at(self.keys(), self.values(), i);
    }

    /// The names of the map are its listed names.
    pub proof fn lemma_dom(&self)
        requires
            self.wf(),
        ensures
            self.map().dom() == self.keys().to_set(),
            self.map().len() == self.keys().len(),
            self.map().dom().finite(),
    {
        let keys = self.keys();
        assert(self.map().dom() =~= keys.to_set());
        assert forall|a: int, b: int|
            0 <= a < keys.len() && 0 <= b < keys.len() && a != b implies keys[a] != keys[b] by {
            if keys[a] == keys[b] {
                lemma_sorted_unique(keys, a, b);
            }
        }
        keys.unique_seq_to_set();
    }

    /// An empty map.
    pub fn new() -> (r: Self)
        ensures
            r.wf(),
            r.keys() == Seq::<Seq<char>>::empty(),
            r.values() == Seq::<V>::empty(),
            r.map() == Map::<Seq<char>, V>::empty(),
    {
        let r = NameMap { entries: Vec::new() };
        assert(r.keys() =~= Seq::<Seq<char>>::empty());
        assert(r.values() =~= Seq::<V>::empty());
        assert(r.map() =~= Map::<Seq<char>, V>::empty());
        r
    }

    /// The entries, in ascending order of names.
    pub fn entries(&self) -> (r: &Vec<(String, V)>)
        ensures
            r@ == self.entry_seq(),
    {
        &self.entries
    }

    /// The number of entries.
    pub fn len(&self) -> (r: usize)
        ensures
            r == self.keys().len(),
    {
        self.entries.len()
    }

    /// The first place whose name is not below `k`.
    fn position(&self, k: &str) -> (r: usize)
        requires
            self.wf(),
        ensures
            r <= self.keys().len(),
            forall|j: int| 0 <= j < r ==> text_less(#[trigger] self.keys()[j], k@),
            r < self.keys().len() ==> !text_less(self.keys()[r as int], k@),
    {
        let mut i: usize = 0;
        while i < self.entries.len()
            invariant
                i <= self.entries@.len(),
                forall|j: int| 0 <= j < i ==> text_less(#[trigger] self.keys()[j], k@),
            decreases self.entries@.len() - i,
        {
            if !text_precedes(self.entries[i].0.as_str(), k) {
                return i;
            }
            i = i + 1;
        }
        i
    }

    /// The place of name `k`, if the map has it.
    pub fn find(&self, k: &str) -> (r: Option<usize>)
        requires
            self.wf(),
        ensures
            match r {
                Some(i) => i < self.keys().len() && self.keys()[i as int] == k@,
                None => !self.map().contains_key(k@),
            },
            r is Some <==> self.map().contains_key(k@),
    {
        let i = self.position(k);
        if i < self.entries.len() && text_equal(self.entries[i].0.as_str(), k) {
            proof {
                self.lemma_at(i as int);
            }
            Some(i)
        } else {
            proof {
                assert forall|j: int| 0 <= j < self.keys().len() implies #[trigger] self.keys()[j]
                    != k@ by {
                    if j < i {
                        lemma_text_less_irreflexive(k@);
                    } else {
                        lemma_text_less_total(self.keys()[i as int], k@);
                        if j > i {
                            lemma_text_less_transitive(k@, self.keys()[i as int], self.keys()[j]);
                            lemma_text_less_irreflexive(k@);
                        }
                    }
                }
            }
            None
        }
    }

    /// The value of name `k`, if any.
    pub fn get(&self, k: &str) -> (r: Option<&V>)
        requires
            self.wf(),
        ensures
            match r {
                Some(v) => self.map().contains_key(k@) && *v == self.map()[k@],
                None => !self.map().contains_key(k@),
            },
    {
        match self.find(k) {
            Some(i) => {
                proof {
                    self.lemma_at(i as int);
                }
                Some(&self.entries[i].1)
            },
            None => None,
        }
    }

    /// A mutable reference to the value of name `k`, if any.
    pub fn get_mut(&mut self, k: &str) -> (r: Option<&mut V>)
        requires
            old(self).wf(),
        ensures
            match r {
                Some(v) => {
                    &&& old(self).map().contains_key(k@)
                    &&& *v == old(self).map()[k@]
                    &&& final(self).wf()
                    &&& final(self).keys() == old(self).keys()
                    &&& final(self).values() == old(self).values().update(
                        old(self).keys().index_of(k@),
                        *final(v),
                    )
                    &&& final(self).map() == old(self).map().insert(k@, *final(v))
                },
                None => {
                    &&& !old(self).map().contains_key(k@)
                    &&& *final(self) == *old(self)
                },
            },
    {
        match self.find(k) {
            Some(i) => {
                proof {
                    self.lemma_at(i as int);
                    assert(self.keys().contains(k@));
                    lemma_sorted_unique(self.keys(), i as int, self.keys().index_of(k@));
                }
                let ghost old_map = self.map();
                let ghost old_keys = self.keys();
                let ghost old_values = self.values();
                let ghost old_entries = self.entries@;
                let ghost key = self.entries@[i as int].0;
                proof {
                    assert forall|x: V| {
                        let e = #[trigger] old_entries.update(i as int, (key, x));
                        &&& e.map_values(|e: (String, V)| e.0@) == old_keys
                        &&& e.map_values(|e: (String, V)| e.1) == old_values.update(i as int, x)
                        &&& map_of(old_keys, e.map_values(|e: (String, V)| e.1))
                            == old_map.insert(k@, x)
                    } by {
                        let e = old_entries.update(i as int, (key, x));
                        let values = e.map_values(|e: (String, V)| e.1);
                        assert(e.map_values(|e: (String, V)| e.0@) =~= old_keys);
                        assert(values =~= old_values.update(i as int, x));
                        assert forall|q: Seq<char>| #[trigger] map_of(old_keys, values).contains_key(q)
                            implies map_of(old_keys, values)[q] == old_map.insert(k@, x)[q] by {
                            let j = old_keys.index_of(q);
                            lemma_map_of_at(old_keys, values, j);
                            lemma_map_of_at(old_keys, old_values, j);
                            if q == k@ {
                                lemma_sorted_unique(old_keys, i as int, j);
                            }
                        }
                        assert(map_of(old_keys, values) =~= old_map.insert(k@, x));
                    }
                }
                let r = &mut self.entries[i].1;
                Some(r)
            },
            None => None,
        }
    }

    /// Pairs `v` with name `k`, replacing any value the name had.
    pub fn insert(&mut self, k: String, v: V)
        requires
            old(self).wf(),
        ensures
            final(self).wf(),
            final(self).map() == old(self).map().insert(k@, v),
    {
        let ghost old_keys = self.keys();
        let ghost old_values = self.values();
        let ghost old_map = self.map();
        let i = self.position(k.as_str());
        if i < self.entries.len() && text_equal(self.entries[i].0.as_str(), k.as_str()) {
            self.entries.set(i, (k, v));
            proof {
                let keys = self.keys();
                let values = self.values();
                assert(keys =~= old_keys);
                assert(values =~= old_values.update(i as int, v));
                assert forall|q: Seq<char>| #[trigger] self.map().contains_key(q) implies
                    self.map()[q] == old_map.insert(k@, v)[q] by {
                    let j = keys.index_of(q);
                    lemma_map_of_at(keys, values, j);
                    lemma_map_of_at(old_keys, old_values, j);
                    if q == k@ {
                        lemma_sorted_unique(keys, i as int, j);
                    }
                }
                assert forall|q: Seq<char>| old_map.insert(k@, v).contains_key(q) implies
                    #[trigger] self.map().contains_key(q) by {
                    if q != k@ {
                        let j = old_keys.index_of(q);
                        assert(keys[j] == q);
                    } else {
                        assert(keys[i as int] == q);
                    }
                }
                assert(self.map() =~= old_map.insert(k@, v));
            }
        } else {
            let ghost kv = k@;
            proof {
                if i < old_keys.len() {
                    lemma_text_less_total(old_keys[i as int], kv);
                }
            }
            self.entries.insert(i, (k, v));
            proof {
                let keys = self.keys();
                let values = self.values();
                assert(keys =~= old_keys.insert(i as int, kv));
                assert(values =~= old_values.insert(i as int, v));
                assert forall|a: int, b: int| 0 <= a < b < keys.len() implies text_less(
                    #[trigger] keys[a],
                    #[trigger] keys[b],
                ) by {
                    if b < i {
                    } else if b == i {
                    } else if a < i {
                        if b - 1 > i {
                            lemma_text_less_transitive(kv, old_keys[i as int], old_keys[b - 1]);
                        }
                        lemma_text_less_transitive(keys[a], kv, keys[b]);
                    } else if a == i {
                        if b - 1 > i {
                            lemma_text_less_transitive(kv, old_keys[i as int], old_keys[b - 1]);
                        }
                    } else {
                    }
                }
                assert forall|q: Seq<char>| #[trigger] self.map().contains_key(q) implies
                    self.map()[q] == old_map.insert(kv, v)[q] by {
                    let j = keys.index_of(q);
                    lemma_map_of_at(keys, values, j);
                    if j < i {
                        lemma_map_of_at(old_keys, old_values, j);
                        if q == kv {
                            lemma_sorted_unique(keys, i as int, j);
                        }
                    } else if j > i {
                        lemma_map_of_at(old_keys, old_values, j - 1);
                        if q == kv {
                            lemma_sorted_unique(keys, i as int, j);
                        }
                    }
                }
                assert forall|q: Seq<char>| old_map.insert(kv, v).contains_key(q) implies
                    #[trigger] self.map().contains_key(q) by {
                    if q != kv {
                        let j = old_keys.index_of(q);
                        if j < i {
                            assert(keys[j] == q);
                        } else {
                            assert(keys[j + 1] == q);
                        }
                    } else {
                        assert(keys[i as int] == q);
                    }
                }
                assert(self.map() =~= old_map.insert(kv, v));
            }
        }
    }

    /// Removes name `k`, giving back its value if it had one.
    pub fn remove(&mut self, k: &str) -> (r: Option<V>)
        requires
            old(self).wf(),
        ensures
            final(self).wf(),
            final(self).map() == old(self).map().remove(k@),
            match r {
                Some(v) => old(self).map().contains_key(k@) && v == old(self).map()[k@],
                None => !old(self).map().contains_key(k@),
            },
    {
        let ghost old_keys = self.keys();
        let ghost old_values = self.values();
        let ghost old_map = self.map();
        match self.find(k) {
            Some(i) => {
                proof {
                    self.lemma_at(i as int);
                }
                let (_, v) = self.entries.remove(i);
                proof {
                    let keys = self.keys();
                    let values = self.values();
                    assert(keys =~= old_keys.remove(i as int));
                    assert(values =~= old_values.remove(i as int));
                    assert forall|a: int, b: int| 0 <= a < b < keys.len() implies text_less(
                        #[trigger] keys[a],
                        #[trigger] keys[b],
                    ) by {
                        if a < i && b >= i {
                            assert(keys[b] == old_keys[b + 1]);
                        }
                    }
                    assert forall|q: Seq<char>| #[trigger] self.map().contains_key(q) implies
                        self.map()[q] == old_map.remove(k@)[q] && q != k@ by {
                        let j = keys.index_of(q);
                        lemma_map_of_at(keys, values, j);
                        if j < i {
                            lemma_map_of_at(old_keys, old_values, j);
                            if q == k@ {
                                lemma_sorted_unique(old_keys, i as int, j);
                            }
                        } else {
                            lemma_map_of_at(old_keys, old_values, j + 1);
                            if q == k@ {
                                lemma_sorted_unique(old_keys, i as int, j + 1);
                            }
                        }
                    }
                    assert forall|q: Seq<char>| old_map.remove(k@).contains_key(q) implies
                        #[trigger] self.map().contains_key(q) by {
                        let j = old_keys.index_of(q);
                        if j < i {
                            assert(keys[j] == q);
                        } else {
                            assert(j != i);
                            assert(keys[j - 1] == q);
                        }
                    }
                    assert(self.map() =~= old_map.remove(k@));
                }
                Some(v)
            },
            None => {
                assert(old_map.remove(k@) =~= old_map);
                None
            },
        }
    }

    /// The map of `pairs`, inserted one after the other.
    pub fn from_pairs(pairs: Vec<(String, V)>) -> (r: Self)
        ensures
            r.wf(),
            r.map() == pairs_map(pairs@),
    {
        let ghost all = pairs@;
        let n = pairs.len();
        let mut rest = pairs;
        let mut r = NameMap::new();
        let mut i: usize = 0;
        while rest.len() > 0
            invariant
                r.wf(),
                all.len() == n,
                i <= all.len(),
                rest@ == all.skip(i as int),
                r.map() == pairs_map(all.take(i as int)),
            decreases rest@.len(),
        {
            let (k, v) = rest.remove(0);
            proof {
                assert(all.take(i + 1).drop_last() =~= all.take(i as int));
                assert(all[i as int] == (k, v));
            }
            r.insert(k, v);
            i = i + 1;
            proof {
                assert(rest@ =~= all.skip(i as int));
            }
        }
        proof {
            assert(all.take(i as int) =~= all);
        }
        r
    }
}

} // verus!
