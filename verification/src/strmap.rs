//! Maps and sets keyed by text.

use vstd::prelude::*;

use crate::strs::str_eq;

verus! {

/// A map from texts to values. Each key is held once; the map keeps no order.
pub struct StrMap<V> {
    entries: Vec<(String, V)>,
}

/// Whether some entry has the key `k`.
spec fn has_key<V>(es: Seq<(String, V)>, k: Seq<char>) -> bool {
    exists|i: int| 0 <= i < es.len() && (#[trigger] es[i]).0@ == k
}

/// Where the entry with the key `k` stands.
spec fn index_of<V>(es: Seq<(String, V)>, k: Seq<char>) -> int {
    choose|i: int| 0 <= i < es.len() && (#[trigger] es[i]).0@ == k
}

/// The map that a list of entries with different keys stands for.
spec fn map_of<V>(es: Seq<(String, V)>) -> Map<Seq<char>, V> {
    Map::new(|k: Seq<char>| has_key(es, k), |k: Seq<char>| es[index_of(es, k)].1)
}

spec fn unique<V>(es: Seq<(String, V)>) -> bool {
    forall|i: int, j: int| 0 <= i < j < es.len() ==> es[i].0@ != es[j].0@
}

proof fn lemma_entry<V>(es: Seq<(String, V)>, i: int)
    requires
        unique(es),
        0 <= i < es.len(),
    ensures
        map_of(es).contains_key(es[i].0@),
        map_of(es)[es[i].0@] == es[i].1,
        index_of(es, es[i].0@) == i,
{
    let k = es[i].0@;
    assert(has_key(es, k));
    let j = index_of(es, k);
    assert(es[j].0@ == k);
    assert(i == j);
}

impl<V> StrMap<V> {
    /// What the map holds.
    pub closed spec fn view(&self) -> Map<Seq<char>, V> {
        map_of(self.entries@)
    }

    #[verifier::type_invariant]
    spec fn inv(self) -> bool {
        unique(self.entries@)
    }

    /// The map without entries.
    pub fn new() -> (r: StrMap<V>)
        ensures
            r@ == Map::<Seq<char>, V>::empty(),
    {
        let r = StrMap { entries: Vec::new() };
        proof {
            assert(r@ =~= Map::<Seq<char>, V>::empty());
        }
        r
    }

    fn position(&self, key: &str) -> (r: Option<usize>)
        ensures
            r matches Some(i) ==> i < self.entries@.len() && self.entries@[i as int].0@ == key@
                && self@.contains_key(key@) && self@[key@] == self.entries@[i as int].1,
            r is None ==> !self@.contains_key(key@),
    {
        let mut i: usize = 0;
        while i < self.entries.len()
            invariant
                i <= self.entries@.len(),
                forall|j: int| 0 <= j < i ==> (#[trigger] self.entries@[j]).0@ != key@,
            decreases self.entries@.len() - i,
        {
            if str_eq(self.entries[i].0.as_str(), key) {
                proof {
                    use_type_invariant(self);
                    lemma_entry(self.entries@, i as int);
                }
                return Some(i);
            }
            i += 1;
        }
        None
    }

    pub fn contains(&self, key: &str) -> (r: bool)
        ensures
            r == self@.contains_key(key@),
    {
        self.position(key).is_some()
    }

    /// The value under `key`.
    pub fn get(&self, key: &str) -> (r: Option<&V>)
        ensures
            r matches Some(v) ==> self@.contains_key(key@) && self@[key@] == *v,
            r is None ==> !self@.contains_key(key@),
    {
        match self.position(key) {
            Some(i) => Some(&self.entries[i].1),
            None => None,
        }
    }

    /// Stores `value` under `key`, in place of what stood there.
    pub fn insert(&mut self, key: &str, value: V)
        ensures
            final(self)@ == old(self)@.insert(key@, value),
    {
        proof {
            use_type_invariant(&*self);
        }
        let at = self.position(key);
        let mut entries: Vec<(String, V)> = Vec::new();
        std::mem::swap(&mut entries, &mut self.entries);
        let ghost before = entries@;
        let k = key.to_owned();
        match at {
            Some(i) => {
                entries.set(i, (k, value));
                proof {
                    assert(unique(entries@));
                    assert forall|q: Seq<char>| #[trigger] map_of(entries@).contains_key(q) implies map_of(
                        before,
                    ).insert(key@, value).contains_key(q) && map_of(entries@)[q] == map_of(
                        before,
                    ).insert(key@, value)[q] by {
                        let j = index_of(entries@, q);
                        lemma_entry(entries@, j);
                        lemma_entry(before, j);
                    }
                    assert forall|q: Seq<char>| #[trigger]
                        map_of(before).insert(key@, value).contains_key(q) implies map_of(
                        entries@,
                    ).contains_key(q) by {
                        if q == key@ {
                            lemma_entry(entries@, i as int);
                        } else {
                            let j = index_of(before, q);
                            lemma_entry(entries@, j);
                        }
                    }
                    assert(map_of(entries@) =~= map_of(before).insert(key@, value));
                }
            },
            None => {
                entries.push((k, value));
                proof {
                    assert forall|a: int, b: int| 0 <= a < b < entries@.len() implies entries@[a].0@
                        != entries@[b].0@ by {
                        if b == before.len() {
                            assert(entries@[a] == before[a]);
                            lemma_entry(before, a);
                        }
                    }
                    assert forall|q: Seq<char>| #[trigger] map_of(entries@).contains_key(q) implies map_of(
                        before,
                    ).insert(key@, value).contains_key(q) && map_of(entries@)[q] == map_of(
                        before,
                    ).insert(key@, value)[q] by {
                        let j = index_of(entries@, q);
                        lemma_entry(entries@, j);
                        if j < before.len() {
                            lemma_entry(before, j);
                        }
                    }
                    assert forall|q: Seq<char>| #[trigger]
                        map_of(before).insert(key@, value).contains_key(q) implies map_of(
                        entries@,
                    ).contains_key(q) by {
                        if q == key@ {
                            lemma_entry(entries@, before.len() as int);
                        } else {
                            let j = index_of(before, q);
                            assert(entries@[j] == before[j]);
                            lemma_entry(entries@, j);
                        }
                    }
                    assert(map_of(entries@) =~= map_of(before).insert(key@, value));
                }
            },
        }
        self.entries = entries;
    }

    /// Removes what stands under `key` and hands it back.
    pub fn remove(&mut self, key: &str) -> (r: Option<V>)
        ensures
            final(self)@ == old(self)@.remove(key@),
            r matches Some(v) ==> old(self)@.contains_key(key@) && old(self)@[key@] == v,
            r is None ==> !old(self)@.contains_key(key@),
    {
        proof {
            use_type_invariant(&*self);
        }
        match self.position(key) {
            None => {
                proof {
                    assert(self@.remove(key@) =~= self@);
                }
                None
            },
            Some(i) => {
                let mut entries: Vec<(String, V)> = Vec::new();
                std::mem::swap(&mut entries, &mut self.entries);
                let ghost before = entries@;
                let taken = entries.remove(i);
                proof {
                    assert forall|a: int, b: int| 0 <= a < b < entries@.len() implies entries@[a].0@
                        != entries@[b].0@ by {
                        let a0 = if a < i { a } else { a + 1 };
                        let b0 = if b < i { b } else { b + 1 };
                        assert(before[a0].0@ != before[b0].0@);
                    }
                    assert forall|q: Seq<char>| #[trigger] map_of(entries@).contains_key(q) implies map_of(
                        before,
                    ).remove(key@).contains_key(q) && map_of(entries@)[q] == map_of(before).remove(
                        key@,
                    )[q] by {
                        let j = index_of(entries@, q);
                        let j0 = if j < i { j } else { j + 1 };
                        lemma_entry(entries@, j);
                        lemma_entry(before, j0);
                        assert(before[j0].0@ != before[i as int].0@);
                    }
                    assert forall|q: Seq<char>| #[trigger]
                        map_of(before).remove(key@).contains_key(q) implies map_of(
                        entries@,
                    ).contains_key(q) by {
                        let j0 = index_of(before, q);
                        assert(before[j0].0@ == q);
                        let j = if j0 < i { j0 } else { j0 - 1 };
                        assert(entries@[j] == before[j0]);
                        lemma_entry(entries@, j);
                    }
                    assert(map_of(entries@) =~= map_of(before).remove(key@));
                }
                self.entries = entries;
                Some(taken.1)
            },
        }
    }

    /// Removes every entry.
    pub fn clear(&mut self)
        ensures
            final(self)@ == Map::<Seq<char>, V>::empty(),
    {
        self.entries = Vec::new();
        proof {
            assert(self@ =~= Map::<Seq<char>, V>::empty());
        }
    }
}

/// The texts that occur in a list.
pub open spec fn set_of(items: Seq<String>) -> Set<Seq<char>> {
    Set::new(|k: Seq<char>| exists|i: int| 0 <= i < items.len() && (#[trigger] items[i])@ == k)
}

proof fn lemma_set_push(items: Seq<String>, item: String, k: Seq<char>)
    ensures
        set_of(items.push(item)).contains(k) <==> (set_of(items).contains(k) || k == item@),
{
    let after = items.push(item);
    if set_of(items).contains(k) {
        let i = choose|i: int| 0 <= i < items.len() && (#[trigger] items[i])@ == k;
        assert(after[i]@ == k);
    }
    assert(after[items.len() as int] == item);
    if set_of(after).contains(k) {
        let i = choose|i: int| 0 <= i < after.len() && (#[trigger] after[i])@ == k;
        if i < items.len() {
            assert(items[i]@ == k);
        }
    }
}

/// A set of texts.
pub struct StrSet {
    items: Vec<String>,
}

impl StrSet {
    /// What the set holds.
    pub closed spec fn view(&self) -> Set<Seq<char>> {
        set_of(self.items@)
    }

    /// The set without members.
    pub fn new() -> (r: StrSet)
        ensures
            r@ == Set::<Seq<char>>::empty(),
    {
        let r = StrSet { items: Vec::new() };
        proof {
            assert(r@ =~= Set::<Seq<char>>::empty());
        }
        r
    }

    pub fn contains(&self, key: &str) -> (r: bool)
        ensures
            r == self@.contains(key@),
    {
        let mut i: usize = 0;
        while i < self.items.len()
            invariant
                i <= self.items@.len(),
                forall|j: int| 0 <= j < i ==> (#[trigger] self.items@[j])@ != key@,
            decreases self.items@.len() - i,
        {
            if str_eq(self.items[i].as_str(), key) {
                return true;
            }
            i += 1;
        }
        false
    }

    /// Adds `key`. Says whether it is new.
    pub fn insert(&mut self, key: &str) -> (r: bool)
        ensures
            final(self)@ == old(self)@.insert(key@),
            r == !old(self)@.contains(key@),
    {
        if self.contains(key) {
            proof {
                assert(self@ =~= self@.insert(key@));
            }
            return false;
        }
        let ghost before = self.items@;
        self.items.push(key.to_owned());
        proof {
            let after = self.items@;
            assert(after[before.len() as int]@ == key@);
            assert forall|q: Seq<char>| #[trigger] old(self)@.insert(key@).contains(q) implies self@.contains(
                q,
            ) by {
                if q != key@ {
                    let i = choose|i: int| 0 <= i < before.len() && (#[trigger] before[i])@ == q;
                    assert(after[i]@ == q);
                }
            }
            assert(self@ =~= old(self)@.insert(key@));
        }
        true
    }

    /// Takes `key` out.
    pub fn remove(&mut self, key: &str)
        ensures
            final(self)@ == old(self)@.remove(key@),
    {
        let mut kept: Vec<String> = Vec::new();
        let mut i: usize = 0;
        while i < self.items.len()
            invariant
                i <= self.items@.len(),
                *self == *old(self),
                forall|k: Seq<char>|
                    #[trigger] set_of(kept@).contains(k) <==> k != key@ && set_of(
                        self.items@.take(i as int),
                    ).contains(k),
            decreases self.items@.len() - i,
        {
            let ghost before = kept@;
            let ghost done = self.items@.take(i as int);
            let ghost next = self.items@.take(i + 1);
            let same = str_eq(self.items[i].as_str(), key);
            if !same {
                kept.push(self.items[i].clone());
            }
            proof {
                let item = self.items@[i as int]@;
                assert forall|k: Seq<char>| set_of(next).contains(k) <==> (set_of(done).contains(k)
                    || k == item) by {
                    lemma_set_push(done, self.items@[i as int], k);
                    assert(next =~= done.push(self.items@[i as int]));
                }
                assert forall|k: Seq<char>|
                    #[trigger] set_of(kept@).contains(k) <==> k != key@ && set_of(next).contains(k) by {
                    if !same {
                        lemma_set_push(before, kept@[before.len() as int], k);
                        assert(kept@ =~= before.push(kept@[before.len() as int]));
                    }
                    assert(set_of(before).contains(k) <==> k != key@ && set_of(done).contains(k));
                }
            }
            i += 1;
        }
        proof {
            assert(self.items@.take(i as int) =~= self.items@);
            assert(set_of(kept@) =~= old(self)@.remove(key@));
        }
        self.items = kept;
    }

    /// The members, in no particular order.
    pub fn items(&self) -> (r: &Vec<String>)
        ensures
            set_of(r@) == self@,
    {
        &self.items
    }
}

} // verus!
