//! A small map keyed by strings, kept as a list of distinct keys.
use vstd::prelude::*;
use crate::text::str_eq;

verus! {

/// A map from strings to values. Each key occurs at most once.
#[derive(Debug)]
pub struct StringMap<V> {
    entries: Vec<(String, V)>,
}

impl<V> StringMap<V> {
    /// No key occurs twice.
    #[verifier::type_invariant]
    pub closed spec fn wf(&self) -> bool {
        forall|a: int, b: int|
            0 <= a < self.spec_entries().len() && 0 <= b < self.spec_entries().len() && a != b
                ==> #[trigger] self.spec_entries()[a].0@ != #[trigger] self.spec_entries()[b].0@
    }

    /// The entries, in insertion order.
    pub closed spec fn spec_entries(&self) -> Seq<(String, V)> {
        self.entries@
    }

    /// Whether some entry has this key.
    pub open spec fn has_key(&self, key: Seq<char>) -> bool {
        exists|i: int| 0 <= i < self.spec_entries().len() && #[trigger] self.spec_entries()[i].0@ == key
    }

    /// The value stored under a key that occurs.
    pub open spec fn value_of(&self, key: Seq<char>) -> V {
        self.spec_entries()[choose|i: int|
            0 <= i < self.spec_entries().len() && #[trigger] self.spec_entries()[i].0@ == key].1
    }

    /// The empty map.
    pub fn new() -> (r: Self)
        ensures
            r@ == Map::<Seq<char>, V>::empty(),
    {
        let r = StringMap { entries: Vec::new() };
        assert(r@ =~= Map::<Seq<char>, V>::empty());
        r
    }

    /// The number of keys.
    pub fn len(&self) -> (r: usize)
        ensures
            r == self@.dom().len(),
    {
        proof {
            use_type_invariant(self);
            self.lemma_len();
        }
        self.entries.len()
    }

    proof fn lemma_len(&self)
        requires
            self.wf(),
        ensures
            self@.dom().len() == self.spec_entries().len(),
            self@.dom().finite(),
        decreases self.spec_entries().len(),
    {
        let es = self.spec_entries();
        if es.len() == 0 {
            assert(self@.dom() =~= Set::<Seq<char>>::empty());
        } else {
            let keys = es.map_values(|e: (String, V)| e.0@);
            assert forall|k: Seq<char>| self@.dom().contains(k) <==> keys.to_set().contains(k) by {
                if self@.dom().contains(k) {
                    let i = choose|i: int| 0 <= i < es.len() && #[trigger] es[i].0@ == k;
                    assert(keys[i] == k);
                }
                if keys.to_set().contains(k) {
                    let i = choose|i: int| 0 <= i < keys.len() && keys[i] == k;
                    assert(es[i].0@ == k);
                }
            }
            assert(self@.dom() =~= keys.to_set());
            assert forall|a: int, b: int| 0 <= a < keys.len() && 0 <= b < keys.len() && a != b
                implies keys[a] != keys[b] by {
                assert(es[a].0@ == keys[a]);
                assert(es[b].0@ == keys[b]);
            }
            assert(keys.no_duplicates());
            keys.unique_seq_to_set();
        }
    }

    /// The entries, each key once, in the order they were first inserted.
    pub fn entries(&self) -> (r: &Vec<(String, V)>)
        ensures
            r@.len() == self@.dom().len(),
            forall|i: int|
                0 <= i < r@.len() ==> self@.contains_key(#[trigger] r@[i].0@) && self@[r@[i].0@] == r@[i].1,
    {
        proof {
            use_type_invariant(self);
            self.lemma_len();
            let es = self.spec_entries();
            assert forall|i: int| 0 <= i < es.len() implies self@.contains_key(#[trigger] es[i].0@)
                && self@[es[i].0@] == es[i].1 by {
                assert(self.has_key(es[i].0@));
                let c = choose|c: int| 0 <= c < es.len() && #[trigger] es[c].0@ == es[i].0@;
                if c != i {
                    assert(es[c].0@ != es[i].0@);
                }
            }
        }
        &self.entries
    }

    /// The value stored under a key, if any.
    pub fn get(&self, key: &str) -> (r: Option<&V>)
        ensures
            r is Some <==> self@.contains_key(key@),
            r matches Some(v) ==> *v == self@[key@],
    {
        proof {
            use_type_invariant(self);
        }
        let mut i: usize = 0;
        while i < self.entries.len()
            invariant
                self.wf(),
                i <= self.entries.len(),
                forall|j: int| 0 <= j < i ==> self.entries@[j].0@ != key@,
            decreases self.entries.len() - i,
        {
            if str_eq(self.entries[i].0.as_str(), key) {
                proof {
                    let es = self.spec_entries();
                    assert(es[i as int].0@ == key@);
                    let c = choose|c: int| 0 <= c < es.len() && #[trigger] es[c].0@ == key@;
                    if c != i {
                        assert(es[c].0@ != es[i as int].0@);
                    }
                }
                return Some(&self.entries[i].1);
            }
            i = i + 1;
        }
        None
    }

    /// Stores a value under a key, replacing the value stored there before.
    pub fn insert(&mut self, key: String, value: V)
        ensures
            final(self)@ == old(self)@.insert(key@, value),
    {
        proof {
            use_type_invariant(&*self);
        }
        let mut entries: Vec<(String, V)> = Vec::new();
        std::mem::swap(&mut entries, &mut self.entries);
        let ghost old_entries = entries@;
        assert(old_entries == old(self).spec_entries());
        let ghost k = key@;
        let mut found: Option<usize> = None;
        let mut i: usize = 0;
        while i < entries.len()
            invariant_except_break
                found is None,
            invariant
                entries@ == old_entries,
                k == key@,
                i <= entries.len(),
                forall|j: int| 0 <= j < i ==> entries@[j].0@ != k,
            ensures
                entries@ == old_entries,
                found matches Some(f) ==> f < entries.len() && entries@[f as int].0@ == k,
                found is None ==> forall|j: int| 0 <= j < entries.len() ==> entries@[j].0@ != k,
            decreases entries.len() - i,
        {
            if str_eq(entries[i].0.as_str(), key.as_str()) {
                found = Some(i);
                break;
            }
            i = i + 1;
        }
        match found {
            Some(f) => {
                entries.set(f, (key, value));
                proof {
                    let es = entries@;
                    assert(es.len() == old_entries.len());
                    assert forall|a: int| 0 <= a < es.len() implies #[trigger] es[a].0@ == old_entries[a].0@ by {
                        if a == f {
                            assert(es[a].0@ == k);
                        }
                    }
                    assert forall|a: int, b: int|
                        0 <= a < es.len() && 0 <= b < es.len() && a != b
                        implies #[trigger] es[a].0@ != #[trigger] es[b].0@ by {
                        assert(es[a].0@ == old_entries[a].0@);
                        assert(es[b].0@ == old_entries[b].0@);
                        assert(old(self).spec_entries()[a].0@ != old(self).spec_entries()[b].0@);
                    }
                }
            },
            None => {
                entries.push((key, value));
                proof {
                    let es = entries@;
                    let n: int = old_entries.len() as int;
                    assert forall|a: int, b: int|
                        0 <= a < es.len() && 0 <= b < es.len() && a != b
                        implies #[trigger] es[a].0@ != #[trigger] es[b].0@ by {
                        if a < n && b < n {
                            assert(old(self).spec_entries()[a].0@ != old(self).spec_entries()[b].0@);
                        } else if a < n {
                            assert(old_entries[a].0@ != k);
                        } else if b < n {
                            assert(old_entries[b].0@ != k);
                        }
                    }
                }
            },
        }
        self.entries = entries;
        proof {
            let es = self.spec_entries();
            let n: int = old_entries.len() as int;
            assert forall|q: Seq<char>| #[trigger] self@.contains_key(q) == old(self)@.insert(k, value).contains_key(q)
                by {
                if q == k {
                    match found {
                        Some(f) => { assert(es[f as int].0@ == k); },
                        None => { assert(es[n].0@ == k); },
                    }
                } else if self@.contains_key(q) {
                    let c = choose|c: int| 0 <= c < es.len() && #[trigger] es[c].0@ == q;
                    assert(old(self).spec_entries()[c].0@ == q);
                } else if old(self)@.contains_key(q) {
                    let c = choose|c: int| 0 <= c < old_entries.len() && #[trigger] old(self).spec_entries()[c].0@ == q;
                    assert(es[c].0@ == q);
                }
            }
            assert forall|q: Seq<char>| #[trigger] self@.contains_key(q) implies self@[q] == old(self)@.insert(k, value)[q]
                by {
                let c = choose|c: int| 0 <= c < es.len() && #[trigger] es[c].0@ == q;
                if q == k {
                    match found {
                        Some(f) => {
                            if c != f {
                                assert(es[c].0@ != es[f as int].0@);
                            }
                        },
                        None => {
                            if c != n {
                                assert(old_entries[c].0@ != k);
                            }
                        },
                    }
                } else {
                    let d = choose|d: int| 0 <= d < old_entries.len() && #[trigger] old(self).spec_entries()[d].0@ == q;
                    if c != d {
                        assert(es[c].0@ == old_entries[c].0@);
                        assert(old(self).spec_entries()[c].0@ != old(self).spec_entries()[d].0@);
                    }
                }
            }
            assert(self@ =~= old(self)@.insert(k, value));
        }
    }

    /// A map holding the given pairs; a later pair wins over an earlier one with the same key.
    pub fn from_pairs(pairs: Vec<(String, V)>) -> (r: Self)
        ensures
            r@ == pairs_to_map(pairs@),
    {
        let mut m = StringMap::new();
        let mut rest = pairs;
        let ghost all = rest@;
        let ghost mut i: int = 0;
        while rest.len() > 0
            invariant
                0 <= i <= all.len(),
                rest@ == all.skip(i),
                m@ == pairs_to_map(all.take(i)),
            decreases rest.len(),
        {
            let p = rest.remove(0);
            proof {
                assert(p == all[i]);
                assert(all.take(i + 1).drop_last() =~= all.take(i));
                assert(rest@ =~= all.skip(i + 1));
            }
            m.insert(p.0, p.1);
            proof {
                i = i + 1;
            }
        }
        assert(all.take(i) =~= all);
        m
    }
}

/// The map that a list of pairs describes, later pairs winning.
pub open spec fn pairs_to_map<V>(pairs: Seq<(String, V)>) -> Map<Seq<char>, V>
    decreases pairs.len(),
{
    if pairs.len() == 0 {
        Map::empty()
    } else {
        pairs_to_map(pairs.drop_last()).insert(pairs.last().0@, pairs.last().1)
    }
}

impl<V> View for StringMap<V> {
    type V = Map<Seq<char>, V>;

    open spec fn view(&self) -> Map<Seq<char>, V> {
        Map::new(|k: Seq<char>| self.has_key(k), |k: Seq<char>| self.value_of(k))
    }
}

} // verus!
