//! A map keyed by text, kept as two parallel vectors with distinct keys.
use vstd::prelude::*;

verus! {

/// A map keyed by text: `keys[i]` maps to `vals[i]`; the keys are distinct.
#[derive(Debug)]
pub struct StrMap<V> {
    pub keys: Vec<String>,
    pub vals: Vec<V>,
}

/// The first position of `k` among `ks`.
pub open spec fn key_pos(ks: Seq<String>, k: Seq<char>) -> int {
    choose|i: int| 0 <= i < ks.len() && ks[i]@ == k
}

impl<V> StrMap<V> {
    /// The two vectors line up and no key occurs twice.
    pub open spec fn wf(&self) -> bool {
        &&& self.keys@.len() == self.vals@.len()
        &&& forall|i: int, j: int| 0 <= i < j < self.keys@.len() ==> self.keys@[i]@ != self.keys@[j]@
    }

    /// The map from each key's text to its value.
    pub open spec fn map(&self) -> Map<Seq<char>, V> {
        Map::new(
            |k: Seq<char>| exists|i: int| 0 <= i < self.keys@.len() && (#[trigger] self.keys@[i])@ == k,
            |k: Seq<char>| self.vals@[key_pos(self.keys@, k)],
        )
    }

    /// The key at `i` maps to the value at `i`.
    pub proof fn lemma_at(&self, i: int)
        requires
            self.wf(),
            0 <= i < self.keys@.len(),
        ensures
            self.map().contains_key(self.keys@[i]@),
            self.map()[self.keys@[i]@] == self.vals@[i],
    {
        let k = self.keys@[i]@;
        assert(self.map().contains_key(k));
        let p = key_pos(self.keys@, k);
        assert(p == i);
    }

    /// An empty map.
    pub fn new() -> (m: Self)
        ensures
            m.wf(),
            m.map() == Map::<Seq<char>, V>::empty(),
            m.keys@.len() == 0,
            m.vals@.len() == 0,
    {
        let m = StrMap { keys: Vec::new(), vals: Vec::new() };
        assert(m.map() =~= Map::<Seq<char>, V>::empty());
        m
    }

    /// Where `k` is held, if anywhere.
    pub fn index_of(&self, k: &String) -> (r: Option<usize>)
        requires
            self.wf(),
        ensures
            r matches Some(i) ==> i < self.keys@.len() && self.keys@[i as int]@ == k@,
            r is None <==> !self.map().contains_key(k@),
    {
        let mut i: usize = 0;
        while i < self.keys.len()
            invariant
                i <= self.keys@.len(),
                forall|j: int| 0 <= j < i ==> (#[trigger] self.keys@[j])@ != k@,
            decreases self.keys@.len() - i,
        {
            if self.keys[i] == *k {
                return Some(i);
            }
            i = i + 1;
        }
        None
    }

    /// The value of `k`, if it has one.
    pub fn get(&self, k: &String) -> (r: Option<&V>)
        requires
            self.wf(),
        ensures
            r is Some <==> self.map().contains_key(k@),
            r matches Some(v) ==> *v == self.map()[k@],
    {
        match self.index_of(k) {
            Some(i) => {
                proof {
                    self.lemma_at(i as int);
                }
                Some(&self.vals[i])
            },
            None => None,
        }
    }

    /// Sets the value held at position `i`.
    pub fn set_at(&mut self, i: usize, v: V)
        requires
            old(self).wf(),
            i < old(self).keys@.len(),
        ensures
            final(self).wf(),
            final(self).keys@ == old(self).keys@,
            final(self).vals@ == old(self).vals@.update(i as int, v),
            final(self).map() == old(self).map().insert(old(self).keys@[i as int]@, v),
    {
        let ghost m0 = self.map();
        let ghost k = self.keys@[i as int]@;
        self.vals.set(i, v);
        proof {
            assert forall|x: Seq<char>| #![auto] self.map().contains_key(x) <==> m0.insert(k, v).contains_key(x) by {
                if m0.contains_key(x) {
                    let j = choose|j: int| 0 <= j < self.keys@.len() && (#[trigger] self.keys@[j])@ == x;
                    assert(self.keys@[j]@ == x);
                }
                if x == k {
                    assert(self.keys@[i as int]@ == x);
                }
            }
            assert forall|x: Seq<char>| #![auto] self.map().contains_key(x) implies self.map()[x] == m0.insert(k, v)[x] by {
                let j = choose|j: int| 0 <= j < self.keys@.len() && (#[trigger] self.keys@[j])@ == x;
                self.lemma_at(j);
                if x != k {
                    assert(j != i);
                    let p = key_pos(self.keys@, x);
                    assert(p == j);
                }
            }
            assert(self.map() =~= m0.insert(k, v));
        }
    }

    /// Swaps the value held at position `i` with `v`.
    pub fn swap_at(&mut self, i: usize, v: &mut V)
        requires
            old(self).wf(),
            i < old(self).keys@.len(),
        ensures
            final(self).wf(),
            final(self).keys@ == old(self).keys@,
            final(self).vals@ == old(self).vals@.update(i as int, *old(v)),
            final(self).map() == old(self).map().insert(old(self).keys@[i as int]@, *old(v)),
            *final(v) == old(self).map()[old(self).keys@[i as int]@],
    {
        proof {
            self.lemma_at(i as int);
        }
        let ghost m0 = self.map();
        let ghost k = self.keys@[i as int]@;
        let ghost v0 = *v;
        self.vals.set_and_swap(i, v);
        proof {
            assert forall|x: Seq<char>| #![auto] self.map().contains_key(x) <==> m0.insert(k, v0).contains_key(x) by {
                if m0.contains_key(x) {
                    let j = choose|j: int| 0 <= j < self.keys@.len() && (#[trigger] self.keys@[j])@ == x;
                    assert(self.keys@[j]@ == x);
                }
                if x == k {
                    assert(self.keys@[i as int]@ == x);
                }
            }
            assert forall|x: Seq<char>| #![auto] self.map().contains_key(x) implies self.map()[x] == m0.insert(k, v0)[x] by {
                let j = choose|j: int| 0 <= j < self.keys@.len() && (#[trigger] self.keys@[j])@ == x;
                self.lemma_at(j);
                if x != k {
                    assert(j != i);
                    let p = key_pos(self.keys@, x);
                    assert(p == j);
                }
            }
            assert(self.map() =~= m0.insert(k, v0));
        }
    }

    /// Sets the value of `k`, adding the key where it is new.
    pub fn insert(&mut self, k: String, v: V)
        requires
            old(self).wf(),
        ensures
            final(self).wf(),
            final(self).map() == old(self).map().insert(k@, v),
    {
        let ghost m0 = self.map();
        match self.index_of(&k) {
            Some(i) => {
                self.set_at(i, v);
            },
            None => {
                let ghost ks = self.keys@;
                let ghost vs = self.vals@;
                self.keys.push(k);
                self.vals.push(v);
                proof {
                    let n = ks.len() as int;
                    assert forall|a: int, b: int| 0 <= a < b < self.keys@.len() implies self.keys@[a]@ != self.keys@[b]@ by {
                        if b == n {
                            assert(self.keys@[a] == ks[a]);
                            if ks[a]@ == k@ {
                                assert(m0.contains_key(k@));
                            }
                        } else {
                            assert(self.keys@[a] == ks[a] && self.keys@[b] == ks[b]);
                        }
                    }
                    assert forall|x: Seq<char>| #![auto] self.map().contains_key(x) <==> m0.insert(k@, v).contains_key(x) by {
                        if m0.contains_key(x) {
                            let j = choose|j: int| 0 <= j < ks.len() && (#[trigger] ks[j])@ == x;
                            assert(self.keys@[j] == ks[j]);
                        }
                        if x == k@ {
                            assert(self.keys@[n]@ == x);
                        }
                        if self.map().contains_key(x) {
                            let j = choose|j: int| 0 <= j < self.keys@.len() && (#[trigger] self.keys@[j])@ == x;
                            if j < n {
                                assert(self.keys@[j] == ks[j]);
                            }
                        }
                    }
                    assert forall|x: Seq<char>| #![auto] self.map().contains_key(x) implies self.map()[x] == m0.insert(k@, v)[x] by {
                        let j = choose|j: int| 0 <= j < self.keys@.len() && (#[trigger] self.keys@[j])@ == x;
                        self.lemma_at(j);
                        if j < n {
                            assert(self.keys@[j] == ks[j] && self.vals@[j] == vs[j]);
                            assert(x != k@);
                            assert(m0.contains_key(x));
                            let p = key_pos(ks, x);
                            assert(0 <= p < ks.len() && ks[p]@ == x);
                            assert(p == j);
                        }
                    }
                    assert(self.map() =~= m0.insert(k@, v));
                }
            },
        }
    }
}

impl<V: Copy> StrMap<V> {
    /// A copy of the map.
    pub fn duplicate(&self) -> (r: Self)
        requires
            self.wf(),
        ensures
            r.wf(),
            r.map() == self.map(),
            r.keys@.len() == self.keys@.len(),
            forall|i: int| 0 <= i < self.keys@.len() ==> (#[trigger] r.keys@[i])@ == self.keys@[i]@ && r.vals@[i]
                == self.vals@[i],
    {
        let mut keys: Vec<String> = Vec::new();
        let mut vals: Vec<V> = Vec::new();
        let mut i: usize = 0;
        while i < self.keys.len()
            invariant
                i <= self.keys@.len(),
                self.wf(),
                keys@.len() == i,
                vals@.len() == i,
                forall|j: int| 0 <= j < i ==> (#[trigger] keys@[j])@ == self.keys@[j]@ && vals@[j] == self.vals@[j],
            decreases self.keys@.len() - i,
        {
            keys.push(self.keys[i].clone());
            vals.push(self.vals[i]);
            i = i + 1;
        }
        let r = StrMap { keys, vals };
        proof {
            assert forall|x: Seq<char>| #![auto] r.map().contains_key(x) <==> self.map().contains_key(x) by {
                if self.map().contains_key(x) {
                    let j = choose|j: int| 0 <= j < self.keys@.len() && (#[trigger] self.keys@[j])@ == x;
                    assert(r.keys@[j]@ == x);
                }
                if r.map().contains_key(x) {
                    let j = choose|j: int| 0 <= j < r.keys@.len() && (#[trigger] r.keys@[j])@ == x;
                    assert(self.keys@[j]@ == x);
                }
            }
            assert forall|x: Seq<char>| #![auto] r.map().contains_key(x) implies r.map()[x] == self.map()[x] by {
                let j = choose|j: int| 0 <= j < r.keys@.len() && (#[trigger] r.keys@[j])@ == x;
                r.lemma_at(j);
                self.lemma_at(j);
            }
            assert(r.map() =~= self.map());
        }
        r
    }
}

} // verus!
