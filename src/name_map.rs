use crate::types::XorName;
use vstd::prelude::*;

verus! {

/// A map keyed by name that keeps its keys in the order in which they were first inserted.
pub struct NameMap<V> {
    entries: Vec<(XorName, V)>,
    contents: Ghost<Map<XorName, V>>,
}

impl<V> View for NameMap<V> {
    type V = Map<XorName, V>;

    closed spec fn view(&self) -> Map<XorName, V> {
        self.contents@
    }
}

impl<V> NameMap<V> {
    /// The keys, in insertion order.
    pub closed spec fn keys(&self) -> Seq<XorName> {
        self.entries@.map_values(|e: (XorName, V)| e.0)
    }

    pub closed spec fn wf(&self) -> bool {
        &&& forall|i: int, j: int|
            0 <= i < j < self.entries@.len() ==> self.entries@[i].0 != self.entries@[j].0
        &&& forall|i: int|
            0 <= i < self.entries@.len() ==> self.contents@.contains_key(
                #[trigger] self.entries@[i].0,
            ) && self.contents@[self.entries@[i].0] == self.entries@[i].1
        &&& forall|k: XorName|
            #[trigger] self.contents@.contains_key(k) ==> exists|i: int|
                0 <= i < self.entries@.len() && self.entries@[i].0 == k
    }

    /// The keys are the map's domain, each listed once.
    pub proof fn lemma_keys(&self)
        requires
            self.wf(),
        ensures
            self.keys().no_duplicates(),
            forall|k: XorName| self@.contains_key(k) <==> self.keys().contains(k),
            forall|i: int| 0 <= i < self.keys().len() ==> self@.contains_key(#[trigger] self.keys()[i]),
    {
        assert forall|k: XorName| self@.contains_key(k) implies self.keys().contains(k) by {
            let i = choose|i: int| 0 <= i < self.entries@.len() && self.entries@[i].0 == k;
            assert(self.keys()[i] == k);
        }
    }

    pub fn new() -> (r: Self)
        ensures
            r.wf(),
            r@ == Map::<XorName, V>::empty(),
            r.keys() == Seq::<XorName>::empty(),
    {
        let r = NameMap { entries: Vec::new(), contents: Ghost(Map::empty()) };
        assert(r.keys() =~= Seq::<XorName>::empty());
        r
    }

    pub fn len(&self) -> (r: usize)
        requires
            self.wf(),
        ensures
            r == self.keys().len(),
    {
        self.entries.len()
    }

    pub fn key_at(&self, i: usize) -> (r: XorName)
        requires
            self.wf(),
            i < self.keys().len(),
        ensures
            r == self.keys()[i as int],
    {
        self.entries[i].0
    }

    pub fn value_at(&self, i: usize) -> (r: &V)
        requires
            self.wf(),
            i < self.keys().len(),
        ensures
            self@.contains_key(self.keys()[i as int]),
            *r == self@[self.keys()[i as int]],
    {
        &self.entries[i].1
    }

    fn index_of(&self, k: XorName) -> (r: Option<usize>)
        requires
            self.wf(),
        ensures
            match r {
                Some(i) => i < self.entries@.len() && self.entries@[i as int].0 == k,
                None => forall|i: int| 0 <= i < self.entries@.len() ==> self.entries@[i].0 != k,
            },
    {
        let mut i: usize = 0;
        while i < self.entries.len()
            invariant
                i <= self.entries@.len(),
                forall|j: int| 0 <= j < i ==> self.entries@[j].0 != k,
            decreases self.entries@.len() - i,
        {
            if self.entries[i].0 == k {
                return Some(i);
            }
            i = i + 1;
        }
        None
    }

    pub fn contains_key(&self, k: XorName) -> (r: bool)
        requires
            self.wf(),
        ensures
            r == self@.contains_key(k),
    {
        self.index_of(k).is_some()
    }

    pub fn get(&self, k: XorName) -> (r: Option<&V>)
        requires
            self.wf(),
        ensures
            match r {
                Some(v) => self@.contains_key(k) && *v == self@[k],
                None => !self@.contains_key(k),
            },
    {
        match self.index_of(k) {
            Some(i) => Some(&self.entries[i].1),
            None => None,
        }
    }

    pub fn insert(&mut self, k: XorName, v: V)
        requires
            old(self).wf(),
        ensures
            final(self).wf(),
            final(self)@ == old(self)@.insert(k, v),
            old(self)@.contains_key(k) ==> final(self).keys() == old(self).keys(),
            !old(self)@.contains_key(k) ==> final(self).keys() == old(self).keys().push(k),
    {
        match self.index_of(k) {
            Some(i) => {
                self.entries.set(i, (k, v));
                self.contents = Ghost(self.contents@.insert(k, v));
                assert(self.keys() =~= old(self).keys());
                assert forall|k2: XorName| #[trigger] self.contents@.contains_key(k2) implies exists|j: int|
                    0 <= j < self.entries@.len() && self.entries@[j].0 == k2 by {
                    if k2 != k {
                        let j = choose|j: int|
                            0 <= j < old(self).entries@.len() && old(self).entries@[j].0 == k2;
                        assert(self.entries@[j].0 == k2);
                    } else {
                        assert(self.entries@[i as int].0 == k2);
                    }
                }
            },
            None => {
                self.entries.push((k, v));
                self.contents = Ghost(self.contents@.insert(k, v));
                assert(self.keys() =~= old(self).keys().push(k));
                assert forall|k2: XorName| #[trigger] self.contents@.contains_key(k2) implies exists|i: int|
                    0 <= i < self.entries@.len() && self.entries@[i].0 == k2 by {
                    if k2 == k {
                        assert(self.entries@[self.entries@.len() - 1].0 == k);
                    } else {
                        assert(old(self).contents@.contains_key(k2));
                        let j = choose|j: int|
                            0 <= j < old(self).entries@.len() && old(self).entries@[j].0 == k2;
                        assert(self.entries@[j].0 == k2);
                    }
                }
            },
        }
    }

    /// Replaces the value of the `i`-th key.
    pub fn set_value_at(&mut self, i: usize, v: V)
        requires
            old(self).wf(),
            i < old(self).keys().len(),
        ensures
            final(self).wf(),
            final(self)@ == old(self)@.insert(old(self).keys()[i as int], v),
            final(self).keys() == old(self).keys(),
    {
        let k = self.entries[i].0;
        self.entries.set(i, (k, v));
        self.contents = Ghost(self.contents@.insert(k, v));
        assert(self.keys() =~= old(self).keys());
        assert forall|k2: XorName| #[trigger] self.contents@.contains_key(k2) implies exists|j: int|
            0 <= j < self.entries@.len() && self.entries@[j].0 == k2 by {
            if k2 != k {
                let j = choose|j: int|
                    0 <= j < old(self).entries@.len() && old(self).entries@[j].0 == k2;
                assert(self.entries@[j].0 == k2);
            } else {
                assert(self.entries@[i as int].0 == k2);
            }
        }
    }

    pub fn remove(&mut self, k: XorName) -> (r: Option<V>)
        requires
            old(self).wf(),
        ensures
            final(self).wf(),
            final(self)@ == old(self)@.remove(k),
            match r {
                Some(v) => old(self)@.contains_key(k) && v == old(self)@[k],
                None => !old(self)@.contains_key(k),
            },
    {
        match self.index_of(k) {
            Some(i) => {
                let e = self.entries.remove(i);
                self.contents = Ghost(self.contents@.remove(k));
                assert forall|j: int|
                    0 <= j < self.entries@.len() implies self.contents@.contains_key(
                    #[trigger] self.entries@[j].0,
                ) && self.contents@[self.entries@[j].0] == self.entries@[j].1 by {
                    if j < i {
                        assert(self.entries@[j] == old(self).entries@[j]);
                    } else {
                        assert(self.entries@[j] == old(self).entries@[j + 1]);
                    }
                }
                assert forall|k2: XorName| #[trigger] self.contents@.contains_key(k2) implies exists|j: int|
                    0 <= j < self.entries@.len() && self.entries@[j].0 == k2 by {
                    let j = choose|j: int| 0 <= j < old(self).entries@.len() && old(self).entries@[j].0 == k2;
                    if j < i {
                        assert(self.entries@[j].0 == k2);
                    } else {
                        assert(self.entries@[j - 1].0 == k2);
                    }
                }
                Some(e.1)
            },
            None => {
                proof {
                    assert(!self.contents@.contains_key(k));
                    assert(self.contents@.remove(k) =~= self.contents@);
                }
                None
            },
        }
    }
}

} // verus!
