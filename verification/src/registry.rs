//! A map from names to values, kept in insertion order.

use vstd::prelude::*;

verus! {

/// Values by name; a name occurs at most once.
pub struct NameMap<V> {
    entries: Vec<(String, V)>,
}

impl<V> NameMap<V> {
    /// The names, in the order they were first inserted.
    pub closed spec fn names(&self) -> Seq<Seq<char>> {
        Seq::new(self.entries@.len(), |i: int| self.entries@[i].0@)
    }

    /// The map from names to values.
    pub closed spec fn view(&self) -> Map<Seq<char>, V> {
        Map::new(
            |k: Seq<char>| self.names().contains(k),
            |k: Seq<char>| self.entries@[self.index_of_name(k)].1,
        )
    }

    /// Where the name `k` is.
    pub closed spec fn index_of_name(&self, k: Seq<char>) -> int {
        choose|i: int| 0 <= i < self.entries@.len() && self.entries@[i].0@ == k
    }

    #[verifier::type_invariant]
    spec fn wf(&self) -> bool {
        self.names().no_duplicates()
    }

    proof fn lemma_entry(&self, i: int)
        requires
            self.wf(),
            0 <= i < self.entries@.len(),
        ensures
            self@.contains_key(self.entries@[i].0@),
            self@[self.entries@[i].0@] == self.entries@[i].1,
    {
        let k = self.entries@[i].0@;
        assert(self.names()[i] == k);
        assert(self@.dom().contains(k));
        let j = self.index_of_name(k);
        assert(self.names()[j] == k);
        assert(j == i);
    }

    /// An empty map.
    pub fn new() -> (m: Self)
        ensures
            m@ == Map::<Seq<char>, V>::empty(),
            m.names() == Seq::<Seq<char>>::empty(),
    {
        let m = NameMap { entries: Vec::new() };
        assert(m.names() =~= Seq::<Seq<char>>::empty());
        assert(m@ =~= Map::<Seq<char>, V>::empty());
        m
    }

    /// Number of names.
    pub fn len(&self) -> (n: usize)
        ensures
            n == self@.len(),
            n == self.names().len(),
    {
        proof {
            use_type_invariant(self);
            self.lemma_dom();
        }
        self.entries.len()
    }

    proof fn lemma_dom(&self)
        requires
            self.wf(),
        ensures
            self@.dom() == self.names().to_set(),
            self@.len() == self.names().len(),
    {
        assert(self@.dom() =~= self.names().to_set());
        self.names().unique_seq_to_set();
    }

    /// Where `key` is, if it is there.
    fn position(&self, key: &str) -> (r: Option<usize>)
        ensures
            r is Some <==> self@.contains_key(key@),
            r matches Some(i) ==> i < self.entries@.len() && self.entries@[i as int].0@ == key@,
    {
        proof {
            use_type_invariant(self);
        }
        let k: String = key.to_owned();
        let mut i: usize = 0;
        while i < self.entries.len()
            invariant
                self.wf(),
                k@ == key@,
                i <= self.entries@.len(),
                forall|j: int| 0 <= j < i ==> self.names()[j] != key@,
            decreases self.entries@.len() - i,
        {
            if self.entries[i].0 == k {
                assert(self.names()[i as int] == key@);
                return Some(i);
            }
            assert(self.names()[i as int] != key@);
            i = i + 1;
        }
        assert(!self.names().contains(key@));
        None
    }

    /// Whether `key` is there.
    pub fn contains_key(&self, key: &str) -> (r: bool)
        ensures
            r == self@.contains_key(key@),
    {
        self.position(key).is_some()
    }

    /// The value of `key`, if it is there.
    pub fn get(&self, key: &str) -> (r: Option<&V>)
        ensures
            r is Some <==> self@.contains_key(key@),
            r matches Some(v) ==> *v == self@[key@],
    {
        proof {
            use_type_invariant(self);
        }
        match self.position(key) {
            Some(i) => {
                proof {
                    self.lemma_entry(i as int);
                }
                Some(&self.entries[i].1)
            },
            None => None,
        }
    }

    /// Sets the value of `key` to `value` and returns the value it had, if
    /// any.  A new name goes last.
    pub fn insert(&mut self, key: String, value: V) -> (r: Option<V>)
        ensures
            final(self)@ == old(self)@.insert(key@, value),
            final(self).names() == if old(self)@.contains_key(key@) {
                old(self).names()
            } else {
                old(self).names().push(key@)
            },
            r is Some <==> old(self)@.contains_key(key@),
            r matches Some(v) ==> v == old(self)@[key@],
    {
        proof {
            use_type_invariant(&*self);
        }
        let ghost pre = *self;
        match self.position(key.as_str()) {
            Some(i) => {
                proof {
                    pre.lemma_entry(i as int);
                }
                let mut entries: Vec<(String, V)> = Vec::new();
                std::mem::swap(&mut entries, &mut self.entries);
                let (k, old_value) = entries.remove(i);
                entries.insert(i, (k, value));
                assert(Seq::new(entries@.len(), |q: int| entries@[q].0@) =~= pre.names());
                self.entries = entries;
                proof {
                    assert(self.names() =~= pre.names());
                    self.lemma_entry(i as int);
                    assert forall|q: Seq<char>| #[trigger] self@.contains_key(q) == pre@.insert(
                        key@,
                        value,
                    ).contains_key(q) by {}
                    assert forall|q: Seq<char>| self@.contains_key(q) implies #[trigger] self@[q]
                        == pre@.insert(key@, value)[q] by {
                        let j = choose|j: int| 0 <= j < self.names().len() && self.names()[j] == q;
                        self.lemma_entry(j);
                        if j != i {
                            pre.lemma_entry(j);
                        }
                    }
                    assert(self@ =~= pre@.insert(key@, value));
                }
                Some(old_value)
            },
            None => {
                let ghost kv = key@;
                let mut entries: Vec<(String, V)> = Vec::new();
                std::mem::swap(&mut entries, &mut self.entries);
                entries.push((key, value));
                proof {
                    let last = pre.entries@.len() as int;
                    let names = Seq::new(entries@.len(), |i: int| entries@[i].0@);
                    assert(names =~= pre.names().push(kv));
                    assert forall|a: int, b: int|
                        0 <= a < names.len() && 0 <= b < names.len() && a != b
                        implies names[a] != names[b] by {
                        if a == last {
                            assert(pre.names()[b] == names[b]);
                        } else if b == last {
                            assert(pre.names()[a] == names[a]);
                        } else {
                            assert(pre.names()[a] == names[a]);
                            assert(pre.names()[b] == names[b]);
                        }
                    }
                }
                self.entries = entries;
                proof {
                    let last = pre.entries@.len() as int;
                    assert(self.names() =~= pre.names().push(kv));
                    self.lemma_entry(last);
                    assert forall|q: Seq<char>| #[trigger] self@.contains_key(q) == pre@.insert(
                        kv,
                        value,
                    ).contains_key(q) by {
                        if q == kv {
                            assert(self.names()[last] == kv);
                        } else if self@.contains_key(q) {
                            let j = choose|j: int| 0 <= j < self.names().len() && self.names()[j] == q;
                            assert(pre.names()[j] == q);
                        } else if pre@.contains_key(q) {
                            let j = choose|j: int| 0 <= j < pre.names().len() && pre.names()[j] == q;
                            assert(self.names()[j] == q);
                        }
                    }
                    assert forall|q: Seq<char>| self@.contains_key(q) implies #[trigger] self@[q]
                        == pre@.insert(kv, value)[q] by {
                        let j = choose|j: int| 0 <= j < self.names().len() && self.names()[j] == q;
                        self.lemma_entry(j);
                        if j != last {
                            pre.lemma_entry(j);
                        }
                    }
                    assert(self@ =~= pre@.insert(kv, value));
                }
                None
            },
        }
    }

    /// The names and their values, in the order of `names`.
    pub fn entries(&self) -> (r: &Vec<(String, V)>)
        ensures
            r@.len() == self.names().len(),
            forall|i: int|
                0 <= i < r@.len() ==> (#[trigger] r@[i]).0@ == self.names()[i] && self@[r@[i].0@]
                    == r@[i].1,
    {
        proof {
            use_type_invariant(self);
            assert forall|i: int| 0 <= i < self.entries@.len() implies self@[(
            #[trigger] self.entries@[i]).0@] == self.entries@[i].1 by {
                self.lemma_entry(i);
            }
        }
        &self.entries
    }
}

} // verus!
