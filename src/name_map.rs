use vstd::prelude::*;

verus! {

/// A map from names to values, stored as a list of entries whose keys are
/// pairwise distinct. Entries keep the order in which their keys were first
/// inserted.
pub struct NameMap<T> {
    entries: Vec<(String, T)>,
}

impl<T> View for NameMap<T> {
    type V = Map<Seq<char>, T>;

    closed spec fn view(&self) -> Map<Seq<char>, T> {
        Map::new(|k: Seq<char>| self.has_key(k), |k: Seq<char>| self.entries@[self.index_of(k)].1)
    }
}

impl<T> NameMap<T> {
    /// The entries, in the order in which their keys were first inserted.
    pub closed spec fn entries(&self) -> Seq<(String, T)> {
        self.entries@
    }

    /// No key occurs twice among the entries.
    pub closed spec fn wf(&self) -> bool {
        forall|i: int, j: int|
            0 <= i < j < self.entries@.len() ==> self.entries@[i].0@ != self.entries@[j].0@
    }

    closed spec fn has_key(&self, k: Seq<char>) -> bool {
        exists|i: int| 0 <= i < self.entries@.len() && self.entries@[i].0@ == k
    }

    closed spec fn index_of(&self, k: Seq<char>) -> int {
        choose|i: int| 0 <= i < self.entries@.len() && self.entries@[i].0@ == k
    }

    /// The entry at position `i` stands for key `k` in the view.
    proof fn lemma_entry_at(&self, i: int)
        requires
            self.wf(),
            0 <= i < self.entries@.len(),
        ensures
            self@.contains_key(self.entries@[i].0@),
            self.index_of(self.entries@[i].0@) == i,
            self@[self.entries@[i].0@] == self.entries@[i].1,
    {
        let k = self.entries@[i].0@;
        assert(self.has_key(k));
        let j = self.index_of(k);
        assert(0 <= j < self.entries@.len() && self.entries@[j].0@ == k);
        if j != i {
            if j < i {
                assert(self.entries@[j].0@ != self.entries@[i].0@);
            } else {
                assert(self.entries@[i].0@ != self.entries@[j].0@);
            }
        }
    }

    /// Every position of the entries stands for its key, and every key of the
    /// view has a position.
    proof fn lemma_entries(&self)
        requires
            self.wf(),
        ensures
            forall|i: int|
                0 <= i < self.entries().len() ==> {
                    &&& #[trigger] self@.contains_key(self.entries()[i].0@)
                    &&& self@[self.entries()[i].0@] == self.entries()[i].1
                },
            forall|k: Seq<char>|
                #[trigger] self@.contains_key(k) ==> exists|i: int|
                    0 <= i < self.entries().len() && self.entries()[i].0@ == k,
            self@.dom().finite(),
    {
        assert forall|i: int| 0 <= i < self.entries().len() implies {
            &&& #[trigger] self@.contains_key(self.entries()[i].0@)
            &&& self@[self.entries()[i].0@] == self.entries()[i].1
        } by {
            self.lemma_entry_at(i);
        }
        let keys = self.entries@.map_values(|e: (String, T)| e.0@).to_set();
        assert forall|k: Seq<char>| #[trigger] self@.dom().contains(k) implies keys.contains(k) by {
            let i = self.index_of(k);
            assert(self.entries@.map_values(|e: (String, T)| e.0@)[i] == k);
        }
        assert forall|k: Seq<char>| #[trigger] self@.contains_key(k) implies exists|i: int|
            0 <= i < self.entries().len() && self.entries()[i].0@ == k by {
            let i = self.index_of(k);
            assert(0 <= i < self.entries().len() && self.entries()[i].0@ == k);
        }
        assert(self@.dom().subset_of(keys));
        vstd::set_lib::lemma_len_subset(self@.dom(), keys);
    }

    pub fn new() -> (r: Self)
        ensures
            r.wf(),
            r@ == Map::<Seq<char>, T>::empty(),
            r.entries().len() == 0,
    {
        let r = NameMap { entries: Vec::new() };
        assert(r@ =~= Map::<Seq<char>, T>::empty());
        r
    }

    /// Position of the entry whose key is `k`, if any.
    fn find(&self, k: &str) -> (r: Option<usize>)
        requires
            self.wf(),
        ensures
            match r {
                Some(i) => i < self.entries@.len() && self.entries@[i as int].0@ == k@,
                None => !self@.contains_key(k@),
            },
    {
        let mut i: usize = 0;
        while i < self.entries.len()
            invariant
                i <= self.entries@.len(),
                forall|j: int| 0 <= j < i ==> self.entries@[j].0@ != k@,
            decreases self.entries@.len() - i,
        {
            if string_eq(&self.entries[i].0, k) {
                return Some(i);
            }
            i += 1;
        }
        None
    }

    pub fn contains_key(&self, k: &str) -> (r: bool)
        requires
            self.wf(),
        ensures
            r == self@.contains_key(k@),
    {
        match self.find(k) {
            Some(i) => {
                proof {
                    self.lemma_entry_at(i as int);
                }
                true
            },
            None => false,
        }
    }

    pub fn get(&self, k: &str) -> (r: Option<&T>)
        requires
            self.wf(),
        ensures
            match r {
                Some(v) => self@.contains_key(k@) && *v == self@[k@],
                None => !self@.contains_key(k@),
            },
    {
        match self.find(k) {
            Some(i) => {
                proof {
                    self.lemma_entry_at(i as int);
                }
                Some(&self.entries[i].1)
            },
            None => None,
        }
    }

    /// The keys, in entry order.
    pub fn keys(&self) -> (r: Vec<String>)
        requires
            self.wf(),
        ensures
            r@.len() == self.entries().len(),
            forall|i: int| 0 <= i < r@.len() ==> #[trigger] r@[i]@ == self.entries()[i].0@,
            forall|i: int, j: int| 0 <= i < j < r@.len() ==> r@[i]@ != r@[j]@,
            forall|i: int| 0 <= i < r@.len() ==> #[trigger] self@.contains_key(r@[i]@),
            forall|k: Seq<char>|
                #[trigger] self@.contains_key(k) ==> exists|i: int| 0 <= i < r@.len() && r@[i]@ == k,
    {
        proof {
            self.lemma_entries();
        }
        let mut r: Vec<String> = Vec::new();
        let mut i: usize = 0;
        while i < self.entries.len()
            invariant
                i <= self.entries@.len(),
                r@.len() == i,
                forall|j: int| 0 <= j < i ==> #[trigger] r@[j]@ == self.entries@[j].0@,
            decreases self.entries@.len() - i,
        {
            r.push(self.entries[i].0.clone());
            i += 1;
        }
        assert forall|k: Seq<char>| #[trigger] self@.contains_key(k) implies exists|i: int|
            0 <= i < r@.len() && r@[i]@ == k by {
            let i = choose|i: int| 0 <= i < self.entries().len() && self.entries()[i].0@ == k;
            assert(r@[i]@ == k);
        }
        r
    }

    /// Sets the value of `k` to `v`, adding the key at the end if it was
    /// absent. Returns the value that `k` had before, if any.
    pub fn insert(&mut self, k: String, v: T) -> (r: Option<T>)
        requires
            old(self).wf(),
        ensures
            final(self).wf(),
            final(self)@ == old(self)@.insert(k@, v),
            match r {
                Some(p) => old(self)@.contains_key(k@) && p == old(self)@[k@],
                None => !old(self)@.contains_key(k@),
            },
    {
        match self.find(k.as_str()) {
            Some(i) => {
                proof {
                    self.lemma_entry_at(i as int);
                }
                let ghost before = *self;
                let (_, p) = self.entries.remove(i);
                self.entries.insert(i, (k, v));
                proof {
                    assert(self.entries@ == before.entries@.update(i as int, self.entries@[i as int]));
                    assert(self.wf());
                    self.lemma_same_keys(&before, i as int);
                }
                Some(p)
            },
            None => {
                let ghost before = *self;
                self.entries.push((k, v));
                proof {
                    assert(self.entries@.drop_last() =~= before.entries@);
                    self.lemma_pushed(&before);
                }
                None
            },
        }
    }

    /// Takes out the entry of `k`, if any, returning its key and value.
    pub fn remove(&mut self, k: &str) -> (r: Option<(String, T)>)
        requires
            old(self).wf(),
        ensures
            final(self).wf(),
            final(self)@ == old(self)@.remove(k@),
            match r {
                Some(e) => old(self)@.contains_key(k@) && e.0@ == k@ && e.1 == old(self)@[k@],
                None => !old(self)@.contains_key(k@),
            },
    {
        match self.find(k) {
            Some(i) => {
                proof {
                    self.lemma_entry_at(i as int);
                }
                let ghost before = *self;
                let e = self.entries.remove(i);
                proof {
                    self.lemma_removed(&before, i as int);
                }
                Some(e)
            },
            None => {
                proof {
                    assert(self@ =~= self@.remove(k@));
                }
                None
            },
        }
    }

    proof fn lemma_removed(&self, before: &Self, i: int)
        requires
            before.wf(),
            0 <= i < before.entries@.len(),
            self.entries@ == before.entries@.remove(i),
        ensures
            self.wf(),
            self@ == before@.remove(before.entries@[i].0@),
    {
        let n = before.entries@.len() as int;
        let k = before.entries@[i].0@;
        assert forall|j: int| 0 <= j < n - 1 implies #[trigger] self.entries@[j] == before.entries@[if j < i { j } else { j + 1 }] by {}
        assert forall|a: int, b: int| 0 <= a < b < self.entries@.len() implies self.entries@[a].0@ != self.entries@[b].0@ by {
            let a0 = if a < i { a } else { a + 1 };
            let b0 = if b < i { b } else { b + 1 };
            assert(self.entries@[a] == before.entries@[a0]);
            assert(self.entries@[b] == before.entries@[b0]);
        }
        assert(self.wf());
        assert forall|x: Seq<char>| #[trigger] self@.contains_key(x) == before@.remove(k).contains_key(x) by {
            if self.has_key(x) {
                let j = self.index_of(x);
                let j0 = if j < i { j } else { j + 1 };
                assert(self.entries@[j] == before.entries@[j0]);
                assert(before.entries@[j0].0@ == x);
                assert(j0 != i);
                assert(x != k);
            }
            if before.has_key(x) && x != k {
                let j = before.index_of(x);
                assert(j != i);
                let j1 = if j < i { j } else { j - 1 };
                assert(self.entries@[j1] == before.entries@[j]);
            }
        }
        assert forall|x: Seq<char>| #[trigger] self@.contains_key(x) implies self@[x] == before@.remove(k)[x] by {
            let j = self.index_of(x);
            self.lemma_entry_at(j);
            let j0 = if j < i { j } else { j + 1 };
            assert(self.entries@[j] == before.entries@[j0]);
            before.lemma_entry_at(j0);
        }
        assert(self@ =~= before@.remove(k));
    }

    proof fn lemma_same_keys(&self, before: &Self, i: int)
        requires
            before.wf(),
            self.wf(),
            0 <= i < before.entries@.len(),
            self.entries@ == before.entries@.update(i, self.entries@[i]),
            self.entries@[i].0@ == before.entries@[i].0@,
        ensures
            self@ == before@.insert(self.entries@[i].0@, self.entries@[i].1),
    {
        let k = self.entries@[i].0@;
        assert forall|x: Seq<char>| #[trigger] self@.contains_key(x) == before@.insert(k, self.entries@[i].1).contains_key(x) by {
            if self.has_key(x) {
                let j = self.index_of(x);
                assert(j == i || before.entries@[j].0@ == x);
            }
            if before.has_key(x) {
                let j = before.index_of(x);
                assert(j == i || self.entries@[j].0@ == x);
            }
        }
        assert forall|x: Seq<char>| #[trigger] self@.contains_key(x) implies self@[x] == before@.insert(k, self.entries@[i].1)[x] by {
            let j = self.index_of(x);
            self.lemma_entry_at(j);
            if j != i {
                before.lemma_entry_at(j);
            }
        }
        assert(self@ =~= before@.insert(k, self.entries@[i].1));
    }

    proof fn lemma_pushed(&self, before: &Self)
        requires
            before.wf(),
            self.entries@.len() == before.entries@.len() + 1,
            self.entries@.drop_last() == before.entries@,
            !before@.contains_key(self.entries@.last().0@),
        ensures
            self.wf(),
            self@ == before@.insert(self.entries@.last().0@, self.entries@.last().1),
    {
        let n = before.entries@.len() as int;
        let k = self.entries@[n].0@;
        assert forall|i: int| 0 <= i < n implies self.entries@[i] == before.entries@[i] by {
            assert(self.entries@.drop_last()[i] == self.entries@[i]);
        }
        assert forall|i: int| 0 <= i < n implies self.entries@[i].0@ != k by {
            before.lemma_entry_at(i);
        }
        assert(self.wf());
        assert forall|x: Seq<char>| #[trigger] self@.contains_key(x) == before@.insert(k, self.entries@[n].1).contains_key(x) by {
            if self.has_key(x) {
                let j = self.index_of(x);
                assert(j == n || before.entries@[j].0@ == x);
            }
            if before.has_key(x) {
                let j = before.index_of(x);
                assert(self.entries@[j].0@ == x);
            }
        }
        assert forall|x: Seq<char>| #[trigger] self@.contains_key(x) implies self@[x] == before@.insert(k, self.entries@[n].1)[x] by {
            let j = self.index_of(x);
            self.lemma_entry_at(j);
            if j != n {
                before.lemma_entry_at(j);
            }
        }
        assert(self@ =~= before@.insert(k, self.entries@[n].1));
    }
}

/// Character-wise equality of two strings.
pub fn string_eq(a: &String, b: &str) -> (r: bool)
    ensures
        r == (a@ == b@),
{
    let s = a.as_str();
    let n = s.unicode_len();
    if n != b.unicode_len() {
        return false;
    }
    let mut i: usize = 0;
    while i < n
        invariant
            s@ == a@,
            n == s@.len(),
            n == b@.len(),
            i <= n,
            forall|j: int| 0 <= j < i ==> s@[j] == b@[j],
        decreases n - i,
    {
        if s.get_char(i) != b.get_char(i) {
            assert(s@[i as int] != b@[i as int]);
            return false;
        }
        i += 1;
    }
    assert(s@ =~= b@);
    true
}

} // verus!
