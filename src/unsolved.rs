use vstd::prelude::*;

verus! {

/// The set of solution hashes whose puzzles are still open.
pub struct UnsolvedIndex {
    keys: Vec<String>,
}

impl View for UnsolvedIndex {
    type V = Set<Seq<char>>;

    closed spec fn view(&self) -> Set<Seq<char>> {
        Set::new(|k: Seq<char>| exists|i: int| 0 <= i < self.keys.len() && self.keys@[i]@ == k)
    }
}

impl UnsolvedIndex {
    /// No key is held twice.
    pub closed spec fn wf(&self) -> bool {
        forall|i: int, j: int|
            0 <= i < self.keys.len() && 0 <= j < self.keys.len() && i != j
                ==> self.keys@[i]@ != self.keys@[j]@
    }

    /// An empty index.
    pub fn new() -> (r: UnsolvedIndex)
        ensures
            r.wf(),
            r@ == Set::<Seq<char>>::empty(),
    {
        let r = UnsolvedIndex { keys: Vec::new() };
        assert(r@ =~= Set::<Seq<char>>::empty());
        r
    }

    fn find(&self, key: &str) -> (r: Option<usize>)
        ensures
            match r {
                Some(i) => i < self.keys.len() && self.keys@[i as int]@ == key@,
                None => !self@.contains(key@),
            },
    {
        let wanted = key.to_owned();
        let mut i: usize = 0;
        while i < self.keys.len()
            invariant
                i <= self.keys.len(),
                wanted@ == key@,
                forall|j: int| 0 <= j < i ==> self.keys@[j]@ != key@,
            decreases self.keys.len() - i,
        {
            if self.keys[i] == wanted {
                return Some(i);
            }
            i = i + 1;
        }
        None
    }

    /// Whether `key` is in the index.
    pub fn contains(&self, key: &str) -> (r: bool)
        ensures
            r == self@.contains(key@),
    {
        match self.find(key) {
            Some(i) => {
                assert(0 <= i < self.keys.len() && self.keys@[i as int]@ == key@);
                true
            },
            None => false,
        }
    }

    /// Adds `key`; a key already present is not added again.
    pub fn add(&mut self, key: String)
        requires
            old(self).wf(),
        ensures
            final(self).wf(),
            final(self)@ == old(self)@.insert(key@),
    {
        match self.find(key.as_str()) {
            Some(i) => {
                assert(0 <= i < self.keys.len() && self.keys@[i as int]@ == key@);
                assert(self@ =~= self@.insert(key@));
            },
            None => {
                let ghost before = *self;
                let ghost k = key@;
                self.keys.push(key);
                proof {
                    let n = before.keys.len() as int;
                    assert forall|i: int| 0 <= i < n implies before.keys@[i]@ != k by {
                        assert(0 <= i < before.keys.len() && before.keys@[i]@ == before.keys@[i]@);
                    }
                    assert(self.keys@[n]@ == k);
                    assert forall|q: Seq<char>| #[trigger] self@.contains(q)
                        == before@.insert(k).contains(q) by {
                        if before@.contains(q) {
                            let i = choose|i: int| 0 <= i < n && before.keys@[i]@ == q;
                            assert(self.keys@[i]@ == q);
                        }
                        if self@.contains(q) && q != k {
                            let i = choose|i: int| 0 <= i < n + 1 && self.keys@[i]@ == q;
                            assert(before.keys@[i]@ == q);
                        }
                    }
                    assert(self@ =~= before@.insert(k));
                }
            },
        }
    }

    /// Removes `key`; removing an absent key changes nothing.
    pub fn remove(&mut self, key: &str)
        requires
            old(self).wf(),
        ensures
            final(self).wf(),
            final(self)@ == old(self)@.remove(key@),
    {
        match self.find(key) {
            Some(i) => {
                let ghost before = *self;
                self.keys.remove(i);
                proof {
                    let n = before.keys.len() as int;
                    let ii = i as int;
                    assert forall|q: Seq<char>| #[trigger] self@.contains(q)
                        == before@.remove(key@).contains(q) by {
                        if self@.contains(q) {
                            let j = choose|j: int| 0 <= j < n - 1 && self.keys@[j]@ == q;
                            if j < ii {
                                assert(before.keys@[j]@ == q);
                            } else {
                                assert(before.keys@[j + 1]@ == q);
                            }
                        }
                        if before@.contains(q) && q != key@ {
                            let j = choose|j: int| 0 <= j < n && before.keys@[j]@ == q;
                            if j < ii {
                                assert(self.keys@[j]@ == q);
                            } else {
                                assert(j != ii);
                                assert(self.keys@[j - 1]@ == q);
                            }
                        }
                    }
                    assert(self@ =~= before@.remove(key@));
                }
            },
            None => {
                assert(self@ =~= self@.remove(key@));
            },
        }
    }

    /// The keys of the index, each once, in no particular order.
    pub fn to_vec(&self) -> (r: Vec<String>)
        requires
            self.wf(),
        ensures
            forall|k: Seq<char>| self@.contains(k)
                <==> exists|i: int| 0 <= i < r.len() && #[trigger] r@[i]@ == k,
            forall|i: int, j: int|
                0 <= i < r.len() && 0 <= j < r.len() && i != j ==> r@[i]@ != r@[j]@,
    {
        let mut r: Vec<String> = Vec::new();
        let mut i: usize = 0;
        while i < self.keys.len()
            invariant
                i <= self.keys.len(),
                r.len() == i,
                forall|j: int| 0 <= j < i ==> #[trigger] r@[j]@ == self.keys@[j]@,
            decreases self.keys.len() - i,
        {
            r.push(self.keys[i].clone());
            i = i + 1;
        }
        proof {
            assert forall|k: Seq<char>| self@.contains(k)
                implies exists|i: int| 0 <= i < r.len() && #[trigger] r@[i]@ == k by {
                let i = choose|i: int| 0 <= i < self.keys.len() && self.keys@[i]@ == k;
                assert(r@[i]@ == k);
            }
            assert forall|k: Seq<char>| (exists|i: int| 0 <= i < r.len() && #[trigger] r@[i]@ == k)
                implies self@.contains(k) by {
                let i = choose|i: int| 0 <= i < r.len() && #[trigger] r@[i]@ == k;
                assert(self.keys@[i]@ == k);
            }
        }
        r
    }
}

} // verus!
