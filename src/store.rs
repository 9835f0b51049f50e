use vstd::prelude::*;
use crate::types::{Puzzle, PuzzleModel, PuzzleStatus, StatusModel};

verus! {

/// Puzzle records indexed by solution hash. A key is stored at most once,
/// and a record, once stored, is never removed.
pub struct PuzzleStore {
    keys: Vec<String>,
    records: Vec<Puzzle>,
}

impl View for PuzzleStore {
    type V = Map<Seq<char>, PuzzleModel>;

    closed spec fn view(&self) -> Map<Seq<char>, PuzzleModel> {
        Map::new(
            |k: Seq<char>| exists|i: int| 0 <= i < self.keys.len() && self.keys@[i]@ == k,
            |k: Seq<char>|
                self.records@[choose|i: int| 0 <= i < self.keys.len() && self.keys@[i]@ == k]@,
        )
    }
}

impl PuzzleStore {
    /// Keys and records line up, and no key occurs twice.
    pub closed spec fn wf(&self) -> bool {
        &&& self.keys.len() == self.records.len()
        &&& forall|i: int, j: int|
            0 <= i < self.keys.len() && 0 <= j < self.keys.len() && i != j
                ==> self.keys@[i]@ != self.keys@[j]@
    }

    proof fn lemma_view_at(&self, i: int)
        requires
            self.wf(),
            0 <= i < self.keys.len(),
        ensures
            self@.contains_key(self.keys@[i]@),
            self@[self.keys@[i]@] == self.records@[i]@,
    {
        let k = self.keys@[i]@;
        assert(0 <= i < self.keys.len() && self.keys@[i]@ == k);
        let j = choose|j: int| 0 <= j < self.keys.len() && self.keys@[j]@ == k;
        assert(i == j);
    }

    /// An empty store.
    pub fn new() -> (r: PuzzleStore)
        ensures
            r.wf(),
            r@ == Map::<Seq<char>, PuzzleModel>::empty(),
    {
        let r = PuzzleStore { keys: Vec::new(), records: Vec::new() };
        assert(r@ =~= Map::<Seq<char>, PuzzleModel>::empty());
        r
    }

    fn find(&self, key: &str) -> (r: Option<usize>)
        requires
            self.wf(),
        ensures
            match r {
                Some(i) => i < self.keys.len() && self.keys@[i as int]@ == key@,
                None => !self@.contains_key(key@),
            },
    {
        let wanted = key.to_owned();
        let mut i: usize = 0;
        while i < self.keys.len()
            invariant
                i <= self.keys.len(),
                wanted@ == key@,
                forall|j: int| 0 <= j < i ==> self.keys@[j]@ != key@,
            decreases self.keys.len() - i,
        {
            if self.keys[i] == wanted {
                return Some(i);
            }
            i = i + 1;
        }
        None
    }

    /// Whether a puzzle is stored under `key`.
    pub fn contains(&self, key: &str) -> (r: bool)
        requires
            self.wf(),
        ensures
            r == self@.contains_key(key@),
    {
        match self.find(key) {
            Some(i) => {
                proof {
                    self.lemma_view_at(i as int);
                }
                true
            },
            None => false,
        }
    }

    /// The puzzle stored under `key`, if any.
    pub fn get(&self, key: &str) -> (r: Option<&Puzzle>)
        requires
            self.wf(),
        ensures
            r is Some <==> self@.contains_key(key@),
            r is Some ==> r->0@ == self@[key@],
    {
        match self.find(key) {
            Some(i) => {
                proof {
                    self.lemma_view_at(i as int);
                }
                Some(&self.records[i])
            },
            None => None,
        }
    }

    /// Stores `puzzle` under `key` unless that key is taken. Returns whether
    /// it was stored; a taken key leaves the store as it was.
    pub fn insert_new(&mut self, key: String, puzzle: Puzzle) -> (r: bool)
        requires
            old(self).wf(),
        ensures
            final(self).wf(),
            r == !old(self)@.contains_key(key@),
            r ==> final(self)@ == old(self)@.insert(key@, puzzle@),
            !r ==> final(self)@ == old(self)@,
    {
        match self.find(key.as_str()) {
            Some(i) => {
                proof {
                    self.lemma_view_at(i as int);
                }
                false
            },
            None => {
                let ghost before = *self;
                let ghost k = key@;
                let ghost v = puzzle@;
                self.keys.push(key);
                self.records.push(puzzle);
                proof {
                    let n = before.keys.len() as int;
                    assert forall|i: int| 0 <= i < n implies before.keys@[i]@ != k by {
                        before.lemma_view_at(i);
                    }
                    assert(self.keys@[n]@ == k);
                    assert forall|q: Seq<char>| #[trigger] self@.contains_key(q)
                        == before@.insert(k, v).contains_key(q) by {
                        if before@.contains_key(q) {
                            let i = choose|i: int| 0 <= i < n && before.keys@[i]@ == q;
                            assert(self.keys@[i]@ == q);
                        }
                        if q == k {
                            assert(self.keys@[n]@ == q);
                        }
                        if self@.contains_key(q) && q != k {
                            let i = choose|i: int| 0 <= i < n + 1 && self.keys@[i]@ == q;
                            assert(before.keys@[i]@ == q);
                        }
                    }
                    assert forall|q: Seq<char>| #[trigger] self@.contains_key(q)
                        implies self@[q] == before@.insert(k, v)[q] by {
                        let i = choose|i: int| 0 <= i < n + 1 && self.keys@[i]@ == q;
                        self.lemma_view_at(i);
                        if i < n {
                            before.lemma_view_at(i);
                        }
                    }
                    assert(self@ =~= before@.insert(k, v));
                }
                true
            },
        }
    }

    /// Overwrites the status of the puzzle stored under `key`, keeping its
    /// answers.
    pub fn set_status(&mut self, key: &str, status: PuzzleStatus)
        requires
            old(self).wf(),
            old(self)@.contains_key(key@),
        ensures
            final(self).wf(),
            final(self)@ == old(self)@.insert(
                key@,
                PuzzleModel { status: status@, answer: old(self)@[key@].answer },
            ),
    {
        match self.find(key) {
            Some(i) => {
                let ghost before = *self;
                proof {
                    before.lemma_view_at(i as int);
                }
                let mut p = self.records.remove(i);
                p.status = status;
                self.records.insert(i, p);
                proof {
                    let v = p@;
                    assert(self.records@ == before.records@.update(i as int, p));
                    assert(self.keys == before.keys);
                    assert forall|q: Seq<char>| #[trigger] self@.contains_key(q)
                        == before@.contains_key(q) by {
                        if before@.contains_key(q) {
                            let j = choose|j: int| 0 <= j < self.keys.len() && before.keys@[j]@ == q;
                            assert(self.keys@[j]@ == q);
                        }
                    }
                    assert forall|q: Seq<char>| #[trigger] self@.contains_key(q)
                        implies self@[q] == before@.insert(key@, v)[q] by {
                        let j = choose|j: int| 0 <= j < self.keys.len() && self.keys@[j]@ == q;
                        self.lemma_view_at(j);
                        before.lemma_view_at(j);
                    }
                    assert(self@ =~= before@.insert(key@, v));
                }
            },
            None => {},
        }
    }
}

} // verus!
