use vstd::prelude::*;
use crate::hashing::{solution_key, solution_key_of};
use crate::store::PuzzleStore;
use crate::types::{Answer, Puzzle, PuzzleModel, PuzzleStatus, StatusModel};
use crate::unsolved::UnsolvedIndex;

verus! {

/// The reward, in yoctoNEAR, paid to the first correct solver of a puzzle.
pub const PRIZE_AMOUNT: u128 = 5_000_000_000_000_000_000_000_000;

/// Why an operation on the registry was refused. A refused operation leaves
/// the registry unchanged.
#[derive(Clone, Copy, Debug, PartialEq, Eq, Structural)]
pub enum CrosswordError {
    /// Someone other than the owner tried to register a puzzle.
    Unauthorized,
    /// A puzzle is already registered under that hash.
    DuplicateKey,
    /// The submitted text does not hash to any registered puzzle.
    IncorrectAnswer,
    /// The puzzle for that hash has already been solved.
    AlreadySolved,
}

/// The abstract state of a registry.
pub struct RegistryModel {
    pub owner: Seq<char>,
    pub puzzles: Map<Seq<char>, PuzzleModel>,
    pub unsolved: Set<Seq<char>>,
}

/// The unsolved keys are exactly the stored keys whose puzzle is unsolved.
pub open spec fn consistent(m: RegistryModel) -> bool {
    forall|k: Seq<char>|
        #[trigger] m.unsolved.contains(k) <==> (m.puzzles.contains_key(k)
            && m.puzzles[k].status is Unsolved)
}

/// A fresh registry: the owner, no puzzles, nothing unsolved.
pub open spec fn initial_model(owner: Seq<char>) -> RegistryModel {
    RegistryModel { owner, puzzles: Map::empty(), unsolved: Set::empty() }
}

/// Registration of `answers` under `key` by `caller`: the state after, and
/// the outcome.
pub open spec fn register_step(
    m: RegistryModel,
    caller: Seq<char>,
    key: Seq<char>,
    answers: Seq<Answer>,
) -> (RegistryModel, Result<(), CrosswordError>) {
    if caller != m.owner {
        (m, Err(CrosswordError::Unauthorized))
    } else if m.puzzles.contains_key(key) {
        (m, Err(CrosswordError::DuplicateKey))
    } else {
        (
            RegistryModel {
                owner: m.owner,
                puzzles: m.puzzles.insert(
                    key,
                    PuzzleModel { status: StatusModel::Unsolved, answer: answers },
                ),
                unsolved: m.unsolved.insert(key),
            },
            Ok(()),
        )
    }
}

/// A submission whose solution hashes to `key`, with `memo`: the state
/// after, and the outcome. On success the submitter is owed the prize.
pub open spec fn solve_step(m: RegistryModel, key: Seq<char>, memo: Seq<char>) -> (
    RegistryModel,
    Result<(), CrosswordError>,
) {
    if !m.puzzles.contains_key(key) {
        (m, Err(CrosswordError::IncorrectAnswer))
    } else if m.puzzles[key].status is Solved {
        (m, Err(CrosswordError::AlreadySolved))
    } else {
        (
            RegistryModel {
                owner: m.owner,
                puzzles: m.puzzles.insert(
                    key,
                    PuzzleModel {
                        status: StatusModel::Solved { memo },
                        answer: m.puzzles[key].answer,
                    },
                ),
                unsolved: m.unsolved.remove(key),
            },
            Ok(()),
        )
    }
}

/// Relies on near_sdk::env::predecessor_account_id: the account that made
/// the current call, as text.
#[verifier::external_body]
fn predecessor_account_id() -> (r: String) {
    near_sdk::env::predecessor_account_id().to_string()
}

/// The puzzle registry: its owner, the stored puzzles, and the index of
/// unsolved ones.
pub struct Crossword {
    owner_id: String,
    puzzles: PuzzleStore,
    unsolved_puzzles: UnsolvedIndex,
}

impl View for Crossword {
    type V = RegistryModel;

    closed spec fn view(&self) -> RegistryModel {
        RegistryModel {
            owner: self.owner_id@,
            puzzles: self.puzzles@,
            unsolved: self.unsolved_puzzles@,
        }
    }
}

impl Crossword {
    /// The parts are well formed and agree with each other.
    pub closed spec fn wf(&self) -> bool {
        &&& self.puzzles.wf()
        &&& self.unsolved_puzzles.wf()
        &&& consistent(self@)
    }

    /// A registry owned by `owner_id`, with no puzzles.
    pub fn new(owner_id: String) -> (r: Self)
        ensures
            r.wf(),
            r@ == initial_model(owner_id@),
    {
        Crossword {
            owner_id,
            puzzles: PuzzleStore::new(),
            unsolved_puzzles: UnsolvedIndex::new(),
        }
    }

    /// Registers `answers` under `solution_hash` on behalf of `caller`.
    /// Only the owner may register, and a hash can be registered once.
    pub fn new_puzzle_as(&mut self, caller: &str, solution_hash: String, answers: Vec<Answer>) -> (r:
        Result<(), CrosswordError>)
        requires
            old(self).wf(),
        ensures
            final(self).wf(),
            consistent(final(self)@),
            (final(self)@, r) == register_step(old(self)@, caller@, solution_hash@, answers@),
    {
        let caller_id = caller.to_owned();
        if !(self.owner_id == caller_id) {
            return Err(CrosswordError::Unauthorized);
        }
        let ghost before = self@;
        let key = solution_hash.clone();
        if !self.puzzles.insert_new(solution_hash, Puzzle::new(answers)) {
            return Err(CrosswordError::DuplicateKey);
        }
        self.unsolved_puzzles.add(key);
        proof {
            let after = self@;
            assert forall|k: Seq<char>| #[trigger] after.unsolved.contains(k) <==> (
            after.puzzles.contains_key(k) && after.puzzles[k].status is Unsolved) by {
                assert(before.unsolved.contains(k) <==> (before.puzzles.contains_key(k)
                    && before.puzzles[k].status is Unsolved));
            }
        }
        Ok(())
    }

    /// Registers `answers` under `solution_hash` on behalf of the account
    /// that made the current call.
    pub fn new_puzzle(&mut self, solution_hash: String, answers: Vec<Answer>) -> (r: Result<
        (),
        CrosswordError,
    >)
        requires
            old(self).wf(),
        ensures
            final(self).wf(),
            exists|caller: Seq<char>|
                (final(self)@, r) == #[trigger] register_step(
                    old(self)@,
                    caller,
                    solution_hash@,
                    answers@,
                ),
    {
        let caller = predecessor_account_id();
        self.new_puzzle_as(caller.as_str(), solution_hash, answers)
    }

    /// Marks the puzzle stored under `solution_hash` as solved with `memo`,
    /// if it is registered and still open. On `Ok` the caller is owed
    /// `PRIZE_AMOUNT`.
    pub fn submit_solution_hash(&mut self, solution_hash: String, memo: String) -> (r: Result<
        (),
        CrosswordError,
    >)
        requires
            old(self).wf(),
        ensures
            final(self).wf(),
            consistent(final(self)@),
            (final(self)@, r) == solve_step(old(self)@, solution_hash@, memo@),
    {
        match self.puzzles.get(solution_hash.as_str()) {
            None => {
                return Err(CrosswordError::IncorrectAnswer);
            },
            Some(p) => {
                if !p.is_unsolved() {
                    return Err(CrosswordError::AlreadySolved);
                }
            },
        }
        self.puzzles.set_status(solution_hash.as_str(), PuzzleStatus::Solved { memo });
        self.unsolved_puzzles.remove(solution_hash.as_str());
        Ok(())
    }

    /// Submits a candidate solution: it is hashed and the puzzle stored under
    /// that hash, if open, becomes solved with `memo`. On `Ok` the caller is
    /// owed `PRIZE_AMOUNT`.
    pub fn submit_solution(&mut self, solution: String, memo: String) -> (r: Result<
        (),
        CrosswordError,
    >)
        requires
            old(self).wf(),
        ensures
            final(self).wf(),
            consistent(final(self)@),
            (final(self)@, r) == solve_step(old(self)@, solution_key_of(solution@), memo@),
    {
        let key = solution_key(solution.as_str());
        self.submit_solution_hash(key, memo)
    }

    /// The owner's account.
    pub fn owner_id(&self) -> (r: &str)
        ensures
            r@ == self@.owner,
    {
        self.owner_id.as_str()
    }

    /// The puzzle stored under `solution_hash`, if any.
    pub fn get_puzzle(&self, solution_hash: &str) -> (r: Option<&Puzzle>)
        requires
            self.wf(),
        ensures
            r is Some <==> self@.puzzles.contains_key(solution_hash@),
            r is Some ==> r->0@ == self@.puzzles[solution_hash@],
    {
        self.puzzles.get(solution_hash)
    }

    /// Whether `solution_hash` is among the unsolved puzzles.
    pub fn is_unsolved(&self, solution_hash: &str) -> (r: bool)
        requires
            self.wf(),
        ensures
            r == self@.unsolved.contains(solution_hash@),
    {
        self.unsolved_puzzles.contains(solution_hash)
    }

    /// The hashes of the unsolved puzzles, each once, in no particular order.
    pub fn unsolved_puzzles(&self) -> (r: Vec<String>)
        requires
            self.wf(),
        ensures
            forall|k: Seq<char>| self@.unsolved.contains(k)
                <==> exists|i: int| 0 <= i < r.len() && #[trigger] r@[i]@ == k,
            forall|i: int, j: int|
                0 <= i < r.len() && 0 <= j < r.len() && i != j ==> r@[i]@ != r@[j]@,
    {
        self.unsolved_puzzles.to_vec()
    }
}

} // verus!
