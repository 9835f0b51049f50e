use vstd::prelude::*;
use crate::crossword::{
    consistent, initial_model, register_step, solve_step, CrosswordError, RegistryModel,
};
use crate::hashing::solution_key_of;
use crate::types::{Answer, PuzzleModel, StatusModel};

verus! {

/// One operation on a registry, in abstract form.
pub enum Operation {
    Register { caller: Seq<char>, key: Seq<char>, answers: Seq<Answer> },
    Submit { key: Seq<char>, memo: Seq<char> },
}

/// The state after one operation, whatever its outcome.
pub open spec fn apply(m: RegistryModel, op: Operation) -> RegistryModel {
    match op {
        Operation::Register { caller, key, answers } => register_step(m, caller, key, answers).0,
        Operation::Submit { key, memo } => solve_step(m, key, memo).0,
    }
}

/// The state after a sequence of operations, applied in order.
pub open spec fn run(m: RegistryModel, ops: Seq<Operation>) -> RegistryModel
    decreases ops.len(),
{
    if ops.len() == 0 {
        m
    } else {
        apply(run(m, ops.drop_last()), ops.last())
    }
}

/// A submission whose text does not hash to a registered puzzle fails with
/// `IncorrectAnswer` and changes nothing.
pub proof fn lemma_unregistered_submission_rejected(
    m: RegistryModel,
    solution: Seq<char>,
    memo: Seq<char>,
)
    requires
        !m.puzzles.contains_key(solution_key_of(solution)),
    ensures
        solve_step(m, solution_key_of(solution), memo) == (m, Err::<(), CrosswordError>(
            CrosswordError::IncorrectAnswer,
        )),
{
}

/// The first correct submission for an open puzzle succeeds and records its
/// memo; any later submission of a text with the same hash, the same text
/// included, fails with `AlreadySolved` and changes nothing.
pub proof fn lemma_solved_exactly_once(
    m: RegistryModel,
    first: Seq<char>,
    memo: Seq<char>,
    later: Seq<char>,
    later_memo: Seq<char>,
)
    requires
        m.puzzles.contains_key(solution_key_of(first)),
        m.puzzles[solution_key_of(first)].status is Unsolved,
        solution_key_of(later) == solution_key_of(first),
    ensures
        ({
            let key = solution_key_of(first);
            let (m1, r1) = solve_step(m, key, memo);
            &&& r1 == Ok::<(), CrosswordError>(())
            &&& m1.puzzles[key].status == (StatusModel::Solved { memo })
            &&& !m1.unsolved.contains(key)
            &&& solve_step(m1, solution_key_of(later), later_memo) == (m1, Err::<
                (),
                CrosswordError,
            >(CrosswordError::AlreadySolved))
        }),
{
}

/// Once solved, a puzzle stays solved with the same memo and answers,
/// whatever operation follows.
pub proof fn lemma_solved_is_terminal(m: RegistryModel, key: Seq<char>, op: Operation)
    requires
        m.puzzles.contains_key(key),
        m.puzzles[key].status is Solved,
    ensures
        apply(m, op).puzzles.contains_key(key),
        apply(m, op).puzzles[key] == m.puzzles[key],
{
}

/// Registering the same hash twice as the owner fails the second time with
/// `DuplicateKey`, and the puzzle kept is the one stored first.
pub proof fn lemma_register_twice(
    m: RegistryModel,
    key: Seq<char>,
    answers: Seq<Answer>,
    other_answers: Seq<Answer>,
)
    ensures
        ({
            let (m1, r1) = register_step(m, m.owner, key, answers);
            let (m2, r2) = register_step(m1, m.owner, key, other_answers);
            &&& r2 == Err::<(), CrosswordError>(CrosswordError::DuplicateKey)
            &&& m2 == m1
            &&& r1 is Ok ==> m2.puzzles[key] == (PuzzleModel {
                status: StatusModel::Unsolved,
                answer: answers,
            })
            &&& r1 is Err ==> m2.puzzles[key] == m.puzzles[key]
        }),
{
}

/// Registration by anyone but the owner fails with `Unauthorized` and
/// changes nothing, whatever the hash and answers.
pub proof fn lemma_non_owner_rejected(
    m: RegistryModel,
    caller: Seq<char>,
    key: Seq<char>,
    answers: Seq<Answer>,
)
    requires
        caller != m.owner,
    ensures
        register_step(m, caller, key, answers) == (m, Err::<(), CrosswordError>(
            CrosswordError::Unauthorized,
        )),
{
}

/// Each operation keeps the unsolved set equal to the set of keys whose
/// puzzle is unsolved.
pub proof fn lemma_operation_keeps_consistency(m: RegistryModel, op: Operation)
    requires
        consistent(m),
    ensures
        consistent(apply(m, op)),
{
    let after = apply(m, op);
    assert forall|k: Seq<char>| #[trigger] after.unsolved.contains(k) <==> (
    after.puzzles.contains_key(k) && after.puzzles[k].status is Unsolved) by {
        assert(m.unsolved.contains(k) <==> (m.puzzles.contains_key(k)
            && m.puzzles[k].status is Unsolved));
    }
}

/// After any sequence of operations on a fresh registry, the unsolved set is
/// exactly the set of keys whose puzzle is unsolved.
pub proof fn lemma_consistent_after_any_operations(owner: Seq<char>, ops: Seq<Operation>)
    ensures
        consistent(run(initial_model(owner), ops)),
    decreases ops.len(),
{
    if ops.len() == 0 {
        assert(consistent(initial_model(owner)));
    } else {
        lemma_consistent_after_any_operations(owner, ops.drop_last());
        lemma_operation_keeps_consistency(run(initial_model(owner), ops.drop_last()), ops.last());
    }
}

/// A text always maps to the same key, and two texts with the same key are
/// treated alike by a submission: same outcome, same state after.
pub proof fn lemma_outcome_depends_on_hash_only(
    m: RegistryModel,
    solution: Seq<char>,
    other: Seq<char>,
    memo: Seq<char>,
)
    ensures
        solution == other ==> solution_key_of(solution) == solution_key_of(other),
        solution_key_of(solution) == solution_key_of(other) ==> solve_step(
            m,
            solution_key_of(solution),
            memo,
        ) == solve_step(m, solution_key_of(other), memo),
{
}

} // verus!
