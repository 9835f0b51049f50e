use vstd::prelude::*;

verus! {

/// A position on the puzzle grid.
#[derive(Clone, Copy, Debug, PartialEq, Eq, Structural)]
pub struct CoordinatePair {
    pub x: u8,
    pub y: u8,
}

/// The direction in which an answer is written on the grid.
#[derive(Clone, Copy, Debug, PartialEq, Eq, Structural)]
pub enum AnswerDirection {
    Across,
    Down,
}

/// One clue's placement on the grid.
#[derive(Clone, Debug)]
pub struct Answer {
    pub num: u8,
    pub start: CoordinatePair,
    pub direction: AnswerDirection,
    pub length: u8,
    pub clue: String,
}

/// Whether a puzzle has been solved, and with which memo.
#[derive(Clone, Debug)]
pub enum PuzzleStatus {
    Unsolved,
    Solved { memo: String },
}

/// The abstract status of a puzzle: the memo is seen as a character sequence.
pub enum StatusModel {
    Unsolved,
    Solved { memo: Seq<char> },
}

impl View for PuzzleStatus {
    type V = StatusModel;

    open spec fn view(&self) -> StatusModel {
        match self {
            PuzzleStatus::Unsolved => StatusModel::Unsolved,
            PuzzleStatus::Solved { memo } => StatusModel::Solved { memo: memo@ },
        }
    }
}

/// A stored puzzle: its status and its ordered answers. The solution hash
/// under which it is stored is not part of the record.
#[derive(Debug)]
pub struct Puzzle {
    pub status: PuzzleStatus,
    pub answer: Vec<Answer>,
}

/// The abstract content of a puzzle record.
pub struct PuzzleModel {
    pub status: StatusModel,
    pub answer: Seq<Answer>,
}

impl View for Puzzle {
    type V = PuzzleModel;

    open spec fn view(&self) -> PuzzleModel {
        PuzzleModel { status: self.status@, answer: self.answer@ }
    }
}

impl Puzzle {
    /// A fresh, unsolved puzzle holding the given answers.
    pub fn new(answers: Vec<Answer>) -> (r: Puzzle)
        ensures
            r@ == (PuzzleModel { status: StatusModel::Unsolved, answer: answers@ }),
    {
        Puzzle { status: PuzzleStatus::Unsolved, answer: answers }
    }

    /// Whether the puzzle is still open.
    pub fn is_unsolved(&self) -> (r: bool)
        ensures
            r == (self@.status is Unsolved),
    {
        match self.status {
            PuzzleStatus::Unsolved => true,
            PuzzleStatus::Solved { .. } => false,
        }
    }
}

/// A puzzle together with the hash it is stored under, for inspection.
#[derive(Debug)]
pub struct JsonPuzzle {
    pub solution_hash: String,
    pub status: PuzzleStatus,
    pub answer: Vec<Answer>,
}

} // verus!
