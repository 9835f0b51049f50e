use crossword::crossword::{Crossword, CrosswordError, PRIZE_AMOUNT};
use crossword::hashing::solution_key;
use crossword::store::PuzzleStore;
use crossword::types::{Answer, AnswerDirection, CoordinatePair, Puzzle, PuzzleStatus};
use crossword::unsolved::UnsolvedIndex;

const CORRECT_HASH: &str = "db030431579196a8e24b1a860a31fd92171b4b2851066c2a6ac196c6bbdb408f";

fn answer(num: u8, x: u8, y: u8, direction: AnswerDirection, length: u8, clue: &str) -> Answer {
    Answer {
        num,
        start: CoordinatePair { x, y },
        direction,
        length,
        clue: clue.to_string(),
    }
}

fn two_answers() -> Vec<Answer> {
    vec![
        answer(1, 0, 0, AnswerDirection::Across, 7, "Unit of a chain"),
        answer(2, 3, 0, AnswerDirection::Down, 5, "Digest of a block"),
    ]
}

fn memo_of(p: &Puzzle) -> Option<String> {
    match &p.status {
        PuzzleStatus::Unsolved => None,
        PuzzleStatus::Solved { memo } => Some(memo.clone()),
    }
}

#[test]
fn solution_key_is_lowercase_hex_of_sha256() {
    assert_eq!(solution_key("CORRECTPHRASE"), CORRECT_HASH);
    assert_eq!(
        solution_key(""),
        "e3b0c44298fc1c149afbf4c8996fb92427ae41e4649b934ca495991b7852b855"
    );
    assert_eq!(
        solution_key("The phrase that will be hashed"),
        "7fc38bc74a0d0e592d2b8381839adc2649007d5bca11f92eeddef78681b4e3a3"
    );
}

#[test]
fn solution_key_is_deterministic() {
    let a = solution_key("CORRECTPHRASE");
    let b = solution_key("CORRECTPHRASE");
    assert_eq!(a, b);
    assert_eq!(a.len(), 64);
    assert_ne!(solution_key("WRONGPHRASE"), a);
}

#[test]
fn end_to_end_scenario() {
    let mut c = Crossword::new("owner".to_string());
    assert_eq!(c.new_puzzle_as("owner", CORRECT_HASH.to_string(), two_answers()), Ok(()));
    assert!(c.is_unsolved(CORRECT_HASH));
    assert_eq!(memo_of(c.get_puzzle(CORRECT_HASH).unwrap()), None);

    assert_eq!(c.submit_solution("CORRECTPHRASE".to_string(), "nice job".to_string()), Ok(()));
    let p = c.get_puzzle(CORRECT_HASH).unwrap();
    assert_eq!(memo_of(p), Some("nice job".to_string()));
    assert_eq!(p.answer.len(), 2);
    assert_eq!(p.answer[1].clue, "Digest of a block");
    assert!(!c.is_unsolved(CORRECT_HASH));
    assert!(c.unsolved_puzzles().is_empty());

    assert_eq!(
        c.submit_solution("CORRECTPHRASE".to_string(), "me too".to_string()),
        Err(CrosswordError::AlreadySolved)
    );
    assert_eq!(memo_of(c.get_puzzle(CORRECT_HASH).unwrap()), Some("nice job".to_string()));
}

#[test]
fn unregistered_submission_is_incorrect_answer() {
    let mut c = Crossword::new("owner".to_string());
    assert_eq!(
        c.submit_solution("CORRECTPHRASE".to_string(), "memo".to_string()),
        Err(CrosswordError::IncorrectAnswer)
    );
    c.new_puzzle_as("owner", CORRECT_HASH.to_string(), two_answers()).unwrap();
    assert_eq!(
        c.submit_solution("WRONGPHRASE".to_string(), "memo".to_string()),
        Err(CrosswordError::IncorrectAnswer)
    );
    assert!(c.is_unsolved(CORRECT_HASH));
    assert_eq!(memo_of(c.get_puzzle(CORRECT_HASH).unwrap()), None);
}

#[test]
fn submission_by_hash_succeeds_once() {
    let mut c = Crossword::new("owner".to_string());
    c.new_puzzle_as("owner", "h1".to_string(), two_answers()).unwrap();
    assert_eq!(c.submit_solution_hash("h1".to_string(), "first".to_string()), Ok(()));
    assert_eq!(
        c.submit_solution_hash("h1".to_string(), "second".to_string()),
        Err(CrosswordError::AlreadySolved)
    );
    assert_eq!(memo_of(c.get_puzzle("h1").unwrap()), Some("first".to_string()));
}

#[test]
fn register_twice_is_duplicate_key() {
    let mut c = Crossword::new("owner".to_string());
    c.new_puzzle_as("owner", "h1".to_string(), two_answers()).unwrap();
    let other = vec![answer(9, 1, 1, AnswerDirection::Down, 3, "Other")];
    assert_eq!(
        c.new_puzzle_as("owner", "h1".to_string(), other),
        Err(CrosswordError::DuplicateKey)
    );
    let p = c.get_puzzle("h1").unwrap();
    assert_eq!(p.answer.len(), 2);
    assert_eq!(p.answer[0].num, 1);
    assert_eq!(p.answer[0].clue, "Unit of a chain");
}

#[test]
fn duplicate_key_after_solve() {
    let mut c = Crossword::new("owner".to_string());
    c.new_puzzle_as("owner", CORRECT_HASH.to_string(), two_answers()).unwrap();
    c.submit_solution("CORRECTPHRASE".to_string(), "done".to_string()).unwrap();
    assert_eq!(
        c.new_puzzle_as("owner", CORRECT_HASH.to_string(), Vec::new()),
        Err(CrosswordError::DuplicateKey)
    );
    assert!(!c.is_unsolved(CORRECT_HASH));
}

#[test]
fn non_owner_register_is_unauthorized() {
    let mut c = Crossword::new("owner".to_string());
    assert_eq!(
        c.new_puzzle_as("mallory", "h1".to_string(), two_answers()),
        Err(CrosswordError::Unauthorized)
    );
    assert_eq!(
        c.new_puzzle_as("mallory", "h2".to_string(), Vec::new()),
        Err(CrosswordError::Unauthorized)
    );
    assert!(c.get_puzzle("h1").is_none());
    assert!(c.unsolved_puzzles().is_empty());
    assert_eq!(c.owner_id(), "owner");
}

#[test]
fn new_puzzle_uses_calling_account() {
    // The mocked host's default caller.
    let caller = near_sdk::test_utils::test_env::bob().to_string();
    let mut by_bob = Crossword::new(caller);
    assert_eq!(by_bob.new_puzzle("h1".to_string(), two_answers()), Ok(()));
    assert!(by_bob.is_unsolved("h1"));
    let mut by_alice = Crossword::new("alice".to_string());
    assert_eq!(
        by_alice.new_puzzle("h1".to_string(), two_answers()),
        Err(CrosswordError::Unauthorized)
    );
    assert!(by_alice.get_puzzle("h1").is_none());
}

#[test]
fn unsolved_keys_follow_status() {
    let mut c = Crossword::new("owner".to_string());
    c.new_puzzle_as("owner", "h1".to_string(), two_answers()).unwrap();
    c.new_puzzle_as("owner", "h2".to_string(), Vec::new()).unwrap();
    c.new_puzzle_as("owner", CORRECT_HASH.to_string(), Vec::new()).unwrap();
    let mut open = c.unsolved_puzzles();
    open.sort();
    assert_eq!(open, vec![CORRECT_HASH.to_string(), "h1".to_string(), "h2".to_string()]);

    c.submit_solution_hash("h2".to_string(), "m".to_string()).unwrap();
    c.submit_solution("CORRECTPHRASE".to_string(), "m".to_string()).unwrap();
    let _ = c.submit_solution_hash("nope".to_string(), "m".to_string());
    assert_eq!(c.unsolved_puzzles(), vec!["h1".to_string()]);
    assert!(c.is_unsolved("h1"));
    assert!(!c.is_unsolved("h2"));
    assert!(!c.is_unsolved("nope"));
}

#[test]
fn prize_is_five_near() {
    assert_eq!(PRIZE_AMOUNT, 5_000_000_000_000_000_000_000_000u128);
}

#[test]
fn store_creates_once_and_updates_status() {
    let mut s = PuzzleStore::new();
    assert!(!s.contains("k"));
    assert!(s.get("k").is_none());
    assert!(s.insert_new("k".to_string(), Puzzle::new(two_answers())));
    assert!(!s.insert_new("k".to_string(), Puzzle::new(Vec::new())));
    assert_eq!(s.get("k").unwrap().answer.len(), 2);
    assert!(s.get("k").unwrap().is_unsolved());
    s.set_status("k", PuzzleStatus::Solved { memo: "m".to_string() });
    let p = s.get("k").unwrap();
    assert!(!p.is_unsolved());
    assert_eq!(p.answer.len(), 2);
    assert_eq!(memo_of(p), Some("m".to_string()));
}

#[test]
fn unsolved_index_has_set_semantics() {
    let mut u = UnsolvedIndex::new();
    u.add("a".to_string());
    u.add("a".to_string());
    u.add("b".to_string());
    assert_eq!(u.to_vec().len(), 2);
    assert!(u.contains("a"));
    u.remove("a");
    assert!(!u.contains("a"));
    u.remove("a");
    u.remove("zzz");
    assert_eq!(u.to_vec(), vec!["b".to_string()]);
}
