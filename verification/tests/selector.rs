use autopilot::competition::{Candidate, Score, Solution};
use autopilot::eth::{Address, U256};
use autopilot::selector::{is_ahead, select, Selection};

fn entry(solver: usize, id: u64, score: U256) -> Candidate {
    Candidate {
        solver,
        solution: Solution::new(id, Address([solver as u8; 20]), Score { value: score }, vec![], vec![]),
    }
}

fn scored(solver: usize, id: u64, score: u64) -> Candidate {
    entry(solver, id, U256::from_u64(score))
}

#[test]
fn empty_pool_has_no_winner() {
    assert_eq!(select(&vec![]), Selection::NoWinner);
}

#[test]
fn single_candidate_wins() {
    assert_eq!(select(&vec![scored(3, 1, 0)]), Selection::Winner(0));
}

#[test]
fn highest_score_wins() {
    let pool = vec![scored(0, 1, 100), scored(1, 1, 150), scored(2, 1, 120)];
    assert_eq!(select(&pool), Selection::Winner(1));
}

#[test]
fn scores_are_compared_over_all_256_bits() {
    let pool = vec![
        entry(0, 1, U256::from_words([u64::MAX, u64::MAX, 0, 0])),
        entry(1, 1, U256::from_words([0, 0, 1, 0])),
        entry(2, 1, U256::from_words([5, 0, 0, 0])),
    ];
    assert_eq!(select(&pool), Selection::Winner(1));
}

#[test]
fn among_equal_scores_the_earliest_solver_wins() {
    let pool = vec![scored(2, 1, 50), scored(0, 9, 50), scored(1, 1, 50)];
    assert_eq!(select(&pool), Selection::Winner(1));
}

#[test]
fn among_equal_scores_of_one_solver_the_lowest_id_wins() {
    let pool = vec![scored(1, 7, 50), scored(1, 3, 50), scored(1, 5, 50)];
    assert_eq!(select(&pool), Selection::Winner(1));
}

#[test]
fn among_candidates_equal_in_everything_the_first_wins() {
    let pool = vec![scored(1, 3, 10), scored(1, 3, 50), scored(1, 3, 50)];
    assert_eq!(select(&pool), Selection::Winner(1));
}

#[test]
fn repeated_selection_gives_the_same_winner() {
    let pool = vec![scored(4, 2, 70), scored(1, 8, 70), scored(1, 2, 70), scored(0, 1, 69)];
    let first = select(&pool);
    for _ in 0..10 {
        assert_eq!(select(&pool), first);
    }
    assert_eq!(first, Selection::Winner(2));
}

#[test]
fn winner_does_not_depend_on_the_order_of_the_pool() {
    let forward = vec![scored(0, 1, 10), scored(1, 1, 30), scored(2, 1, 30), scored(3, 1, 20)];
    let backward = vec![scored(3, 1, 20), scored(2, 1, 30), scored(1, 1, 30), scored(0, 1, 10)];
    let a = match select(&forward) {
        Selection::Winner(w) => &forward[w],
        Selection::NoWinner => panic!("no winner"),
    };
    let b = match select(&backward) {
        Selection::Winner(w) => &backward[w],
        Selection::NoWinner => panic!("no winner"),
    };
    assert_eq!((a.solver, a.solution.id), (1, 1));
    assert_eq!((b.solver, b.solution.id), (1, 1));
}

#[test]
fn being_ahead_is_score_then_solver_then_id() {
    assert!(is_ahead(&scored(5, 5, 2), &scored(0, 0, 1)));
    assert!(!is_ahead(&scored(0, 0, 1), &scored(5, 5, 2)));
    assert!(is_ahead(&scored(0, 9, 1), &scored(1, 0, 1)));
    assert!(!is_ahead(&scored(1, 0, 1), &scored(0, 9, 1)));
    assert!(is_ahead(&scored(1, 0, 1), &scored(1, 1, 1)));
    assert!(!is_ahead(&scored(1, 1, 1), &scored(1, 1, 1)));
}
