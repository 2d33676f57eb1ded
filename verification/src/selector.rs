//! Choosing the winner of a round from the pool of candidates.
//!
//! The highest score wins. Among equal scores the solver that registered
//! first wins, then the lowest solution id; among candidates that agree in
//! all three, the one that comes first in the pool.

use vstd::prelude::*;
use crate::competition::{Candidate, CandidateView, candidate_views};

verus! {

/// What the selection of a round gives.
#[derive(Clone, Copy, Debug, PartialEq, Eq, Structural)]
pub enum Selection {
    /// The position of the winning candidate in the pool.
    Winner(usize),
    /// The pool was empty.
    NoWinner,
}

/// `a` is strictly ahead of `b`: a higher score, or the same score and an
/// earlier solver, or the same of both and a lower solution id.
pub open spec fn outranks(a: CandidateView, b: CandidateView) -> bool {
    let score_a = a.solution.score.value.value();
    let score_b = b.solution.score.value.value();
    score_a > score_b || (score_a == score_b && (a.solver < b.solver || (a.solver == b.solver
        && a.solution.id < b.solution.id)))
}

/// The candidate at `w` wins: none in the pool is ahead of it, and it is
/// ahead of all that come before it.
pub open spec fn is_winner(pool: Seq<CandidateView>, w: int) -> bool {
    &&& 0 <= w < pool.len()
    &&& forall|i: int| 0 <= i < pool.len() ==> !outranks(#[trigger] pool[i], pool[w])
    &&& forall|i: int| 0 <= i < w ==> outranks(pool[w], #[trigger] pool[i])
}

/// The selection that a pool determines.
pub open spec fn selection_of(pool: Seq<CandidateView>) -> Selection {
    if pool.len() == 0 {
        Selection::NoWinner
    } else {
        Selection::Winner((choose|w: int| is_winner(pool, w)) as usize)
    }
}

/// Whether `a` is strictly ahead of `b`.
pub fn is_ahead(a: &Candidate, b: &Candidate) -> (ahead: bool)
    ensures
        ahead == outranks(a@, b@),
{
    if b.solution.score.value.less_than(&a.solution.score.value) {
        true
    } else if a.solution.score.value.same(&b.solution.score.value) {
        a.solver < b.solver || (a.solver == b.solver && a.solution.id < b.solution.id)
    } else {
        false
    }
}

/// Being ahead is a strict order: nothing is ahead of itself, and it
/// carries over.
pub proof fn lemma_outranks_strict(a: CandidateView, b: CandidateView, c: CandidateView)
    ensures
        !outranks(a, a),
        outranks(a, b) ==> !outranks(b, a),
        outranks(a, b) && outranks(b, c) ==> outranks(a, c),
        !outranks(a, b) && !outranks(b, c) ==> !outranks(a, c),
{
}

/// A pool has at most one winner.
pub proof fn lemma_winner_unique(pool: Seq<CandidateView>, v: int, w: int)
    requires
        is_winner(pool, v),
        is_winner(pool, w),
    ensures
        v == w,
{
    if v < w {
        assert(outranks(pool[w], pool[v]));
        assert(!outranks(pool[w], pool[v]));
    }
    if w < v {
        assert(outranks(pool[v], pool[w]));
        assert(!outranks(pool[v], pool[w]));
    }
}

/// Selection is a function of the pool: whatever position wins is the one
/// that [`selection_of`] names.
pub proof fn lemma_selection_determined(pool: Seq<CandidateView>, w: int)
    requires
        is_winner(pool, w),
        pool.len() <= usize::MAX,
    ensures
        selection_of(pool) == Selection::Winner(w as usize),
{
    let chosen = choose|v: int| is_winner(pool, v);
    lemma_winner_unique(pool, chosen, w);
}

/// Two pools that hold the same candidates, in whatever order, have winners
/// of the same score, solver and solution id.
pub proof fn lemma_winner_ignores_order(
    first: Seq<CandidateView>,
    second: Seq<CandidateView>,
    v: int,
    w: int,
)
    requires
        forall|c: CandidateView| first.contains(c) == second.contains(c),
        is_winner(first, v),
        is_winner(second, w),
    ensures
        first[v].solution.score.value.value() == second[w].solution.score.value.value(),
        first[v].solver == second[w].solver,
        first[v].solution.id == second[w].solution.id,
{
    assert(first.contains(first[v]));
    assert(second.contains(second[w]));
    let i = choose|i: int| 0 <= i < second.len() && second[i] == first[v];
    let j = choose|j: int| 0 <= j < first.len() && first[j] == second[w];
    assert(!outranks(second[i], second[w]));
    assert(!outranks(first[j], first[v]));
}

/// Picks the winner of the pool, or says that there is none.
pub fn select(candidates: &Vec<Candidate>) -> (selection: Selection)
    ensures
        selection == selection_of(candidate_views(candidates@)),
        candidates.len() == 0 <==> selection == Selection::NoWinner,
        selection matches Selection::Winner(w) ==> is_winner(
            candidate_views(candidates@),
            w as int,
        ),
{
    if candidates.len() == 0 {
        return Selection::NoWinner;
    }
    let ghost pool = candidate_views(candidates@);
    let mut best: usize = 0;
    let mut i: usize = 1;
    while i < candidates.len()
        invariant
            1 <= i <= candidates.len(),
            pool == candidate_views(candidates@),
            best < i,
            forall|j: int| 0 <= j < i ==> !outranks(#[trigger] pool[j], pool[best as int]),
            forall|j: int| 0 <= j < best ==> outranks(pool[best as int], #[trigger] pool[j]),
        decreases candidates.len() - i,
    {
        if is_ahead(&candidates[i], &candidates[best]) {
            assert forall|j: int| 0 <= j < i + 1 implies !outranks(
                #[trigger] pool[j],
                pool[i as int],
            ) by {
                lemma_outranks_strict(pool[j], pool[best as int], pool[i as int]);
                lemma_outranks_strict(pool[i as int], pool[best as int], pool[j]);
            }
            assert forall|j: int| 0 <= j < i implies outranks(
                pool[i as int],
                #[trigger] pool[j],
            ) by {
                lemma_outranks_strict(pool[i as int], pool[best as int], pool[j]);
                lemma_outranks_strict(pool[j], pool[best as int], pool[i as int]);
            }
            best = i;
        }
        i = i + 1;
    }
    proof {
        lemma_selection_determined(pool, best as int);
    }
    Selection::Winner(best)
}

} // verus!
