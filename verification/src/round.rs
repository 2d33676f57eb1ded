//! One round from the solvers' replies to its outcome.

use vstd::prelude::*;
use crate::competition::{
    accepted, aggregate, candidate_at, candidate_views, candidates_of, conclude_call, concludes,
    lemma_all_rejected, lemma_no_candidates, lemma_pool_is_union, lemma_verdicts_part,
    pooled_candidates, pooled_errors, spec_validate, ClientOutcome, Pool, Reply,
};
use crate::selector::{is_winner, select, selection_of, Selection};
use crate::settlement::{BeginError, Phase, Settlement, Submitter};
use crate::solve::{validated, Request};
use crate::time::Timestamp;

verus! {

/// What came back from one solver, and when.
#[derive(Debug)]
pub struct Arrival {
    pub reply: Reply,
    pub at: Timestamp,
}

/// A round after all solvers have been heard: how each call ended, in the
/// order of registration, the pool, and the selection.
#[derive(Debug)]
pub struct Competition {
    pub outcomes: Vec<ClientOutcome>,
    pub pool: Pool,
    pub selection: Selection,
}

impl Competition {
    /// The selection names a candidate of the pool.
    pub open spec fn wf(&self) -> bool {
        self.selection matches Selection::Winner(w) ==> w < self.pool.candidates.len()
    }
}

/// How a round ended.
#[derive(Clone, Copy, Debug, PartialEq, Eq, Structural)]
pub enum RoundOutcome {
    /// The winning solution was included on chain through `route`.
    Settled { auction_id: i64, solver: usize, solution_id: u64, route: usize },
    /// No solver brought a valid solution; nothing was submitted.
    NoWinner { auction_id: i64 },
    /// The winning solution was not included in time.
    Expired { auction_id: i64, solver: usize, solution_id: u64 },
}

/// The arrival brings no candidate: it is late, silent or no response, or
/// every proposal of the response is rejected.
pub open spec fn brings_nothing(request: &Request, arrival: Arrival) -> bool {
    ||| arrival.at.at_or_after(request.deadline)
    ||| arrival.reply is Silence
    ||| arrival.reply is Malfunction
    ||| arrival.reply matches Reply::Answer(response) && forall|k: int|
        0 <= k < response.solutions@.len() ==> spec_validate(
            (#[trigger] response.solutions@[k])@,
            request.orders@,
        ) is Err
}

/// No arrival of the round brings a candidate.
pub open spec fn nothing_brought(request: &Request, arrivals: Seq<Arrival>) -> bool {
    forall|i: int| 0 <= i < arrivals.len() ==> brings_nothing(request, #[trigger] arrivals[i])
}

/// An outcome that concludes an arrival which brings nothing has no
/// candidate.
pub proof fn lemma_nothing_brings_no_candidate(
    request: &Request,
    arrival: Arrival,
    outcome: ClientOutcome,
    solver: usize,
)
    requires
        concludes(request, arrival.reply, arrival.at, outcome),
        brings_nothing(request, arrival),
    ensures
        candidates_of(outcome, solver).len() == 0,
{
    if let ClientOutcome::Solutions(verdicts) = outcome {
        let response = arrival.reply->Answer_0;
        assert forall|i: int| 0 <= i < verdicts@.len() implies (#[trigger] verdicts@[i]) is Err by {
            assert(validated(verdicts@[i]) == spec_validate(
                response.solutions@[i]@,
                request.orders@,
            ));
        }
        lemma_all_rejected(verdicts@, solver);
    }
}

/// An arrival that is concluded without a candidate brought nothing.
pub proof fn lemma_no_candidate_brought_nothing(
    request: &Request,
    arrival: Arrival,
    outcome: ClientOutcome,
    solver: usize,
)
    requires
        concludes(request, arrival.reply, arrival.at, outcome),
        candidates_of(outcome, solver).len() == 0,
    ensures
        brings_nothing(request, arrival),
{
    if let ClientOutcome::Solutions(verdicts) = outcome {
        let response = arrival.reply->Answer_0;
        lemma_verdicts_part(verdicts@, solver);
        assert forall|k: int| 0 <= k < response.solutions@.len() implies spec_validate(
            (#[trigger] response.solutions@[k])@,
            request.orders@,
        ) is Err by {
            assert(validated(verdicts@[k]) == spec_validate(
                response.solutions@[k]@,
                request.orders@,
            ));
            if verdicts@[k] is Ok {
                assert(accepted(verdicts@, solver).contains(candidate_at(verdicts@, solver, k)));
            }
        }
    }
}

/// Hears all solvers of a round, given in the order of registration, and
/// selects the winner. A round ends without a winner exactly if no arrival
/// brings a candidate.
pub fn compete(request: &Request, arrivals: &Vec<Arrival>) -> (round: Competition)
    ensures
        round.wf(),
        round.outcomes.len() == arrivals.len(),
        forall|i: int|
            0 <= i < arrivals.len() ==> concludes(
                request,
                arrivals@[i].reply,
                arrivals@[i].at,
                #[trigger] round.outcomes@[i],
            ),
        candidate_views(round.pool.candidates@) == pooled_candidates(round.outcomes@),
        round.pool.errors@ == pooled_errors(round.outcomes@),
        round.selection == selection_of(candidate_views(round.pool.candidates@)),
        round.selection matches Selection::Winner(w) ==> is_winner(
            candidate_views(round.pool.candidates@),
            w as int,
        ),
        round.pool.candidates.len() == 0 <==> round.selection == Selection::NoWinner,
        nothing_brought(request, arrivals@) <==> round.selection == Selection::NoWinner,
{
    let mut outcomes: Vec<ClientOutcome> = Vec::new();
    let mut i: usize = 0;
    while i < arrivals.len()
        invariant
            i <= arrivals.len(),
            outcomes.len() == i,
            forall|j: int|
                0 <= j < i ==> concludes(
                    request,
                    arrivals@[j].reply,
                    arrivals@[j].at,
                    #[trigger] outcomes@[j],
                ),
        decreases arrivals.len() - i,
    {
        outcomes.push(conclude_call(request, &arrivals[i].reply, arrivals[i].at));
        i = i + 1;
    }
    let pool = aggregate(&outcomes);
    let selection = select(&pool.candidates);
    proof {
        if nothing_brought(request, arrivals@) {
            assert forall|i: int| 0 <= i < outcomes@.len() implies candidates_of(
                #[trigger] outcomes@[i],
                i as usize,
            ).len() == 0 by {
                lemma_nothing_brings_no_candidate(request, arrivals@[i], outcomes@[i], i as usize);
            }
            lemma_no_candidates(outcomes@);
        }
        if pool.candidates.len() == 0 {
            assert forall|i: int| 0 <= i < arrivals.len() implies brings_nothing(
                request,
                #[trigger] arrivals@[i],
            ) by {
                let brought = candidates_of(outcomes@[i], i as usize);
                if brought.len() > 0 {
                    assert(brought.contains(brought[0]));
                    lemma_pool_is_union(outcomes@, brought[0]);
                }
                lemma_no_candidate_brought_nothing(request, arrivals@[i], outcomes@[i], i as usize);
            }
        }
    }
    Competition { outcomes, pool, selection }
}

/// What opening the settlement of a round returns: the outcome of a round
/// without a winner, nothing yet for a round whose settlement begins, and
/// the obstacle where there is one.
pub open spec fn opening(submitter: &Submitter, auction_id: i64, selection: Selection) -> Result<
    Option<RoundOutcome>,
    BeginError,
> {
    match selection {
        Selection::NoWinner => Ok(Some(RoundOutcome::NoWinner { auction_id })),
        Selection::Winner(_) => match submitter.obstacle(auction_id) {
            Some(error) => Err(error),
            None => Ok(None),
        },
    }
}

/// Begins the settlement of the winner of a round, to be included by
/// `deadline`. A round without a winner ends at once, and nothing is
/// submitted: that is an outcome, not an error.
pub fn open_settlement(
    submitter: &mut Submitter,
    auction_id: i64,
    round: &Competition,
    gas_price: u128,
    deadline: Timestamp,
) -> (opened: Result<Option<RoundOutcome>, BeginError>)
    requires
        round.wf(),
    ensures
        final(submitter).strategy == old(submitter).strategy,
        opened == opening(old(submitter), auction_id, round.selection),
        !(opened matches Ok(None)) ==> *final(submitter) == *old(submitter),
        opened matches Ok(None) ==> final(submitter).last_auction == Some(auction_id),
        opened matches Ok(None) ==> final(submitter).current == Some(
            old(submitter).fresh(
                auction_id,
                round.pool.candidates@[round.selection->Winner_0 as int].solver,
                round.pool.candidates@[round.selection->Winner_0 as int].solution.id,
                gas_price,
                deadline,
            ),
        ),
        opened matches Ok(None) ==> final(submitter).wf(),
{
    match round.selection {
        Selection::NoWinner => Ok(Some(RoundOutcome::NoWinner { auction_id })),
        Selection::Winner(w) => {
            let winner = &round.pool.candidates[w];
            match submitter.begin_until(auction_id, winner, gas_price, deadline) {
                Ok(()) => Ok(None),
                Err(error) => Err(error),
            }
        },
    }
}

/// The outcome of the round that the settlement belongs to, once the
/// settlement is final.
pub fn outcome_of(settlement: &Settlement) -> (outcome: Option<RoundOutcome>)
    ensures
        outcome == match settlement.phase {
            Phase::Included => Some(
                RoundOutcome::Settled {
                    auction_id: settlement.auction_id,
                    solver: settlement.solver,
                    solution_id: settlement.solution_id,
                    route: settlement.route,
                },
            ),
            Phase::Expired => Some(
                RoundOutcome::Expired {
                    auction_id: settlement.auction_id,
                    solver: settlement.solver,
                    solution_id: settlement.solution_id,
                },
            ),
            _ => None,
        },
{
    match settlement.phase {
        Phase::Included => Some(
            RoundOutcome::Settled {
                auction_id: settlement.auction_id,
                solver: settlement.solver,
                solution_id: settlement.solution_id,
                route: settlement.route,
            },
        ),
        Phase::Expired => Some(
            RoundOutcome::Expired {
                auction_id: settlement.auction_id,
                solver: settlement.solver,
                solution_id: settlement.solution_id,
            },
        ),
        _ => None,
    }
}

/// Takes the settlement out of the submitter once it is final, and returns
/// the outcome of its round. A settlement in flight stays where it is.
pub fn archive(submitter: &mut Submitter) -> (outcome: Option<RoundOutcome>)
    ensures
        final(submitter).strategy == old(submitter).strategy,
        final(submitter).last_auction == old(submitter).last_auction,
        match old(submitter).current {
            Some(settlement) => if settlement.phase.is_final() {
                final(submitter).current is None && outcome == Some(
                    if settlement.phase is Included {
                        RoundOutcome::Settled {
                            auction_id: settlement.auction_id,
                            solver: settlement.solver,
                            solution_id: settlement.solution_id,
                            route: settlement.route,
                        }
                    } else {
                        RoundOutcome::Expired {
                            auction_id: settlement.auction_id,
                            solver: settlement.solver,
                            solution_id: settlement.solution_id,
                        }
                    },
                )
            } else {
                outcome is None && final(submitter).current == old(submitter).current
            },
            None => outcome is None && final(submitter).current is None,
        },
        old(submitter).wf() ==> final(submitter).wf(),
{
    match submitter.current {
        Some(settlement) => {
            let outcome = outcome_of(&settlement);
            if outcome.is_some() {
                submitter.current = None;
            }
            outcome
        },
        None => None,
    }
}

} // verus!
