//! The competition of one round: validated solutions, the pool of
//! candidates that the solvers' answers make up, and the errors on record.

use vstd::prelude::*;
use crate::auction::{Order, TokenPrice};
use crate::eth::{Address, Integer, OrderUid, U256};
use crate::keyed::{contains_key, copy_of, keys, Keyed};
use crate::solve;
use crate::solve::{spec_into_domain, validated, Request, Response};
use crate::time::Timestamp;

verus! {

/// Why a proposed solution was rejected.
#[derive(Clone, Copy, Debug, PartialEq, Eq, Structural)]
pub enum SolutionError {
    /// The score is below zero.
    InvalidScore,
    /// A clearing price is zero, or a token that a traded order refers to
    /// has no clearing price.
    InvalidClearingPrice,
    /// An order or a token is listed twice.
    Malformed,
}

/// The quality of a solution: a number that is not negative.
#[derive(Clone, Copy, Debug, PartialEq, Eq, Structural)]
pub struct Score {
    pub value: U256,
}

impl Score {
    /// Accepts every number that is not below zero.
    pub fn new(score: Integer) -> (checked: Result<Score, SolutionError>)
        ensures
            score.value() >= 0 ==> checked == Ok::<Score, SolutionError>(
                Score { value: score.magnitude },
            ),
            score.value() < 0 ==> checked == Err::<Score, SolutionError>(
                SolutionError::InvalidScore,
            ),
            checked matches Ok(s) ==> s.value.value() == score.value(),
    {
        if score.is_negative() {
            Err(SolutionError::InvalidScore)
        } else {
            Ok(Score { value: score.magnitude })
        }
    }

    pub fn get(&self) -> (value: U256)
        ensures
            value == self.value,
    {
        self.value
    }
}

/// What a trader gave and received in a solution.
#[derive(Clone, Copy, Debug, PartialEq, Eq, Structural)]
pub struct TradedAmounts {
    /// What left the trader's wallet, fees included.
    pub sell: U256,
    /// What the trader received, fees taken off.
    pub buy: U256,
}

/// An order as a solution trades it.
#[derive(Clone, Copy, Debug, PartialEq, Eq)]
pub struct TradedOrder {
    pub uid: OrderUid,
    pub amounts: TradedAmounts,
}

impl Keyed for TradedOrder {
    type Key = OrderUid;

    open spec fn key(&self) -> OrderUid {
        self.uid
    }

    fn has_key(&self, key: &OrderUid) -> (has: bool) {
        self.uid.same(key)
    }

    fn same_key(&self, other: &TradedOrder) -> (same: bool) {
        self.uid.same(&other.uid)
    }
}

/// A validated solution.
#[derive(Clone, Debug)]
pub struct Solution {
    pub id: u64,
    pub solver: Address,
    pub score: Score,
    pub orders: Vec<TradedOrder>,
    pub prices: Vec<TokenPrice>,
}

/// The mathematical value of a [`Solution`].
pub struct SolutionView {
    pub id: u64,
    pub solver: Address,
    pub score: Score,
    pub orders: Seq<TradedOrder>,
    pub prices: Seq<TokenPrice>,
}

impl View for Solution {
    type V = SolutionView;

    open spec fn view(&self) -> SolutionView {
        SolutionView {
            id: self.id,
            solver: self.solver,
            score: self.score,
            orders: self.orders@,
            prices: self.prices@,
        }
    }
}

impl Solution {
    /// A copy of the solution.
    pub fn duplicate(&self) -> (copy: Solution)
        ensures
            copy@ == self@,
    {
        Solution {
            id: self.id,
            solver: self.solver,
            score: self.score,
            orders: copy_of(&self.orders),
            prices: copy_of(&self.prices),
        }
    }

    pub fn new(
        id: u64,
        solver: Address,
        score: Score,
        orders: Vec<TradedOrder>,
        prices: Vec<TokenPrice>,
    ) -> (solution: Solution)
        ensures
            solution@ == (SolutionView { id, solver, score, orders: orders@, prices: prices@ }),
    {
        Solution { id, solver, score, orders, prices }
    }
}

/// The clearing prices of the solution cover both tokens of every order of
/// the round that the solution trades.
pub open spec fn covers(solution: SolutionView, orders: Seq<Order>) -> bool {
    forall|j: int|
        0 <= j < orders.len() && keys(solution.orders).contains((#[trigger] orders[j]).uid)
            ==> keys(solution.prices).contains(orders[j].sell_token) && keys(
            solution.prices,
        ).contains(orders[j].buy_token)
}

/// What validating a proposal against the orders of the round gives.
pub open spec fn spec_validate(proposed: solve::SolutionView, orders: Seq<Order>) -> Result<
    SolutionView,
    SolutionError,
> {
    match spec_into_domain(proposed) {
        Err(error) => Err(error),
        Ok(solution) => if covers(solution, orders) {
            Ok(solution)
        } else {
            Err(SolutionError::InvalidClearingPrice)
        },
    }
}

/// Whether the clearing prices of the solution cover the orders it trades.
pub fn check_coverage(solution: &Solution, orders: &Vec<Order>) -> (ok: bool)
    ensures
        ok == covers(solution@, orders@),
{
    let mut j: usize = 0;
    while j < orders.len()
        invariant
            j <= orders.len(),
            forall|i: int|
                0 <= i < j && keys(solution.orders@).contains((#[trigger] orders@[i]).uid) ==> keys(
                    solution.prices@,
                ).contains(orders@[i].sell_token) && keys(solution.prices@).contains(
                    orders@[i].buy_token,
                ),
        decreases orders.len() - j,
    {
        let order = &orders[j];
        if contains_key(&solution.orders, &order.uid) {
            if !contains_key(&solution.prices, &order.sell_token) || !contains_key(
                &solution.prices,
                &order.buy_token,
            ) {
                return false;
            }
        }
        j = j + 1;
    }
    true
}

/// Validates one proposal of a solver against the orders of the round.
pub fn validate(proposed: &solve::Solution, orders: &Vec<Order>) -> (outcome: Result<
    Solution,
    SolutionError,
>)
    ensures
        validated(outcome) == spec_validate(proposed@, orders@),
{
    match proposed.to_domain() {
        Err(error) => Err(error),
        Ok(solution) => {
            if check_coverage(&solution, orders) {
                Ok(solution)
            } else {
                Err(SolutionError::InvalidClearingPrice)
            }
        },
    }
}

/// What came back from one solver when its call ended.
#[derive(Debug)]
pub enum Reply {
    /// A response that could be read.
    Answer(Response),
    /// Something that is no response: the solver broke the protocol or the
    /// transport failed.
    Malfunction,
    /// Nothing at all.
    Silence,
}

/// How the call to one solver ended.
#[derive(Debug)]
pub enum ClientOutcome {
    /// One verdict for each proposed solution, in the order of the response.
    Solutions(Vec<Result<Solution, SolutionError>>),
    /// No response arrived before the deadline of the request.
    Timeout,
    /// The solver malfunctioned.
    Failure,
}

/// The verdicts on a response are those of its proposals, one by one.
pub open spec fn verdicts_of(
    verdicts: Seq<Result<Solution, SolutionError>>,
    response: Response,
    orders: Seq<Order>,
) -> bool {
    &&& verdicts.len() == response.solutions@.len()
    &&& forall|i: int|
        0 <= i < verdicts.len() ==> validated(#[trigger] verdicts[i]) == spec_validate(
            response.solutions@[i]@,
            orders,
        )
}

/// `outcome` is how a call ends that brought `reply` at `arrived`: whatever
/// arrives at or after the deadline of the request is a timeout, and so is
/// silence; a malfunction is a failure; a response in time gets one verdict
/// for each of its proposals.
pub open spec fn concludes(
    request: &Request,
    reply: Reply,
    arrived: Timestamp,
    outcome: ClientOutcome,
) -> bool {
    if arrived.at_or_after(request.deadline) {
        outcome is Timeout
    } else {
        match reply {
            Reply::Silence => outcome is Timeout,
            Reply::Malfunction => outcome is Failure,
            Reply::Answer(response) => outcome matches ClientOutcome::Solutions(verdicts)
                && verdicts_of(verdicts@, response, request.orders@),
        }
    }
}

/// Turns what came back from a solver at `arrived` into the outcome of the
/// call.
pub fn conclude_call(request: &Request, reply: &Reply, arrived: Timestamp) -> (outcome:
    ClientOutcome)
    ensures
        concludes(request, *reply, arrived, outcome),
{
    if arrived.reached(&request.deadline) {
        return ClientOutcome::Timeout;
    }
    match reply {
        Reply::Silence => ClientOutcome::Timeout,
        Reply::Malfunction => ClientOutcome::Failure,
        Reply::Answer(response) => {
            let mut verdicts: Vec<Result<Solution, SolutionError>> = Vec::new();
            let mut i: usize = 0;
            while i < response.solutions.len()
                invariant
                    i <= response.solutions.len(),
                    verdicts.len() == i,
                    forall|j: int|
                        0 <= j < i ==> validated(#[trigger] verdicts@[j]) == spec_validate(
                            response.solutions@[j]@,
                            request.orders@,
                        ),
                decreases response.solutions.len() - i,
            {
                verdicts.push(validate(&response.solutions[i], &request.orders));
                i = i + 1;
            }
            ClientOutcome::Solutions(verdicts)
        },
    }
}

/// A valid solution in the pool of a round, with the position of its
/// solver in the order of registration.
#[derive(Debug)]
pub struct Candidate {
    pub solver: usize,
    pub solution: Solution,
}

/// The mathematical value of a [`Candidate`].
pub struct CandidateView {
    pub solver: usize,
    pub solution: SolutionView,
}

impl View for Candidate {
    type V = CandidateView;

    open spec fn view(&self) -> CandidateView {
        CandidateView { solver: self.solver, solution: self.solution@ }
    }
}

/// What went wrong with one solver or one of its proposals. It is put on
/// record and never ends the round.
#[derive(Clone, Copy, Debug, PartialEq, Eq, Structural)]
pub enum RoundError {
    /// The proposal at `position` of the response of `solver` was rejected.
    Invalid { solver: usize, position: usize, error: SolutionError },
    /// The solver did not answer in time.
    Timeout { solver: usize },
    /// The solver malfunctioned.
    Failure { solver: usize },
}

/// The candidates and the recorded errors of one round.
#[derive(Debug)]
pub struct Pool {
    pub candidates: Vec<Candidate>,
    pub errors: Vec<RoundError>,
}

/// The mathematical values of a list of candidates.
pub open spec fn candidate_views(candidates: Seq<Candidate>) -> Seq<CandidateView> {
    Seq::new(candidates.len(), |i: int| candidates[i]@)
}

/// The valid solutions among the verdicts on one solver's response, in
/// order.
pub open spec fn accepted(verdicts: Seq<Result<Solution, SolutionError>>, solver: usize) -> Seq<
    CandidateView,
>
    decreases verdicts.len(),
{
    if verdicts.len() == 0 {
        Seq::empty()
    } else {
        let earlier = accepted(verdicts.drop_last(), solver);
        match verdicts.last() {
            Ok(solution) => earlier.push(CandidateView { solver, solution: solution@ }),
            Err(_) => earlier,
        }
    }
}

/// The rejections among the verdicts on one solver's response, in order.
pub open spec fn rejected(verdicts: Seq<Result<Solution, SolutionError>>, solver: usize) -> Seq<
    RoundError,
>
    decreases verdicts.len(),
{
    if verdicts.len() == 0 {
        Seq::empty()
    } else {
        let earlier = rejected(verdicts.drop_last(), solver);
        match verdicts.last() {
            Ok(_) => earlier,
            Err(error) => earlier.push(
                RoundError::Invalid { solver, position: (verdicts.len() - 1) as usize, error },
            ),
        }
    }
}

/// The candidates that one solver contributes.
pub open spec fn candidates_of(outcome: ClientOutcome, solver: usize) -> Seq<CandidateView> {
    match outcome {
        ClientOutcome::Solutions(verdicts) => accepted(verdicts@, solver),
        _ => Seq::empty(),
    }
}

/// The errors that one solver leaves on record.
pub open spec fn errors_of(outcome: ClientOutcome, solver: usize) -> Seq<RoundError> {
    match outcome {
        ClientOutcome::Solutions(verdicts) => rejected(verdicts@, solver),
        ClientOutcome::Timeout => seq![RoundError::Timeout { solver }],
        ClientOutcome::Failure => seq![RoundError::Failure { solver }],
    }
}

/// The candidates of a round: those of each solver, in the order of
/// registration.
pub open spec fn pooled_candidates(outcomes: Seq<ClientOutcome>) -> Seq<CandidateView>
    decreases outcomes.len(),
{
    if outcomes.len() == 0 {
        Seq::empty()
    } else {
        pooled_candidates(outcomes.drop_last()) + candidates_of(
            outcomes.last(),
            (outcomes.len() - 1) as usize,
        )
    }
}

/// The errors of a round: those of each solver, in the order of
/// registration.
pub open spec fn pooled_errors(outcomes: Seq<ClientOutcome>) -> Seq<RoundError>
    decreases outcomes.len(),
{
    if outcomes.len() == 0 {
        Seq::empty()
    } else {
        pooled_errors(outcomes.drop_last()) + errors_of(
            outcomes.last(),
            (outcomes.len() - 1) as usize,
        )
    }
}

/// Adds what one solver's call brought to the pool.
fn collect_one(pool: &mut Pool, outcome: &ClientOutcome, solver: usize)
    ensures
        candidate_views(final(pool).candidates@) == candidate_views(old(pool).candidates@)
            + candidates_of(*outcome, solver),
        final(pool).errors@ == old(pool).errors@ + errors_of(*outcome, solver),
{
    match outcome {
        ClientOutcome::Timeout => {
            pool.errors.push(RoundError::Timeout { solver });
        },
        ClientOutcome::Failure => {
            pool.errors.push(RoundError::Failure { solver });
        },
        ClientOutcome::Solutions(verdicts) => {
            let mut i: usize = 0;
            while i < verdicts.len()
                invariant
                    i <= verdicts.len(),
                    candidate_views(pool.candidates@) == candidate_views(old(pool).candidates@)
                        + accepted(verdicts@.take(i as int), solver),
                    pool.errors@ == old(pool).errors@ + rejected(verdicts@.take(i as int), solver),
                decreases verdicts.len() - i,
            {
                let ghost before = candidate_views(pool.candidates@);
                assert(verdicts@.take(i + 1).drop_last() =~= verdicts@.take(i as int));
                match &verdicts[i] {
                    Ok(solution) => {
                        pool.candidates.push(Candidate { solver, solution: solution.duplicate() });
                        assert(candidate_views(pool.candidates@) =~= before.push(
                            CandidateView { solver, solution: solution@ },
                        ));
                    },
                    Err(error) => {
                        pool.errors.push(
                            RoundError::Invalid { solver, position: i, error: *error },
                        );
                    },
                }
                i = i + 1;
            }
            assert(verdicts@.take(verdicts.len() as int) =~= verdicts@);
        },
    }
}

/// Gathers the outcomes of all solvers of a round, given in the order of
/// registration, into the pool of candidates and the record of errors.
pub fn aggregate(outcomes: &Vec<ClientOutcome>) -> (pool: Pool)
    ensures
        candidate_views(pool.candidates@) == pooled_candidates(outcomes@),
        pool.errors@ == pooled_errors(outcomes@),
{
    let mut pool = Pool { candidates: Vec::new(), errors: Vec::new() };
    let mut solver: usize = 0;
    while solver < outcomes.len()
        invariant
            solver <= outcomes.len(),
            candidate_views(pool.candidates@) == pooled_candidates(outcomes@.take(solver as int)),
            pool.errors@ == pooled_errors(outcomes@.take(solver as int)),
        decreases outcomes.len() - solver,
    {
        assert(outcomes@.take(solver + 1).drop_last() =~= outcomes@.take(solver as int));
        collect_one(&mut pool, &outcomes[solver], solver);
        solver = solver + 1;
    }
    assert(outcomes@.take(outcomes.len() as int) =~= outcomes@);
    pool
}

/// The candidate that a valid verdict becomes.
pub open spec fn candidate_at(
    verdicts: Seq<Result<Solution, SolutionError>>,
    solver: usize,
    i: int,
) -> CandidateView {
    CandidateView { solver, solution: verdicts[i]->Ok_0@ }
}

/// The error that a rejection is recorded as.
pub open spec fn rejection_at(
    verdicts: Seq<Result<Solution, SolutionError>>,
    solver: usize,
    i: int,
) -> RoundError {
    RoundError::Invalid { solver, position: i as usize, error: verdicts[i]->Err_0 }
}

/// Every verdict on a response ends up in exactly one place: a valid
/// solution among the candidates, a rejection among the errors, each under
/// the position it had in the response; and nothing else is in either.
pub proof fn lemma_verdicts_part(verdicts: Seq<Result<Solution, SolutionError>>, solver: usize)
    ensures
        accepted(verdicts, solver).len() + rejected(verdicts, solver).len() == verdicts.len(),
        forall|i: int|
            0 <= i < verdicts.len() && (#[trigger] verdicts[i]) is Ok ==> accepted(
                verdicts,
                solver,
            ).contains(candidate_at(verdicts, solver, i)),
        forall|i: int|
            0 <= i < verdicts.len() && (#[trigger] verdicts[i]) is Err ==> rejected(
                verdicts,
                solver,
            ).contains(rejection_at(verdicts, solver, i)),
        forall|k: int|
            #![trigger accepted(verdicts, solver)[k]]
            0 <= k < accepted(verdicts, solver).len() ==> exists|i: int|
                #![trigger verdicts[i]]
                0 <= i < verdicts.len() && verdicts[i] is Ok && accepted(verdicts, solver)[k]
                    == candidate_at(verdicts, solver, i),
        forall|k: int|
            #![trigger rejected(verdicts, solver)[k]]
            0 <= k < rejected(verdicts, solver).len() ==> exists|i: int|
                #![trigger verdicts[i]]
                0 <= i < verdicts.len() && verdicts[i] is Err && rejected(verdicts, solver)[k]
                    == rejection_at(verdicts, solver, i),
    decreases verdicts.len(),
{
    if verdicts.len() > 0 {
        let init = verdicts.drop_last();
        let last = verdicts.len() - 1;
        lemma_verdicts_part(init, solver);
        let acc = accepted(verdicts, solver);
        let rej = rejected(verdicts, solver);
        let acc0 = accepted(init, solver);
        let rej0 = rejected(init, solver);
        assert forall|i: int|
            0 <= i < verdicts.len() && (#[trigger] verdicts[i]) is Ok implies acc.contains(
            candidate_at(verdicts, solver, i),
        ) by {
            if i < last {
                assert(init[i] is Ok);
                let c = candidate_at(init, solver, i);
                assert(acc0.contains(c));
                let k = choose|k: int| 0 <= k < acc0.len() && acc0[k] == c;
                assert(acc[k] == c);
            } else {
                assert(acc[acc.len() - 1] == candidate_at(verdicts, solver, i));
            }
        }
        assert forall|i: int|
            0 <= i < verdicts.len() && (#[trigger] verdicts[i]) is Err implies rej.contains(
            rejection_at(verdicts, solver, i),
        ) by {
            if i < last {
                assert(init[i] is Err);
                let e = rejection_at(init, solver, i);
                assert(rej0.contains(e));
                let k = choose|k: int| 0 <= k < rej0.len() && rej0[k] == e;
                assert(rej[k] == e);
            } else {
                assert(rej[rej.len() - 1] == rejection_at(verdicts, solver, i));
            }
        }
        assert forall|k: int| #![trigger acc[k]] 0 <= k < acc.len() implies exists|i: int|
            #![trigger verdicts[i]]
            0 <= i < verdicts.len() && verdicts[i] is Ok && acc[k] == candidate_at(
                verdicts,
                solver,
                i,
            ) by {
            if k < acc0.len() {
                assert(acc[k] == acc0[k]);
                let i = choose|i: int|
                    #![trigger init[i]]
                    0 <= i < init.len() && init[i] is Ok && acc0[k] == candidate_at(
                        init,
                        solver,
                        i,
                    );
                assert(verdicts[i] is Ok && acc[k] == candidate_at(verdicts, solver, i));
            } else {
                assert(verdicts[last] is Ok && acc[k] == candidate_at(verdicts, solver, last));
            }
        }
        assert forall|k: int| #![trigger rej[k]] 0 <= k < rej.len() implies exists|i: int|
            #![trigger verdicts[i]]
            0 <= i < verdicts.len() && verdicts[i] is Err && rej[k] == rejection_at(
                verdicts,
                solver,
                i,
            ) by {
            if k < rej0.len() {
                assert(rej[k] == rej0[k]);
                let i = choose|i: int|
                    #![trigger init[i]]
                    0 <= i < init.len() && init[i] is Err && rej0[k] == rejection_at(
                        init,
                        solver,
                        i,
                    );
                assert(verdicts[i] is Err && rej[k] == rejection_at(verdicts, solver, i));
            } else {
                assert(verdicts[last] is Err && rej[k] == rejection_at(verdicts, solver, last));
            }
        }
    }
}

/// Where every solver timed out, malfunctioned or brought no valid
/// solution, the pool has no candidate.
pub proof fn lemma_no_candidates(outcomes: Seq<ClientOutcome>)
    requires
        forall|i: int|
            0 <= i < outcomes.len() ==> candidates_of(#[trigger] outcomes[i], i as usize).len()
                == 0,
    ensures
        pooled_candidates(outcomes).len() == 0,
    decreases outcomes.len(),
{
    if outcomes.len() > 0 {
        let init = outcomes.drop_last();
        assert forall|i: int| 0 <= i < init.len() implies candidates_of(
            #[trigger] init[i],
            i as usize,
        ).len() == 0 by {
            assert(init[i] == outcomes[i]);
        }
        lemma_no_candidates(init);
        assert(candidates_of(outcomes[outcomes.len() - 1], (outcomes.len() - 1) as usize).len()
            == 0);
    }
}

/// A response of which every proposal was rejected brings no candidate.
pub proof fn lemma_all_rejected(verdicts: Seq<Result<Solution, SolutionError>>, solver: usize)
    requires
        forall|i: int| 0 <= i < verdicts.len() ==> (#[trigger] verdicts[i]) is Err,
    ensures
        accepted(verdicts, solver).len() == 0,
        rejected(verdicts, solver).len() == verdicts.len(),
    decreases verdicts.len(),
{
    if verdicts.len() > 0 {
        let init = verdicts.drop_last();
        assert forall|i: int| 0 <= i < init.len() implies (#[trigger] init[i]) is Err by {
            assert(init[i] == verdicts[i]);
        }
        lemma_all_rejected(init, solver);
        assert(verdicts[verdicts.len() - 1] is Err);
    }
}

/// The pool holds what each solver brought, whatever the other solvers
/// did, and nothing else: a candidate is in the pool exactly if it is among
/// the candidates of some solver.
pub proof fn lemma_pool_is_union(outcomes: Seq<ClientOutcome>, candidate: CandidateView)
    ensures
        pooled_candidates(outcomes).contains(candidate) <==> exists|i: int|
            0 <= i < outcomes.len() && candidates_of(#[trigger] outcomes[i], i as usize).contains(
                candidate,
            ),
    decreases outcomes.len(),
{
    if outcomes.len() > 0 {
        let init = outcomes.drop_last();
        let last = outcomes.len() - 1;
        let before = pooled_candidates(init);
        let added = candidates_of(outcomes.last(), last as usize);
        lemma_pool_is_union(init, candidate);
        if pooled_candidates(outcomes).contains(candidate) {
            let k = choose|k: int|
                0 <= k < (before + added).len() && (before + added)[k] == candidate;
            if k < before.len() {
                assert(before[k] == candidate);
                let i = choose|i: int|
                    0 <= i < init.len() && candidates_of(#[trigger] init[i], i as usize).contains(
                        candidate,
                    );
                assert(candidates_of(outcomes[i], i as usize).contains(candidate));
            } else {
                assert(added[k - before.len()] == candidate);
                assert(candidates_of(outcomes[last], last as usize).contains(candidate));
            }
        }
        if exists|i: int|
            0 <= i < outcomes.len() && candidates_of(#[trigger] outcomes[i], i as usize).contains(
                candidate,
            ) {
            let i = choose|i: int|
                0 <= i < outcomes.len() && candidates_of(
                    #[trigger] outcomes[i],
                    i as usize,
                ).contains(candidate);
            if i < last {
                assert(candidates_of(init[i], i as usize).contains(candidate));
                let k = choose|k: int| 0 <= k < before.len() && before[k] == candidate;
                assert((before + added)[k] == candidate);
            } else {
                let k = choose|k: int| 0 <= k < added.len() && added[k] == candidate;
                assert((before + added)[before.len() + k] == candidate);
            }
        }
    }
}

/// Every solver leaves its errors on record, whatever the other solvers
/// did, and the record holds nothing else.
pub proof fn lemma_record_is_union(outcomes: Seq<ClientOutcome>, error: RoundError)
    ensures
        pooled_errors(outcomes).contains(error) <==> exists|i: int|
            0 <= i < outcomes.len() && errors_of(#[trigger] outcomes[i], i as usize).contains(
                error,
            ),
    decreases outcomes.len(),
{
    if outcomes.len() > 0 {
        let init = outcomes.drop_last();
        let last = outcomes.len() - 1;
        let before = pooled_errors(init);
        let added = errors_of(outcomes.last(), last as usize);
        lemma_record_is_union(init, error);
        if pooled_errors(outcomes).contains(error) {
            let k = choose|k: int| 0 <= k < (before + added).len() && (before + added)[k] == error;
            if k < before.len() {
                assert(before[k] == error);
                let i = choose|i: int|
                    0 <= i < init.len() && errors_of(#[trigger] init[i], i as usize).contains(
                        error,
                    );
                assert(errors_of(outcomes[i], i as usize).contains(error));
            } else {
                assert(added[k - before.len()] == error);
                assert(errors_of(outcomes[last], last as usize).contains(error));
            }
        }
        if exists|i: int|
            0 <= i < outcomes.len() && errors_of(#[trigger] outcomes[i], i as usize).contains(
                error,
            ) {
            let i = choose|i: int|
                0 <= i < outcomes.len() && errors_of(#[trigger] outcomes[i], i as usize).contains(
                    error,
                );
            if i < last {
                assert(errors_of(init[i], i as usize).contains(error));
                let k = choose|k: int| 0 <= k < before.len() && before[k] == error;
                assert((before + added)[k] == error);
            } else {
                let k = choose|k: int| 0 <= k < added.len() && added[k] == error;
                assert((before + added)[before.len() + k] == error);
            }
        }
    }
}

} // verus!
