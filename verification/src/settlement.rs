//! Driving the winning settlement of a round to inclusion on chain.
//!
//! A settlement moves through `Pending`, `Submitted` and then `Included`,
//! `Dropped` or `Expired`. After a drop it is submitted again: through the
//! next configured route while there is one, then on the last route with
//! the gas price raised by an eighth (at least by one) up to the ceiling of
//! the route. The number of submissions is bounded, and so is the time.

use vstd::prelude::*;
use crate::auction::TokenPrice;
use crate::competition::{Candidate, Solution, SolutionView, TradedOrder};
use crate::eth::Address;
use crate::keyed::copy_of;
use crate::time::{deadline, in_common_range, spec_deadline, TimeBudget, Timestamp};

verus! {

/// The kind of channel through which a transaction is broadcast.
#[derive(Clone, Copy, Debug, PartialEq, Eq, Structural)]
pub enum RouteKind {
    Public,
    Private,
}

/// A configured submission route with its gas-price ceiling.
#[derive(Clone, Copy, Debug, PartialEq, Eq, Structural)]
pub struct Route {
    pub kind: RouteKind,
    pub gas_price_cap: u128,
}

/// The routes in the order in which they are tried, and the bound on the
/// number of submissions of one settlement.
#[derive(Debug)]
pub struct Strategy {
    pub routes: Vec<Route>,
    pub max_attempts: u32,
}

/// Where a settlement stands.
#[derive(Clone, Copy, Debug, PartialEq, Eq, Structural)]
pub enum Phase {
    /// Chosen, not yet submitted.
    Pending,
    /// Submitted and awaiting what the chain says.
    Submitted,
    /// Included on chain: final.
    Included,
    /// The last submission was dropped; the next one is due.
    Dropped,
    /// Given up without inclusion: final.
    Expired,
}

/// The winning settlement of a round with the state of its submission.
#[derive(Clone, Copy, Debug, PartialEq, Eq, Structural)]
pub struct Settlement {
    pub auction_id: i64,
    pub solver: usize,
    pub solution_id: u64,
    pub phase: Phase,
    /// The position of the current route in the strategy.
    pub route: usize,
    pub gas_price: u128,
    /// The submissions made so far.
    pub attempts: u32,
    pub deadline: Timestamp,
}

/// What was observed since the last step.
#[derive(Clone, Copy, Debug, PartialEq, Eq, Structural)]
pub enum Event {
    /// Nothing but the passing of time.
    Tick,
    /// The transaction was included.
    Included,
    /// The transaction was dropped from the mempool.
    Dropped,
}

/// What the caller has to do after a step.
#[derive(Clone, Copy, Debug, PartialEq, Eq, Structural)]
pub enum Action {
    /// Broadcast the transaction through the route at this gas price.
    Submit { route: usize, gas_price: u128 },
    /// Keep observing.
    Wait,
    /// Step again at once: a new submission is due.
    Retry,
    /// Record the round as settled.
    Settled,
    /// Cancel what is pending and record the round as expired.
    Abandon,
    /// The settlement is final; there is nothing to do.
    Nothing,
}

impl Phase {
    /// `Included` and `Expired` are final.
    pub open spec fn is_final(self) -> bool {
        self is Included || self is Expired
    }

    pub fn is_terminal(&self) -> (terminal: bool)
        ensures
            terminal == self.is_final(),
    {
        match self {
            Phase::Included => true,
            Phase::Expired => true,
            _ => false,
        }
    }
}

/// The gas price after one escalation under the ceiling `cap`.
pub open spec fn escalated(gas_price: u128, cap: u128) -> u128 {
    if gas_price + gas_price / 8 + 1 >= cap {
        cap
    } else {
        (gas_price + gas_price / 8 + 1) as u128
    }
}

/// Route and gas price of the submission that follows a drop, if there is
/// one left.
pub open spec fn next_attempt(routes: Seq<Route>, route: usize, gas_price: u128) -> Option<
    (usize, u128),
> {
    if route + 1 < routes.len() {
        let cap = routes[route + 1].gas_price_cap;
        Some(((route + 1) as usize, if gas_price <= cap { gas_price } else { cap }))
    } else if route < routes.len() && gas_price < routes[route as int].gas_price_cap {
        Some((route, escalated(gas_price, routes[route as int].gas_price_cap)))
    } else {
        None
    }
}

impl Settlement {
    /// The settlement fits the strategy: its route exists, its gas price
    /// respects the ceiling of the route, and it has not been submitted more
    /// often than allowed nor without being counted.
    pub open spec fn wf(self, routes: Seq<Route>, max_attempts: u32) -> bool {
        &&& self.route < routes.len()
        &&& self.gas_price <= routes[self.route as int].gas_price_cap
        &&& self.attempts <= max_attempts
        &&& self.phase is Pending ==> self.attempts == 0
        &&& (self.phase is Submitted || self.phase is Dropped || self.phase is Included)
            ==> self.attempts >= 1
    }

    /// The settlement in another phase.
    pub open spec fn in_phase(self, phase: Phase) -> Settlement {
        Settlement { phase, ..self }
    }

    /// The settlement once submitted through `route` at `gas_price`.
    pub open spec fn submitted(self, route: usize, gas_price: u128) -> Settlement {
        Settlement {
            phase: Phase::Submitted,
            route,
            gas_price,
            attempts: (self.attempts + 1) as u32,
            ..self
        }
    }

    /// One step of the submission: the next state and what to do.
    ///
    /// Final states stay as they are. An inclusion of a submitted settlement
    /// counts whenever it is seen. Otherwise a settlement whose deadline has
    /// come expires; a pending one is submitted, a dropped one is submitted
    /// again if an attempt is left, and expires if none is.
    pub open spec fn next(
        self,
        routes: Seq<Route>,
        max_attempts: u32,
        event: Event,
        now: Timestamp,
    ) -> (Settlement, Action) {
        if self.phase.is_final() {
            (self, Action::Nothing)
        } else if self.phase is Submitted && event is Included {
            (self.in_phase(Phase::Included), Action::Settled)
        } else if now.at_or_after(self.deadline) {
            (self.in_phase(Phase::Expired), Action::Abandon)
        } else {
            match self.phase {
                Phase::Submitted => if event is Dropped {
                    (self.in_phase(Phase::Dropped), Action::Retry)
                } else {
                    (self, Action::Wait)
                },
                Phase::Pending => if self.attempts < max_attempts {
                    (
                        self.submitted(self.route, self.gas_price),
                        Action::Submit { route: self.route, gas_price: self.gas_price },
                    )
                } else {
                    (self.in_phase(Phase::Expired), Action::Abandon)
                },
                _ => match next_attempt(routes, self.route, self.gas_price) {
                    Some((route, gas_price)) => if self.attempts < max_attempts {
                        (self.submitted(route, gas_price), Action::Submit { route, gas_price })
                    } else {
                        (self.in_phase(Phase::Expired), Action::Abandon)
                    },
                    None => (self.in_phase(Phase::Expired), Action::Abandon),
                },
            }
        }
    }

    /// The state after a sequence of observations, each with its time.
    pub open spec fn after(
        self,
        routes: Seq<Route>,
        max_attempts: u32,
        observed: Seq<(Event, Timestamp)>,
    ) -> Settlement
        decreases observed.len(),
    {
        if observed.len() == 0 {
            self
        } else {
            self.after(routes, max_attempts, observed.drop_last()).next(
                routes,
                max_attempts,
                observed.last().0,
                observed.last().1,
            ).0
        }
    }
}

/// Raises the gas price by one step under the ceiling `cap`.
pub fn escalate(gas_price: u128, cap: u128) -> (raised: u128)
    ensures
        raised == escalated(gas_price, cap),
        gas_price <= cap ==> gas_price <= raised <= cap,
        gas_price < cap ==> gas_price < raised,
{
    let step = gas_price / 8 + 1;
    if gas_price >= cap || cap - gas_price <= step {
        cap
    } else {
        gas_price + step
    }
}

/// Route and gas price of the submission that follows a drop.
pub fn following_attempt(routes: &Vec<Route>, route: usize, gas_price: u128) -> (next: Option<
    (usize, u128),
>)
    ensures
        next == next_attempt(routes@, route, gas_price),
        next matches Some((r, g)) ==> r < routes.len() && g <= routes[r as int].gas_price_cap,
{
    if route < routes.len() && route + 1 < routes.len() {
        let cap = routes[route + 1].gas_price_cap;
        Some((route + 1, if gas_price <= cap { gas_price } else { cap }))
    } else if route < routes.len() && gas_price < routes[route].gas_price_cap {
        Some((route, escalate(gas_price, routes[route].gas_price_cap)))
    } else {
        None
    }
}

/// Takes one step of the submission of `settlement` and says what to do.
pub fn step(
    strategy: &Strategy,
    settlement: &mut Settlement,
    event: Event,
    now: Timestamp,
) -> (action: Action)
    ensures
        (*final(settlement), action) == old(settlement).next(
            strategy.routes@,
            strategy.max_attempts,
            event,
            now,
        ),
        old(settlement).wf(strategy.routes@, strategy.max_attempts) ==> final(settlement).wf(
            strategy.routes@,
            strategy.max_attempts,
        ),
        old(settlement).wf(strategy.routes@, strategy.max_attempts) && action is Submit
            ==> action->route < strategy.routes.len() && action->gas_price
            <= strategy.routes@[action->route as int].gas_price_cap,
{
    if settlement.phase.is_terminal() {
        return Action::Nothing;
    }
    if settlement.phase == Phase::Submitted && event == Event::Included {
        settlement.phase = Phase::Included;
        return Action::Settled;
    }
    if now.reached(&settlement.deadline) {
        settlement.phase = Phase::Expired;
        return Action::Abandon;
    }
    match settlement.phase {
        Phase::Submitted => {
            if event == Event::Dropped {
                settlement.phase = Phase::Dropped;
                Action::Retry
            } else {
                Action::Wait
            }
        },
        Phase::Pending => {
            if settlement.attempts < strategy.max_attempts {
                settlement.phase = Phase::Submitted;
                settlement.attempts = settlement.attempts + 1;
                Action::Submit { route: settlement.route, gas_price: settlement.gas_price }
            } else {
                settlement.phase = Phase::Expired;
                Action::Abandon
            }
        },
        _ => {
            match following_attempt(&strategy.routes, settlement.route, settlement.gas_price) {
                Some((route, gas_price)) => {
                    if settlement.attempts < strategy.max_attempts {
                        settlement.phase = Phase::Submitted;
                        settlement.route = route;
                        settlement.gas_price = gas_price;
                        settlement.attempts = settlement.attempts + 1;
                        Action::Submit { route, gas_price }
                    } else {
                        settlement.phase = Phase::Expired;
                        Action::Abandon
                    }
                },
                None => {
                    settlement.phase = Phase::Expired;
                    Action::Abandon
                },
            }
        },
    }
}

/// A step keeps a settlement within its strategy, and whatever it asks to
/// submit goes through a configured route at no more than its ceiling.
pub proof fn lemma_next_within_strategy(
    settlement: Settlement,
    routes: Seq<Route>,
    max_attempts: u32,
    event: Event,
    now: Timestamp,
)
    requires
        settlement.wf(routes, max_attempts),
        routes.len() <= usize::MAX,
    ensures
        settlement.next(routes, max_attempts, event, now).0.wf(routes, max_attempts),
        settlement.next(routes, max_attempts, event, now).1 matches Action::Submit {
            route,
            gas_price,
        } ==> route < routes.len() && gas_price <= routes[route as int].gas_price_cap
            && settlement.next(routes, max_attempts, event, now).0.attempts == settlement.attempts
            + 1,
        settlement.next(routes, max_attempts, event, now).0.auction_id == settlement.auction_id,
        settlement.next(routes, max_attempts, event, now).0.solution_id == settlement.solution_id,
        settlement.next(routes, max_attempts, event, now).0.solver == settlement.solver,
{
}

/// A final settlement stays as it is whatever is observed, and no step
/// asks for anything: what was included on one route is never submitted
/// again, through that route or another.
pub proof fn lemma_final_stays(
    settlement: Settlement,
    routes: Seq<Route>,
    max_attempts: u32,
    observed: Seq<(Event, Timestamp)>,
    event: Event,
    now: Timestamp,
)
    requires
        settlement.phase.is_final(),
    ensures
        settlement.after(routes, max_attempts, observed) == settlement,
        settlement.after(routes, max_attempts, observed).next(routes, max_attempts, event, now)
            == (settlement, Action::Nothing),
    decreases observed.len(),
{
    if observed.len() > 0 {
        lemma_final_stays(
            settlement,
            routes,
            max_attempts,
            observed.drop_last(),
            observed.last().0,
            observed.last().1,
        );
    }
}

/// Observing `later` after `earlier` is observing both in a row.
pub proof fn lemma_after_both(
    settlement: Settlement,
    routes: Seq<Route>,
    max_attempts: u32,
    earlier: Seq<(Event, Timestamp)>,
    later: Seq<(Event, Timestamp)>,
)
    ensures
        settlement.after(routes, max_attempts, earlier + later) == settlement.after(
            routes,
            max_attempts,
            earlier,
        ).after(routes, max_attempts, later),
    decreases later.len(),
{
    if later.len() == 0 {
        assert(earlier + later =~= earlier);
    } else {
        lemma_after_both(settlement, routes, max_attempts, earlier, later.drop_last());
        assert((earlier + later).drop_last() =~= earlier + later.drop_last());
    }
}

/// Once a run of observations has led to inclusion, nothing that is
/// observed afterwards changes the settlement.
pub proof fn lemma_included_for_good(
    settlement: Settlement,
    routes: Seq<Route>,
    max_attempts: u32,
    earlier: Seq<(Event, Timestamp)>,
    later: Seq<(Event, Timestamp)>,
)
    requires
        settlement.after(routes, max_attempts, earlier).phase is Included,
    ensures
        settlement.after(routes, max_attempts, earlier + later) == settlement.after(
            routes,
            max_attempts,
            earlier,
        ),
{
    lemma_after_both(settlement, routes, max_attempts, earlier, later);
    lemma_final_stays(
        settlement.after(routes, max_attempts, earlier),
        routes,
        max_attempts,
        later,
        Event::Tick,
        settlement.deadline,
    );
}

/// Whatever is observed, a settlement stays within its strategy and with
/// its round and solution: the number of submissions never passes the
/// bound.
pub proof fn lemma_after_within_strategy(
    settlement: Settlement,
    routes: Seq<Route>,
    max_attempts: u32,
    observed: Seq<(Event, Timestamp)>,
)
    requires
        settlement.wf(routes, max_attempts),
        routes.len() <= usize::MAX,
    ensures
        settlement.after(routes, max_attempts, observed).wf(routes, max_attempts),
        settlement.after(routes, max_attempts, observed).auction_id == settlement.auction_id,
        settlement.after(routes, max_attempts, observed).solution_id == settlement.solution_id,
        settlement.after(routes, max_attempts, observed).solver == settlement.solver,
    decreases observed.len(),
{
    if observed.len() > 0 {
        lemma_after_within_strategy(settlement, routes, max_attempts, observed.drop_last());
        lemma_next_within_strategy(
            settlement.after(routes, max_attempts, observed.drop_last()),
            routes,
            max_attempts,
            observed.last().0,
            observed.last().1,
        );
    }
}

/// The submissions that a sequence of observations asks for.
pub open spec fn submissions(
    settlement: Settlement,
    routes: Seq<Route>,
    max_attempts: u32,
    observed: Seq<(Event, Timestamp)>,
) -> nat
    decreases observed.len(),
{
    if observed.len() == 0 {
        0
    } else {
        let before = settlement.after(routes, max_attempts, observed.drop_last());
        let asked = before.next(routes, max_attempts, observed.last().0, observed.last().1).1;
        submissions(settlement, routes, max_attempts, observed.drop_last()) + if asked is Submit {
            1nat
        } else {
            0nat
        }
    }
}

/// Every submission is counted, so that a settlement is never submitted
/// more often than the strategy allows, whatever is observed and however
/// long.
pub proof fn lemma_submissions_bounded(
    settlement: Settlement,
    routes: Seq<Route>,
    max_attempts: u32,
    observed: Seq<(Event, Timestamp)>,
)
    requires
        settlement.wf(routes, max_attempts),
        routes.len() <= usize::MAX,
    ensures
        settlement.after(routes, max_attempts, observed).attempts == settlement.attempts
            + submissions(settlement, routes, max_attempts, observed),
        settlement.attempts + submissions(settlement, routes, max_attempts, observed)
            <= max_attempts,
    decreases observed.len(),
{
    if observed.len() > 0 {
        lemma_submissions_bounded(settlement, routes, max_attempts, observed.drop_last());
        lemma_after_within_strategy(settlement, routes, max_attempts, observed.drop_last());
        lemma_after_within_strategy(settlement, routes, max_attempts, observed);
    }
}

/// A settlement that is not final at its deadline expires with the next
/// step, unless that step sees a submitted settlement included.
pub proof fn lemma_expires_at_deadline(
    settlement: Settlement,
    routes: Seq<Route>,
    max_attempts: u32,
    event: Event,
    now: Timestamp,
)
    requires
        !settlement.phase.is_final(),
        now.at_or_after(settlement.deadline),
    ensures
        settlement.next(routes, max_attempts, event, now).0.phase.is_final(),
        !(settlement.phase is Submitted && event is Included) ==> settlement.next(
            routes,
            max_attempts,
            event,
            now,
        ) == (settlement.in_phase(Phase::Expired), Action::Abandon),
{
}

/// A settlement as it is broadcast: who submits which trades at which
/// clearing prices, through which kind of route and at what gas price.
#[derive(Debug)]
pub struct Transaction {
    pub auction_id: i64,
    pub solution_id: u64,
    pub sender: Address,
    pub route: RouteKind,
    pub gas_price: u128,
    pub trades: Vec<TradedOrder>,
    pub clearing_prices: Vec<TokenPrice>,
}

/// The settlement stands submitted through one of the routes, and
/// `solution` is the solution it refers to.
pub open spec fn submittable(routes: Seq<Route>, settlement: Settlement, solution: SolutionView) -> bool {
    &&& settlement.phase is Submitted
    &&& settlement.route < routes.len()
    &&& settlement.solution_id == solution.id
}

/// The transaction carries the trades, the clearing prices and the
/// submission address of the solution, and route and gas price of the
/// settlement.
pub open spec fn carries(
    transaction: Transaction,
    routes: Seq<Route>,
    settlement: Settlement,
    solution: SolutionView,
) -> bool {
    &&& transaction.auction_id == settlement.auction_id
    &&& transaction.solution_id == solution.id
    &&& transaction.sender == solution.solver
    &&& transaction.route == routes[settlement.route as int].kind
    &&& transaction.gas_price == settlement.gas_price
    &&& transaction.trades@ == solution.orders
    &&& transaction.clearing_prices@ == solution.prices
}

/// Turns the solution that a submitted settlement refers to into the
/// transaction to broadcast. There is none for a settlement in another
/// phase, for another solution or for a route that is not configured.
pub fn transaction(strategy: &Strategy, settlement: &Settlement, solution: &Solution) -> (made:
    Option<Transaction>)
    ensures
        made.is_some() == submittable(strategy.routes@, *settlement, solution@),
        made matches Some(transaction) ==> carries(
            transaction,
            strategy.routes@,
            *settlement,
            solution@,
        ),
{
    if settlement.phase == Phase::Submitted && settlement.route < strategy.routes.len()
        && settlement.solution_id == solution.id {
        Some(
            Transaction {
                auction_id: settlement.auction_id,
                solution_id: solution.id,
                sender: solution.solver,
                route: strategy.routes[settlement.route].kind,
                gas_price: settlement.gas_price,
                trades: copy_of(&solution.orders),
                clearing_prices: copy_of(&solution.prices),
            },
        )
    } else {
        None
    }
}

/// Why no settlement could be begun.
#[derive(Clone, Copy, Debug, PartialEq, Eq, Structural)]
pub enum BeginError {
    /// The settlement of an earlier round is still in flight.
    InFlight,
    /// The round is not newer than the last one that was settled here.
    StaleAuction,
    /// No route is configured.
    NoRoute,
    /// The submission deadline cannot be represented.
    DeadlineOutOfRange,
}

/// Owns the settlement of the current round. Rounds follow one another: a
/// new one begins only when the last one is final, and only with a higher
/// auction id.
#[derive(Debug)]
pub struct Submitter {
    pub strategy: Strategy,
    /// The auction id of the last round that was begun.
    pub last_auction: Option<i64>,
    pub current: Option<Settlement>,
}

/// The gas price at which the first submission goes out.
pub open spec fn first_gas_price(routes: Seq<Route>, gas_price: u128) -> u128 {
    if gas_price <= routes[0].gas_price_cap {
        gas_price
    } else {
        routes[0].gas_price_cap
    }
}

impl Submitter {
    /// The current settlement, if there is one, fits the strategy and
    /// belongs to the last round that was begun.
    pub open spec fn wf(&self) -> bool {
        self.current matches Some(settlement) ==> settlement.wf(
            self.strategy.routes@,
            self.strategy.max_attempts,
        ) && self.last_auction == Some(settlement.auction_id)
    }

    /// A settlement is in flight: begun and not final.
    pub open spec fn in_flight(&self) -> bool {
        self.current matches Some(settlement) && !settlement.phase.is_final()
    }

    /// What stands in the way of beginning round `auction_id`, if anything.
    pub open spec fn obstacle(&self, auction_id: i64) -> Option<BeginError> {
        if self.in_flight() {
            Some(BeginError::InFlight)
        } else if self.last_auction matches Some(last) && auction_id <= last {
            Some(BeginError::StaleAuction)
        } else if self.strategy.routes@.len() == 0 {
            Some(BeginError::NoRoute)
        } else {
            None
        }
    }

    /// Whether round `auction_id` may begin.
    pub open spec fn admits(&self, auction_id: i64) -> Result<(), BeginError> {
        match self.obstacle(auction_id) {
            Some(error) => Err(error),
            None => Ok(()),
        }
    }

    /// The settlement with which round `auction_id` begins.
    pub open spec fn fresh(
        &self,
        auction_id: i64,
        solver: usize,
        solution_id: u64,
        gas_price: u128,
        deadline: Timestamp,
    ) -> Settlement {
        Settlement {
            auction_id,
            solver,
            solution_id,
            phase: Phase::Pending,
            route: 0,
            gas_price: first_gas_price(self.strategy.routes@, gas_price),
            attempts: 0,
            deadline,
        }
    }

    pub fn new(strategy: Strategy) -> (submitter: Submitter)
        ensures
            submitter.strategy == strategy,
            submitter.last_auction is None,
            submitter.current is None,
            submitter.wf(),
    {
        Submitter { strategy, last_auction: None, current: None }
    }

    /// What stands in the way of beginning round `auction_id`, if anything:
    /// a new round must wait until the settlement of the last one is final.
    pub fn blocked_by(&self, auction_id: i64) -> (obstacle: Option<BeginError>)
        ensures
            obstacle == self.obstacle(auction_id),
    {
        if let Some(settlement) = &self.current {
            if !settlement.phase.is_terminal() {
                return Some(BeginError::InFlight);
            }
        }
        if let Some(last) = self.last_auction {
            if auction_id <= last {
                return Some(BeginError::StaleAuction);
            }
        }
        if self.strategy.routes.len() == 0 {
            return Some(BeginError::NoRoute);
        }
        None
    }

    /// Begins the settlement of round `auction_id` with the winning
    /// candidate, to be included by `deadline`. Where something stands in
    /// the way, nothing changes.
    pub fn begin_until(
        &mut self,
        auction_id: i64,
        winner: &Candidate,
        gas_price: u128,
        deadline: Timestamp,
    ) -> (begun: Result<(), BeginError>)
        ensures
            final(self).strategy == old(self).strategy,
            begun == old(self).admits(auction_id),
            begun is Err ==> *final(self) == *old(self),
            begun is Ok ==> final(self).last_auction == Some(auction_id),
            begun is Ok ==> final(self).current == Some(
                old(self).fresh(auction_id, winner.solver, winner.solution.id, gas_price, deadline),
            ),
            begun is Ok ==> final(self).wf(),
    {
        if let Some(error) = self.blocked_by(auction_id) {
            return Err(error);
        }
        let cap = self.strategy.routes[0].gas_price_cap;
        self.current = Some(
            Settlement {
                auction_id,
                solver: winner.solver,
                solution_id: winner.solution.id,
                phase: Phase::Pending,
                route: 0,
                gas_price: if gas_price <= cap { gas_price } else { cap },
                attempts: 0,
                deadline,
            },
        );
        self.last_auction = Some(auction_id);
        Ok(())
    }

    /// Begins the settlement of round `auction_id`, to be included within
    /// `budget` from `now`.
    pub fn begin(
        &mut self,
        auction_id: i64,
        winner: &Candidate,
        gas_price: u128,
        now: Timestamp,
        budget: TimeBudget,
    ) -> (begun: Result<(), BeginError>)
        ensures
            final(self).strategy == old(self).strategy,
            begun == match spec_deadline(now, budget) {
                None => Err(BeginError::DeadlineOutOfRange),
                Some(_) => old(self).admits(auction_id),
            },
            begun is Err ==> *final(self) == *old(self),
            begun is Ok ==> final(self).last_auction == Some(auction_id),
            begun is Ok ==> final(self).current == Some(
                old(self).fresh(
                    auction_id,
                    winner.solver,
                    winner.solution.id,
                    gas_price,
                    spec_deadline(now, budget)->Some_0,
                ),
            ),
            begun is Ok ==> final(self).wf(),
            begun is Ok ==> final(self).current->Some_0.deadline.total_nanos() == now.total_nanos()
                + budget.total_nanos(),
            now.wf() && budget.wf() && in_common_range(now, budget) && old(self).obstacle(
                auction_id,
            ) is None ==> begun is Ok,
    {
        match deadline(now, budget) {
            None => Err(BeginError::DeadlineOutOfRange),
            Some(deadline) => self.begin_until(auction_id, winner, gas_price, deadline),
        }
    }

    /// Takes one step of the current settlement. Without a settlement there
    /// is nothing to do.
    pub fn handle(&mut self, event: Event, now: Timestamp) -> (action: Action)
        ensures
            final(self).strategy == old(self).strategy,
            final(self).last_auction == old(self).last_auction,
            match old(self).current {
                None => action == Action::Nothing && final(self).current is None,
                Some(settlement) => final(self).current == Some(
                    settlement.next(
                        old(self).strategy.routes@,
                        old(self).strategy.max_attempts,
                        event,
                        now,
                    ).0,
                ) && action == settlement.next(
                    old(self).strategy.routes@,
                    old(self).strategy.max_attempts,
                    event,
                    now,
                ).1,
            },
            old(self).wf() ==> final(self).wf(),
    {
        match self.current {
            None => Action::Nothing,
            Some(settlement) => {
                let mut moved = settlement;
                let action = step(&self.strategy, &mut moved, event, now);
                self.current = Some(moved);
                action
            },
        }
    }
}

} // verus!
