//! What travels between the coordinator and a solver: the request that
//! opens a round and the solutions that answer it.

use vstd::prelude::*;
use crate::auction::{Auction, Order, Price, TokenPrice};
use crate::competition;
use crate::competition::{Score, SolutionError, TradedOrder};
use crate::keyed::{contains_key, copy_of, keys, keys_distinct, unique_keys, Keyed};
use crate::eth::{Address, Integer, OrderUid, U256};
use crate::time::{
    beyond_any_span, deadline, in_common_range, spec_deadline, utc_now, TimeBudget, Timestamp,
};

verus! {

/// One entry of the token list of a request.
#[derive(Clone, Copy, Debug, PartialEq, Eq)]
pub struct Token {
    pub address: Address,
    pub price: Option<U256>,
    pub trusted: bool,
}

/// The payload that every solver of a round receives.
#[derive(Clone, Debug)]
pub struct Request {
    pub id: i64,
    pub tokens: Vec<Token>,
    pub orders: Vec<Order>,
    pub deadline: Timestamp,
    pub surplus_capturing_jit_order_owners: Vec<Address>,
}

/// The mathematical value of a [`Request`].
pub struct RequestView {
    pub id: i64,
    pub tokens: Seq<Token>,
    pub orders: Seq<Order>,
    pub deadline: Timestamp,
    pub surplus_capturing_jit_order_owners: Seq<Address>,
}

impl View for Request {
    type V = RequestView;

    open spec fn view(&self) -> RequestView {
        RequestView {
            id: self.id,
            tokens: self.tokens@,
            orders: self.orders@,
            deadline: self.deadline,
            surplus_capturing_jit_order_owners: self.surplus_capturing_jit_order_owners@,
        }
    }
}

/// Why no request could be built.
#[derive(Clone, Copy, Debug, PartialEq, Eq, Structural)]
pub enum BuildError {
    /// The snapshot or the trusted tokens list something twice, or a price
    /// is zero.
    MalformedAuction,
    /// The build time is malformed or the deadline cannot be represented.
    DeadlineOutOfRange,
}

/// Whether some entry of `tokens` has the address `address`.
pub open spec fn lists_address(tokens: Seq<Token>, address: Address) -> bool {
    exists|i: int| 0 <= i < tokens.len() && (#[trigger] tokens[i]).address == address
}

/// The entries of `tokens` whose address no earlier entry has, in order.
pub open spec fn first_by_address(tokens: Seq<Token>) -> Seq<Token>
    decreases tokens.len(),
{
    if tokens.len() == 0 {
        Seq::empty()
    } else {
        let earlier = first_by_address(tokens.drop_last());
        if lists_address(tokens.drop_last(), tokens.last().address) {
            earlier
        } else {
            earlier.push(tokens.last())
        }
    }
}

/// One entry for each priced token, with its price and whether it is
/// trusted.
pub open spec fn priced_entries(prices: Seq<TokenPrice>, trusted: Seq<Address>) -> Seq<Token> {
    Seq::new(
        prices.len(),
        |i: int|
            Token {
                address: prices[i].token,
                price: Some(prices[i].price.value),
                trusted: trusted.contains(prices[i].token),
            },
    )
}

/// One entry without a price for each trusted token.
pub open spec fn trusted_entries(trusted: Seq<Address>) -> Seq<Token> {
    Seq::new(trusted.len(), |i: int| Token { address: trusted[i], price: None, trusted: true })
}

/// The token list of a request: the priced entries, then the trusted ones,
/// each address kept where it first occurs.
pub open spec fn token_list(prices: Seq<TokenPrice>, trusted: Seq<Address>) -> Seq<Token> {
    first_by_address(priced_entries(prices, trusted) + trusted_entries(trusted))
}

/// No two entries have the same address.
pub open spec fn addresses_unique(tokens: Seq<Token>) -> bool {
    forall|i: int, j: int|
        0 <= i < j < tokens.len() ==> (#[trigger] tokens[i]).address != (
        #[trigger] tokens[j]).address
}

/// Drops every entry whose address an earlier entry has, with
/// `itertools::Itertools::unique_by` keyed by the bytes of the address: the
/// adaptor is stable and keeps the first entry of each key.
#[verifier::external_body]
pub(crate) fn unique_by_address(tokens: Vec<Token>) -> (kept: Vec<Token>)
    ensures
        kept@ == first_by_address(tokens@),
{
    itertools::Itertools::unique_by(tokens.into_iter(), |token| token.address.0).collect()
}

/// Builds the token list of a request.
pub fn build_tokens(prices: &Vec<TokenPrice>, trusted: &Vec<Address>) -> (tokens: Vec<Token>)
    ensures
        tokens@ == token_list(prices@, trusted@),
        addresses_unique(tokens@),
{
    let mut entries: Vec<Token> = Vec::new();
    let mut i: usize = 0;
    while i < prices.len()
        invariant
            i <= prices.len(),
            entries@ == priced_entries(prices@, trusted@).take(i as int),
        decreases prices.len() - i,
    {
        let listed = prices[i];
        let is_trusted = contains_key(trusted, &listed.token);
        assert(keys(trusted@) =~= trusted@);
        entries.push(
            Token { address: listed.token, price: Some(listed.price.get()), trusted: is_trusted },
        );
        i = i + 1;
    }
    let mut k: usize = 0;
    while k < trusted.len()
        invariant
            k <= trusted.len(),
            entries@ == priced_entries(prices@, trusted@) + trusted_entries(trusted@).take(
                k as int,
            ),
        decreases trusted.len() - k,
    {
        entries.push(Token { address: trusted[k], price: None, trusted: true });
        k = k + 1;
    }
    assert(entries@ =~= priced_entries(prices@, trusted@) + trusted_entries(trusted@));
    proof {
        lemma_first_by_address(entries@);
    }
    unique_by_address(entries)
}

/// The inputs of a request are a well-formed snapshot and a set of trusted
/// tokens.
pub open spec fn inputs_wf(auction: &Auction, trusted: Seq<Address>) -> bool {
    auction.wf() && unique_keys(trusted)
}

/// The request of a round, given the deadline that was computed for it.
pub open spec fn spec_assemble(
    id: i64,
    auction: &Auction,
    trusted: Seq<Address>,
    deadline: Option<Timestamp>,
) -> Result<RequestView, BuildError> {
    if !inputs_wf(auction, trusted) {
        Err(BuildError::MalformedAuction)
    } else {
        match deadline {
            None => Err(BuildError::DeadlineOutOfRange),
            Some(deadline) => Ok(
                RequestView {
                    id,
                    tokens: token_list(auction.prices@, trusted),
                    orders: auction.orders@,
                    deadline,
                    surplus_capturing_jit_order_owners: auction.surplus_capturing_jit_order_owners@,
                },
            ),
        }
    }
}

/// The request of a round that is built at `now` with the budget
/// `time_limit`.
pub open spec fn spec_new_at(
    id: i64,
    auction: &Auction,
    trusted: Seq<Address>,
    now: Timestamp,
    time_limit: TimeBudget,
) -> Result<RequestView, BuildError> {
    spec_assemble(id, auction, trusted, spec_deadline(now, time_limit))
}

/// The mathematical value of what a build returns.
pub open spec fn built(outcome: Result<Request, BuildError>) -> Result<RequestView, BuildError> {
    match outcome {
        Ok(request) => Ok(request@),
        Err(error) => Err(error),
    }
}

impl Request {
    /// A request lists no token address twice.
    pub open spec fn wf(&self) -> bool {
        addresses_unique(self.tokens@)
    }

    /// Builds the request of round `id` with the budget `time_limit`,
    /// counted from the moment of the call.
    pub fn new(
        id: i64,
        auction: &Auction,
        trusted_tokens: &Vec<Address>,
        time_limit: TimeBudget,
    ) -> (outcome: Result<Request, BuildError>)
        ensures
            exists|now: Timestamp| #[trigger]
                now.wf() && built(outcome) == spec_new_at(
                    id,
                    auction,
                    trusted_tokens@,
                    now,
                    time_limit,
                ),
            outcome matches Ok(request) ==> request.wf(),
            !inputs_wf(auction, trusted_tokens@) ==> outcome == Err::<Request, BuildError>(
                BuildError::MalformedAuction,
            ),
    {
        let now = utc_now();
        Request::new_at(id, auction, trusted_tokens, now, time_limit)
    }

    /// Builds the request of round `id` as of the build time `now`: the
    /// deadline is `now` plus `time_limit`.
    pub fn new_at(
        id: i64,
        auction: &Auction,
        trusted_tokens: &Vec<Address>,
        now: Timestamp,
        time_limit: TimeBudget,
    ) -> (outcome: Result<Request, BuildError>)
        ensures
            built(outcome) == spec_new_at(id, auction, trusted_tokens@, now, time_limit),
            outcome matches Ok(request) ==> request.wf() && request.deadline.wf()
                && request.deadline.total_nanos() == now.total_nanos() + time_limit.total_nanos(),
            inputs_wf(auction, trusted_tokens@) && now.wf() && time_limit.wf() && in_common_range(
                now,
                time_limit,
            ) ==> outcome is Ok,
            inputs_wf(auction, trusted_tokens@) && beyond_any_span(time_limit) ==> outcome == Err::<
                Request,
                BuildError,
            >(BuildError::DeadlineOutOfRange),
    {
        let end = deadline(now, time_limit);
        Request::assemble(id, auction, trusted_tokens, end)
    }

    /// Builds the request of round `id` from the snapshot and the deadline
    /// computed for it; `None` stands for a deadline that could not be
    /// computed.
    pub fn assemble(
        id: i64,
        auction: &Auction,
        trusted_tokens: &Vec<Address>,
        deadline: Option<Timestamp>,
    ) -> (outcome: Result<Request, BuildError>)
        ensures
            built(outcome) == spec_assemble(id, auction, trusted_tokens@, deadline),
            outcome matches Ok(request) ==> request.wf(),
    {
        if !auction.is_well_formed() || !keys_distinct(trusted_tokens) {
            return Err(BuildError::MalformedAuction);
        }
        match deadline {
            None => Err(BuildError::DeadlineOutOfRange),
            Some(deadline) => Ok(
                Request {
                    id,
                    tokens: build_tokens(&auction.prices, trusted_tokens),
                    orders: copy_of(&auction.orders),
                    deadline,
                    surplus_capturing_jit_order_owners: copy_of(
                        &auction.surplus_capturing_jit_order_owners,
                    ),
                },
            ),
        }
    }
}

/// Builds from the same snapshot, trusted tokens, build time and budget
/// give the same request, or fail in the same way.
pub proof fn lemma_same_inputs_same_request(
    first: Result<Request, BuildError>,
    second: Result<Request, BuildError>,
    id: i64,
    auction: &Auction,
    trusted: Seq<Address>,
    now: Timestamp,
    time_limit: TimeBudget,
)
    requires
        built(first) == spec_new_at(id, auction, trusted, now, time_limit),
        built(second) == spec_new_at(id, auction, trusted, now, time_limit),
    ensures
        built(first) == built(second),
        first matches Ok(request) ==> second is Ok && request@ == second->Ok_0@,
        first matches Err(error) ==> second == Err::<Request, BuildError>(error),
{
}

/// A token that is both priced and trusted has exactly one entry in the
/// token list, and that entry carries its price and the trusted flag.
pub proof fn lemma_priced_and_trusted_listed_once(
    prices: Seq<TokenPrice>,
    trusted: Seq<Address>,
    i: int,
)
    requires
        unique_keys(prices),
        0 <= i < prices.len(),
        trusted.contains(prices[i].token),
    ensures
        exists|k: int|
            0 <= k < token_list(prices, trusted).len() && #[trigger] token_list(prices, trusted)[k]
                == (Token {
                address: prices[i].token,
                price: Some(prices[i].price.value),
                trusted: true,
            }) && forall|m: int|
                0 <= m < token_list(prices, trusted).len() && (#[trigger] token_list(
                    prices,
                    trusted,
                )[m]).address == prices[i].token ==> m == k,
{
    let entries = priced_entries(prices, trusted) + trusted_entries(trusted);
    let list = token_list(prices, trusted);
    let address = prices[i].token;
    lemma_first_by_address(entries);
    assert(entries[i].address == address);
    assert(lists_address(entries, address));
    assert(lists_address(list, address));
    let k = choose|k: int| 0 <= k < list.len() && (#[trigger] list[k]).address == address;
    let at = choose|at: int|
        0 <= at < entries.len() && #[trigger] entries[at] == #[trigger] list[k] && !lists_address(
            entries.take(at),
            entries[at].address,
        );
    if at > i {
        assert(entries.take(at)[i].address == address);
    }
    if at < i {
        assert(keys(prices)[at] == keys(prices)[i]);
    }
    assert(at == i);
    assert(list[k] == (Token {
        address: prices[i].token,
        price: Some(prices[i].price.value),
        trusted: true,
    }));
    assert forall|m: int| 0 <= m < list.len() && (#[trigger] list[m]).address == address implies m
        == k by {
        if m < k {
            assert(list[m].address != list[k].address);
        }
        if k < m {
            assert(list[k].address != list[m].address);
        }
    }
}

/// The token list has an entry for an address exactly if the address is
/// priced or trusted.
pub proof fn lemma_listed_if_priced_or_trusted(
    prices: Seq<TokenPrice>,
    trusted: Seq<Address>,
    address: Address,
)
    ensures
        lists_address(token_list(prices, trusted), address) <==> keys(prices).contains(address)
            || trusted.contains(address),
{
    let entries = priced_entries(prices, trusted) + trusted_entries(trusted);
    lemma_first_by_address(entries);
    if lists_address(entries, address) {
        let at = choose|at: int|
            0 <= at < entries.len() && (#[trigger] entries[at]).address == address;
        if at < prices.len() {
            assert(keys(prices)[at] == address);
        } else {
            assert(trusted[at - prices.len()] == address);
        }
    }
    if keys(prices).contains(address) {
        let i = choose|i: int| 0 <= i < prices.len() && keys(prices)[i] == address;
        assert(entries[i].address == address);
    }
    if trusted.contains(address) {
        let j = choose|j: int| 0 <= j < trusted.len() && trusted[j] == address;
        assert(entries[prices.len() + j].address == address);
    }
}

/// A trusted token without a price is listed without a price and as
/// trusted.
pub proof fn lemma_unpriced_trusted_listed(prices: Seq<TokenPrice>, trusted: Seq<Address>, j: int)
    requires
        0 <= j < trusted.len(),
        !keys(prices).contains(trusted[j]),
    ensures
        token_list(prices, trusted).contains(
            Token { address: trusted[j], price: None, trusted: true },
        ),
{
    let entries = priced_entries(prices, trusted) + trusted_entries(trusted);
    let list = token_list(prices, trusted);
    let address = trusted[j];
    lemma_first_by_address(entries);
    assert(entries[prices.len() + j].address == address);
    assert(lists_address(entries, address));
    let k = choose|k: int| 0 <= k < list.len() && (#[trigger] list[k]).address == address;
    let at = choose|at: int|
        0 <= at < entries.len() && #[trigger] entries[at] == #[trigger] list[k] && !lists_address(
            entries.take(at),
            entries[at].address,
        );
    if at < prices.len() {
        assert(keys(prices)[at] == address);
    }
    assert(list[k] == Token { address, price: None, trusted: true });
}

/// A priced token that is not trusted is listed with its price and as not
/// trusted.
pub proof fn lemma_priced_untrusted_listed(prices: Seq<TokenPrice>, trusted: Seq<Address>, i: int)
    requires
        unique_keys(prices),
        0 <= i < prices.len(),
        !trusted.contains(prices[i].token),
    ensures
        token_list(prices, trusted).contains(
            Token { address: prices[i].token, price: Some(prices[i].price.value), trusted: false },
        ),
{
    let entries = priced_entries(prices, trusted) + trusted_entries(trusted);
    let list = token_list(prices, trusted);
    let address = prices[i].token;
    lemma_first_by_address(entries);
    assert(entries[i].address == address);
    assert(lists_address(entries, address));
    let k = choose|k: int| 0 <= k < list.len() && (#[trigger] list[k]).address == address;
    let at = choose|at: int|
        0 <= at < entries.len() && #[trigger] entries[at] == #[trigger] list[k] && !lists_address(
            entries.take(at),
            entries[at].address,
        );
    if at >= prices.len() {
        assert(trusted[at - prices.len()] == address);
    } else if at != i {
        assert(keys(prices)[at] == keys(prices)[i]);
    }
    assert(list[k] == entries[i]);
}

/// What [`first_by_address`] keeps: no address twice, every address of the
/// input, and of each address the entry that comes first in the input.
pub proof fn lemma_first_by_address(tokens: Seq<Token>)
    ensures
        addresses_unique(first_by_address(tokens)),
        forall|a: Address| lists_address(first_by_address(tokens), a) == lists_address(tokens, a),
        forall|k: int|
            0 <= k < first_by_address(tokens).len() ==> exists|i: int|
                0 <= i < tokens.len() && #[trigger] tokens[i] == #[trigger] first_by_address(
                    tokens,
                )[k] && !lists_address(tokens.take(i), tokens[i].address),
    decreases tokens.len(),
{
    let kept = first_by_address(tokens);
    if tokens.len() == 0 {
    } else {
        let init = tokens.drop_last();
        let last = tokens.last();
        let earlier = first_by_address(init);
        lemma_first_by_address(init);
        assert forall|a: Address| lists_address(kept, a) == lists_address(tokens, a) by {
            if lists_address(tokens, a) {
                let i = choose|i: int| 0 <= i < tokens.len() && (#[trigger] tokens[i]).address == a;
                if i < init.len() {
                    assert(init[i].address == a);
                    assert(lists_address(init, a));
                    assert(lists_address(earlier, a));
                    let k = choose|k: int|
                        0 <= k < earlier.len() && (#[trigger] earlier[k]).address == a;
                    assert(kept[k].address == a);
                } else {
                    if lists_address(init, last.address) {
                        assert(lists_address(earlier, a));
                    } else {
                        assert(kept[kept.len() - 1].address == a);
                    }
                }
            }
            if lists_address(kept, a) {
                let k = choose|k: int| 0 <= k < kept.len() && (#[trigger] kept[k]).address == a;
                if k < earlier.len() {
                    assert(earlier[k].address == a);
                    assert(lists_address(earlier, a));
                    assert(lists_address(init, a));
                    let i = choose|i: int| 0 <= i < init.len() && (#[trigger] init[i]).address == a;
                    assert(tokens[i].address == a);
                } else {
                    assert(tokens[tokens.len() - 1].address == a);
                }
            }
        }
        assert(addresses_unique(kept)) by {
            if !lists_address(init, last.address) {
                assert forall|i: int, j: int| 0 <= i < j < kept.len() implies (
                #[trigger] kept[i]).address != (#[trigger] kept[j]).address by {
                    if j == earlier.len() {
                        if kept[i].address == last.address {
                            assert(earlier[i].address == last.address);
                            assert(lists_address(earlier, last.address));
                        }
                    } else {
                        assert(earlier[i].address != earlier[j].address);
                    }
                }
            }
        }
        assert forall|k: int| 0 <= k < kept.len() implies exists|i: int|
            0 <= i < tokens.len() && #[trigger] tokens[i] == #[trigger] kept[k] && !lists_address(
                tokens.take(i),
                tokens[i].address,
            ) by {
            if k < earlier.len() {
                let i = choose|i: int|
                    0 <= i < init.len() && #[trigger] init[i] == #[trigger] earlier[k]
                        && !lists_address(init.take(i), init[i].address);
                assert(init.take(i) =~= tokens.take(i));
                assert(tokens[i] == kept[k]);
            } else {
                let i = tokens.len() - 1;
                assert(tokens.take(i) =~= init);
                assert(tokens[i] == kept[k]);
            }
        }
    }
}

/// What a trader gave and received, as a solver reports it.
#[derive(Clone, Copy, Debug, PartialEq, Eq, Structural)]
pub struct TradedAmounts {
    /// The effective amount that left the user's wallet including all fees.
    pub sell_amount: U256,
    /// The effective amount the user received after all fees.
    pub buy_amount: U256,
}

/// A settlement as a solver proposes it, before it is validated.
#[derive(Clone, Debug)]
pub struct Solution {
    /// Unique per solver and round; later requests name the solution by it.
    pub solution_id: u64,
    pub score: Integer,
    /// The address that submits the settlement on chain.
    pub submission_address: Address,
    /// The traded amounts of each order, by its identifier.
    pub orders: Vec<(OrderUid, TradedAmounts)>,
    /// The clearing price of each token, by its address.
    pub clearing_prices: Vec<(Address, U256)>,
    pub gas: Option<u64>,
}

/// The answer of one solver to a request.
#[derive(Clone, Debug)]
pub struct Response {
    pub solutions: Vec<Solution>,
}

/// The mathematical value of a proposed [`Solution`].
pub struct SolutionView {
    pub solution_id: u64,
    pub score: Integer,
    pub submission_address: Address,
    pub orders: Seq<(OrderUid, TradedAmounts)>,
    pub clearing_prices: Seq<(Address, U256)>,
    pub gas: Option<u64>,
}

impl View for Solution {
    type V = SolutionView;

    open spec fn view(&self) -> SolutionView {
        SolutionView {
            solution_id: self.solution_id,
            score: self.score,
            submission_address: self.submission_address,
            orders: self.orders@,
            clearing_prices: self.clearing_prices@,
            gas: self.gas,
        }
    }
}

impl Keyed for (OrderUid, TradedAmounts) {
    type Key = OrderUid;

    open spec fn key(&self) -> OrderUid {
        self.0
    }

    fn has_key(&self, key: &OrderUid) -> (has: bool) {
        self.0.same(key)
    }

    fn same_key(&self, other: &(OrderUid, TradedAmounts)) -> (same: bool) {
        self.0.same(&other.0)
    }
}

impl Keyed for (Address, U256) {
    type Key = Address;

    open spec fn key(&self) -> Address {
        self.0
    }

    fn has_key(&self, key: &Address) -> (has: bool) {
        self.0.same(key)
    }

    fn same_key(&self, other: &(Address, U256)) -> (same: bool) {
        self.0.same(&other.0)
    }
}

/// The reported trades as the competition holds them.
pub open spec fn traded_orders(orders: Seq<(OrderUid, TradedAmounts)>) -> Seq<TradedOrder> {
    Seq::new(
        orders.len(),
        |i: int|
            TradedOrder {
                uid: orders[i].0,
                amounts: competition::TradedAmounts {
                    sell: orders[i].1.sell_amount,
                    buy: orders[i].1.buy_amount,
                },
            },
    )
}

/// The reported clearing prices as prices.
pub open spec fn cleared_prices(prices: Seq<(Address, U256)>) -> Seq<TokenPrice> {
    Seq::new(
        prices.len(),
        |i: int| TokenPrice { token: prices[i].0, price: Price { value: prices[i].1 } },
    )
}

/// Some reported clearing price is zero.
pub open spec fn has_zero_price(prices: Seq<(Address, U256)>) -> bool {
    exists|i: int| 0 <= i < prices.len() && (#[trigger] prices[i]).1.value() == 0
}

/// What validating a proposed solution gives: the first failed check decides
/// the error, in the order score, duplicates, prices.
pub open spec fn spec_into_domain(proposed: SolutionView) -> Result<
    competition::SolutionView,
    SolutionError,
> {
    if proposed.score.value() < 0 {
        Err(SolutionError::InvalidScore)
    } else if !unique_keys(proposed.orders) || !unique_keys(proposed.clearing_prices) {
        Err(SolutionError::Malformed)
    } else if has_zero_price(proposed.clearing_prices) {
        Err(SolutionError::InvalidClearingPrice)
    } else {
        Ok(
            competition::SolutionView {
                id: proposed.solution_id,
                solver: proposed.submission_address,
                score: Score { value: proposed.score.magnitude },
                orders: traded_orders(proposed.orders),
                prices: cleared_prices(proposed.clearing_prices),
            },
        )
    }
}

/// The mathematical value of what a validation returns.
pub open spec fn validated(outcome: Result<competition::Solution, SolutionError>) -> Result<
    competition::SolutionView,
    SolutionError,
> {
    match outcome {
        Ok(solution) => Ok(solution@),
        Err(error) => Err(error),
    }
}

impl Solution {
    /// Validates the proposal and turns it into a solution of the
    /// competition.
    pub fn into_domain(self) -> (outcome: Result<competition::Solution, SolutionError>)
        ensures
            validated(outcome) == spec_into_domain(self@),
    {
        self.to_domain()
    }

    /// As [`Solution::into_domain`], leaving the proposal in place.
    pub fn to_domain(&self) -> (outcome: Result<competition::Solution, SolutionError>)
        ensures
            validated(outcome) == spec_into_domain(self@),
    {
        let score = match Score::new(self.score) {
            Ok(score) => score,
            Err(error) => {
                return Err(error);
            },
        };
        if !keys_distinct(&self.orders) || !keys_distinct(&self.clearing_prices) {
            return Err(SolutionError::Malformed);
        }
        let mut orders: Vec<TradedOrder> = Vec::new();
        let mut i: usize = 0;
        while i < self.orders.len()
            invariant
                i <= self.orders.len(),
                orders@ == traded_orders(self.orders@).take(i as int),
            decreases self.orders.len() - i,
        {
            let (uid, amounts) = self.orders[i];
            orders.push(
                TradedOrder {
                    uid,
                    amounts: competition::TradedAmounts {
                        sell: amounts.sell_amount,
                        buy: amounts.buy_amount,
                    },
                },
            );
            i = i + 1;
        }
        assert(orders@ =~= traded_orders(self.orders@));
        let mut prices: Vec<TokenPrice> = Vec::new();
        let mut k: usize = 0;
        while k < self.clearing_prices.len()
            invariant
                k <= self.clearing_prices.len(),
                self.score.value() >= 0,
                unique_keys(self.orders@),
                unique_keys(self.clearing_prices@),
                prices@ == cleared_prices(self.clearing_prices@).take(k as int),
                forall|j: int| 0 <= j < k ==> (#[trigger] self.clearing_prices@[j]).1.value() != 0,
            decreases self.clearing_prices.len() - k,
        {
            let (token, value) = self.clearing_prices[k];
            match Price::new(value) {
                Ok(price) => {
                    prices.push(TokenPrice { token, price });
                },
                Err(_) => {
                    return Err(SolutionError::InvalidClearingPrice);
                },
            }
            k = k + 1;
        }
        assert(prices@ =~= cleared_prices(self.clearing_prices@));
        Ok(
            competition::Solution::new(
                self.solution_id,
                self.submission_address,
                score,
                orders,
                prices,
            ),
        )
    }
}

impl Response {
    /// Validates every proposed solution on its own: what one proposal
    /// turns into does not depend on the others.
    pub fn into_domain(self) -> (outcomes: Vec<Result<competition::Solution, SolutionError>>)
        ensures
            outcomes.len() == self.solutions.len(),
            forall|i: int|
                0 <= i < outcomes.len() ==> validated(#[trigger] outcomes@[i]) == spec_into_domain(
                    self.solutions@[i]@,
                ),
    {
        let mut outcomes: Vec<Result<competition::Solution, SolutionError>> = Vec::new();
        let mut i: usize = 0;
        while i < self.solutions.len()
            invariant
                i <= self.solutions.len(),
                outcomes.len() == i,
                forall|j: int|
                    0 <= j < i ==> validated(#[trigger] outcomes@[j]) == spec_into_domain(
                        self.solutions@[j]@,
                    ),
            decreases self.solutions.len() - i,
        {
            outcomes.push(self.solutions[i].to_domain());
            i = i + 1;
        }
        outcomes
    }
}

} // verus!
