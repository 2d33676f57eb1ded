use autopilot::auction::{Order, Price, TokenPrice};
use autopilot::competition::{
    check_coverage, validate, Score, SolutionError, TradedAmounts as Traded, TradedOrder,
};
use autopilot::eth::{Address, Integer, OrderUid, U256};
use autopilot::solve::{Response, Solution, TradedAmounts};

fn asset(tag: u8) -> Address {
    Address([tag; 20])
}

fn uid(tag: u8) -> OrderUid {
    OrderUid([tag; 56])
}

fn amounts(sell: u64, buy: u64) -> TradedAmounts {
    TradedAmounts { sell_amount: U256::from_u64(sell), buy_amount: U256::from_u64(buy) }
}

fn proposal(id: u64, score: u64) -> Solution {
    Solution {
        solution_id: id,
        score: Integer::from_u64(score),
        submission_address: asset(0xaa),
        orders: vec![(uid(1), amounts(10, 20))],
        clearing_prices: vec![(asset(1), U256::from_u64(10)), (asset(2), U256::from_u64(5))],
        gas: Some(21_000),
    }
}

fn pool_order(tag: u8, sell: u8, buy: u8) -> Order {
    Order {
        uid: uid(tag),
        owner: asset(0xee),
        sell_token: asset(sell),
        buy_token: asset(buy),
        sell_amount: U256::from_u64(1),
        buy_amount: U256::from_u64(2),
    }
}

#[test]
fn valid_proposal_becomes_a_solution() {
    let solution = proposal(7, 100).into_domain().unwrap();
    assert_eq!(solution.id, 7);
    assert_eq!(solution.solver, asset(0xaa));
    assert_eq!(solution.score, Score { value: U256::from_u64(100) });
    assert_eq!(
        solution.orders,
        vec![TradedOrder {
            uid: uid(1),
            amounts: Traded { sell: U256::from_u64(10), buy: U256::from_u64(20) },
        }]
    );
    assert_eq!(
        solution.prices,
        vec![
            TokenPrice { token: asset(1), price: Price { value: U256::from_u64(10) } },
            TokenPrice { token: asset(2), price: Price { value: U256::from_u64(5) } },
        ]
    );
}

#[test]
fn zero_score_is_valid() {
    let solution = proposal(1, 0).into_domain().unwrap();
    assert_eq!(solution.score.get(), U256::zero());
}

#[test]
fn negative_score_is_rejected() {
    let mut proposed = proposal(1, 0);
    proposed.score = Integer { negative: true, magnitude: U256::from_u64(1) };
    assert_eq!(proposed.into_domain().unwrap_err(), SolutionError::InvalidScore);
    assert_eq!(
        Score::new(Integer { negative: true, magnitude: U256::from_u64(9) }),
        Err(SolutionError::InvalidScore)
    );
    assert_eq!(Score::new(Integer::from_u64(9)), Ok(Score { value: U256::from_u64(9) }));
}

#[test]
fn zero_clearing_price_is_rejected() {
    let mut proposed = proposal(1, 5);
    proposed.clearing_prices[1].1 = U256::zero();
    assert_eq!(proposed.into_domain().unwrap_err(), SolutionError::InvalidClearingPrice);
}

#[test]
fn order_traded_twice_is_malformed() {
    let mut proposed = proposal(1, 5);
    proposed.orders.push((uid(1), amounts(1, 1)));
    assert_eq!(proposed.into_domain().unwrap_err(), SolutionError::Malformed);
}

#[test]
fn token_cleared_twice_is_malformed() {
    let mut proposed = proposal(1, 5);
    proposed.clearing_prices.push((asset(1), U256::from_u64(3)));
    assert_eq!(proposed.into_domain().unwrap_err(), SolutionError::Malformed);
}

#[test]
fn first_failed_check_decides_the_error() {
    let mut proposed = proposal(1, 5);
    proposed.clearing_prices.push((asset(1), U256::zero()));
    assert_eq!(proposed.to_domain().unwrap_err(), SolutionError::Malformed);
    proposed.score = Integer { negative: true, magnitude: U256::from_u64(2) };
    assert_eq!(proposed.to_domain().unwrap_err(), SolutionError::InvalidScore);
}

#[test]
fn proposal_without_orders_and_prices_is_valid() {
    let proposed = Solution {
        solution_id: 3,
        score: Integer::from_u64(1),
        submission_address: asset(1),
        orders: vec![],
        clearing_prices: vec![],
        gas: None,
    };
    let solution = proposed.into_domain().unwrap();
    assert!(solution.orders.is_empty());
    assert!(solution.prices.is_empty());
}

#[test]
fn response_is_validated_proposal_by_proposal() {
    let mut invalid = proposal(1, 50);
    invalid.clearing_prices[0].1 = U256::zero();
    let response = Response { solutions: vec![invalid, proposal(2, 60)] };
    let verdicts = response.into_domain();
    assert_eq!(verdicts.len(), 2);
    assert_eq!(*verdicts[0].as_ref().unwrap_err(), SolutionError::InvalidClearingPrice);
    assert_eq!(verdicts[1].as_ref().unwrap().id, 2);
}

#[test]
fn empty_response_has_no_verdicts() {
    assert!(Response { solutions: vec![] }.into_domain().is_empty());
}

#[test]
fn traded_order_needs_prices_for_both_tokens() {
    let orders = vec![pool_order(1, 1, 2)];
    assert!(validate(&proposal(1, 5), &orders).is_ok());

    let mut lacks_buy = proposal(1, 5);
    lacks_buy.clearing_prices.pop();
    assert_eq!(
        validate(&lacks_buy, &orders).unwrap_err(),
        SolutionError::InvalidClearingPrice
    );

    let mut lacks_sell = proposal(1, 5);
    lacks_sell.clearing_prices.remove(0);
    assert_eq!(
        validate(&lacks_sell, &orders).unwrap_err(),
        SolutionError::InvalidClearingPrice
    );
}

#[test]
fn orders_that_are_not_traded_need_no_prices() {
    let orders = vec![pool_order(1, 1, 2), pool_order(2, 8, 9)];
    let solution = validate(&proposal(1, 5), &orders).unwrap();
    assert!(check_coverage(&solution, &orders));
}

#[test]
fn traded_order_outside_the_round_is_not_checked_for_prices() {
    let orders = vec![pool_order(5, 8, 9)];
    assert!(validate(&proposal(1, 5), &orders).is_ok());
}

#[test]
fn rejection_by_score_comes_before_coverage() {
    let orders = vec![pool_order(1, 8, 9)];
    let mut proposed = proposal(1, 5);
    assert_eq!(
        validate(&proposed, &orders).unwrap_err(),
        SolutionError::InvalidClearingPrice
    );
    proposed.score = Integer { negative: true, magnitude: U256::from_u64(2) };
    assert_eq!(validate(&proposed, &orders).unwrap_err(), SolutionError::InvalidScore);
}

#[test]
fn duplicate_keeps_the_solution() {
    let solution = proposal(4, 44).into_domain().unwrap();
    let copy = solution.duplicate();
    assert_eq!(copy.id, solution.id);
    assert_eq!(copy.solver, solution.solver);
    assert_eq!(copy.score, solution.score);
    assert_eq!(copy.orders, solution.orders);
    assert_eq!(copy.prices, solution.prices);
}
