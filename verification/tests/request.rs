use autopilot::auction::{Auction, Order, Price, TokenPrice};
use autopilot::eth::{Address, OrderUid, U256};
use autopilot::solve::{build_tokens, BuildError, Request, Token};
use autopilot::time::{deadline, TimeBudget, Timestamp};

fn token_address(tag: u8) -> Address {
    Address([tag; 20])
}

fn priced(tag: u8, price: u64) -> TokenPrice {
    TokenPrice { token: token_address(tag), price: Price { value: U256::from_u64(price) } }
}

fn order(tag: u8) -> Order {
    Order {
        uid: OrderUid([tag; 56]),
        owner: token_address(0xee),
        sell_token: token_address(1),
        buy_token: token_address(2),
        sell_amount: U256::from_u64(1),
        buy_amount: U256::from_u64(2),
    }
}

fn snapshot() -> Auction {
    Auction {
        orders: vec![order(1), order(2)],
        prices: vec![priced(1, 10), priced(2, 5)],
        surplus_capturing_jit_order_owners: vec![token_address(0x77)],
    }
}

fn build_time() -> Timestamp {
    Timestamp { secs: 1_700_000_000, nanos: 250_000_000 }
}

fn fifteen_seconds() -> TimeBudget {
    TimeBudget { secs: 15, nanos: 0 }
}

#[test]
fn priced_and_trusted_token_is_listed_once_with_its_price() {
    let tokens = build_tokens(&vec![priced(1, 10), priced(2, 5)], &vec![token_address(1)]);
    let entries: Vec<&Token> = tokens.iter().filter(|t| t.address == token_address(1)).collect();
    assert_eq!(entries.len(), 1);
    assert_eq!(entries[0].price, Some(U256::from_u64(10)));
    assert!(entries[0].trusted);
}

#[test]
fn token_list_has_priced_entries_first_then_unpriced_trusted_ones() {
    let tokens = build_tokens(
        &vec![priced(1, 10), priced(2, 5)],
        &vec![token_address(3), token_address(2), token_address(4)],
    );
    assert_eq!(
        tokens,
        vec![
            Token { address: token_address(1), price: Some(U256::from_u64(10)), trusted: false },
            Token { address: token_address(2), price: Some(U256::from_u64(5)), trusted: true },
            Token { address: token_address(3), price: None, trusted: true },
            Token { address: token_address(4), price: None, trusted: true },
        ]
    );
}

#[test]
fn token_list_of_nothing_is_empty() {
    assert!(build_tokens(&vec![], &vec![]).is_empty());
}

#[test]
fn repeated_addresses_keep_their_first_entry() {
    let tokens = build_tokens(
        &vec![priced(1, 10), priced(1, 99)],
        &vec![token_address(5), token_address(5)],
    );
    assert_eq!(
        tokens,
        vec![
            Token { address: token_address(1), price: Some(U256::from_u64(10)), trusted: false },
            Token { address: token_address(5), price: None, trusted: true },
        ]
    );
}

#[test]
fn request_carries_the_snapshot() {
    let auction = snapshot();
    let request =
        Request::new_at(1, &auction, &vec![token_address(1)], build_time(), fifteen_seconds())
            .unwrap();
    assert_eq!(request.id, 1);
    assert_eq!(request.orders, auction.orders);
    assert_eq!(request.surplus_capturing_jit_order_owners, vec![token_address(0x77)]);
    assert_eq!(request.tokens.len(), 2);
    assert_eq!(
        request.tokens[0],
        Token { address: token_address(1), price: Some(U256::from_u64(10)), trusted: true }
    );
    assert_eq!(
        request.tokens[1],
        Token { address: token_address(2), price: Some(U256::from_u64(5)), trusted: false }
    );
}

#[test]
fn deadline_is_build_time_plus_budget() {
    let request =
        Request::new_at(1, &snapshot(), &vec![], build_time(), fifteen_seconds()).unwrap();
    assert_eq!(request.deadline, Timestamp { secs: 1_700_000_015, nanos: 250_000_000 });
}

#[test]
fn deadline_carries_nanoseconds_into_seconds() {
    let now = Timestamp { secs: 1_700_000_000, nanos: 900_000_000 };
    let budget = TimeBudget { secs: 2, nanos: 200_000_000 };
    assert_eq!(deadline(now, budget), Some(Timestamp { secs: 1_700_000_003, nanos: 100_000_000 }));
}

#[test]
fn deadline_before_the_epoch() {
    let now = Timestamp { secs: -10, nanos: 0 };
    let budget = TimeBudget { secs: 4, nanos: 1 };
    assert_eq!(deadline(now, budget), Some(Timestamp { secs: -6, nanos: 1 }));
}

#[test]
fn repeated_builds_from_the_same_inputs_are_identical() {
    let auction = snapshot();
    let trusted = vec![token_address(1), token_address(9)];
    let first = Request::new_at(7, &auction, &trusted, build_time(), fifteen_seconds()).unwrap();
    let second = Request::new_at(7, &auction, &trusted, build_time(), fifteen_seconds()).unwrap();
    assert_eq!(first.id, second.id);
    assert_eq!(first.tokens, second.tokens);
    assert_eq!(first.orders, second.orders);
    assert_eq!(first.deadline, second.deadline);
    assert_eq!(
        first.surplus_capturing_jit_order_owners,
        second.surplus_capturing_jit_order_owners
    );
    assert_eq!(format!("{:?}", first), format!("{:?}", second));
}

#[test]
fn assemble_takes_the_deadline_as_given() {
    let at = Timestamp { secs: 5, nanos: 6 };
    let request = Request::assemble(3, &snapshot(), &vec![], Some(at)).unwrap();
    assert_eq!(request.deadline, at);
    assert_eq!(request.id, 3);
}

#[test]
fn assemble_without_a_deadline_fails() {
    let outcome = Request::assemble(3, &snapshot(), &vec![], None);
    assert_eq!(outcome.unwrap_err(), BuildError::DeadlineOutOfRange);
}

#[test]
fn token_priced_twice_is_malformed() {
    let mut auction = snapshot();
    auction.prices.push(priced(1, 11));
    let outcome = Request::new_at(1, &auction, &vec![], build_time(), fifteen_seconds());
    assert_eq!(outcome.unwrap_err(), BuildError::MalformedAuction);
}

#[test]
fn zero_price_is_malformed() {
    let mut auction = snapshot();
    auction.prices.push(priced(3, 0));
    let outcome = Request::new_at(1, &auction, &vec![], build_time(), fifteen_seconds());
    assert_eq!(outcome.unwrap_err(), BuildError::MalformedAuction);
}

#[test]
fn order_listed_twice_is_malformed() {
    let mut auction = snapshot();
    auction.orders.push(order(2));
    let outcome = Request::new_at(1, &auction, &vec![], build_time(), fifteen_seconds());
    assert_eq!(outcome.unwrap_err(), BuildError::MalformedAuction);
}

#[test]
fn owner_listed_twice_is_malformed() {
    let mut auction = snapshot();
    auction.surplus_capturing_jit_order_owners.push(token_address(0x77));
    let outcome = Request::new_at(1, &auction, &vec![], build_time(), fifteen_seconds());
    assert_eq!(outcome.unwrap_err(), BuildError::MalformedAuction);
}

#[test]
fn trusted_token_listed_twice_is_malformed() {
    let trusted = vec![token_address(4), token_address(4)];
    let outcome = Request::new_at(1, &snapshot(), &trusted, build_time(), fifteen_seconds());
    assert_eq!(outcome.unwrap_err(), BuildError::MalformedAuction);
}

#[test]
fn malformed_snapshot_is_reported_before_the_deadline() {
    let mut auction = snapshot();
    auction.orders.push(order(1));
    let budget = TimeBudget { secs: u64::MAX, nanos: 0 };
    let outcome = Request::new_at(1, &auction, &vec![], build_time(), budget);
    assert_eq!(outcome.unwrap_err(), BuildError::MalformedAuction);
}

#[test]
fn budget_beyond_what_can_be_represented_fails() {
    let budget = TimeBudget { secs: u64::MAX, nanos: 0 };
    let outcome = Request::new_at(1, &snapshot(), &vec![], build_time(), budget);
    assert_eq!(outcome.unwrap_err(), BuildError::DeadlineOutOfRange);
}

#[test]
fn malformed_build_time_fails() {
    let now = Timestamp { secs: 0, nanos: 1_000_000_000 };
    let outcome = Request::new_at(1, &snapshot(), &vec![], now, fifteen_seconds());
    assert_eq!(outcome.unwrap_err(), BuildError::DeadlineOutOfRange);
    assert_eq!(deadline(now, fifteen_seconds()), None);
}

#[test]
fn malformed_budget_fails() {
    let budget = TimeBudget { secs: 1, nanos: 1_000_000_000 };
    assert_eq!(deadline(build_time(), budget), None);
}

#[test]
fn request_built_now_has_a_deadline_after_the_budget() {
    let before = Timestamp { secs: 1_600_000_000, nanos: 0 };
    let request = Request::new(9, &snapshot(), &vec![token_address(2)], fifteen_seconds()).unwrap();
    assert!(request.deadline.is_well_formed());
    assert!(request.deadline.reached(&before));
    assert_eq!(request.id, 9);
    assert_eq!(request.tokens.len(), 2);
}

#[test]
fn request_built_now_rejects_a_malformed_snapshot() {
    let mut auction = snapshot();
    auction.prices.push(priced(2, 1));
    let outcome = Request::new(9, &auction, &vec![], fifteen_seconds());
    assert_eq!(outcome.unwrap_err(), BuildError::MalformedAuction);
}

#[test]
fn instants_are_ordered_by_seconds_then_nanoseconds() {
    let early = Timestamp { secs: 10, nanos: 5 };
    let late = Timestamp { secs: 10, nanos: 6 };
    assert!(late.reached(&early));
    assert!(!early.reached(&late));
    assert!(early.reached(&early));
    assert!(Timestamp { secs: 11, nanos: 0 }.reached(&late));
    assert!(!Timestamp { secs: 9, nanos: 999_999_999 }.reached(&early));
}

#[test]
fn deadline_exists_throughout_the_common_range() {
    let last = 253_402_300_799;
    let start = Timestamp { secs: last, nanos: 999_999_999 };
    let budget = TimeBudget { secs: last as u64, nanos: 999_999_999 };
    assert_eq!(
        deadline(start, budget),
        Some(Timestamp { secs: 2 * last + 1, nanos: 999_999_998 })
    );
    let epoch = Timestamp { secs: 0, nanos: 0 };
    assert_eq!(deadline(epoch, TimeBudget { secs: 0, nanos: 0 }), Some(epoch));
}

#[test]
fn budget_longer_than_any_span_has_no_deadline() {
    let epoch = Timestamp { secs: 0, nanos: 0 };
    let longest = 9_223_372_036_854_775;
    assert_eq!(deadline(epoch, TimeBudget { secs: longest + 1, nanos: 0 }), None);
    assert_eq!(deadline(epoch, TimeBudget { secs: longest, nanos: 807_000_001 }), None);
    let outcome = Request::new_at(
        1,
        &snapshot(),
        &vec![],
        build_time(),
        TimeBudget { secs: longest + 1, nanos: 0 },
    );
    assert_eq!(outcome.unwrap_err(), BuildError::DeadlineOutOfRange);
}
