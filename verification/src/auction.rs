//! One round's snapshot: the open orders, the reference prices and the
//! owners whose just-in-time orders capture surplus.

use vstd::prelude::*;
use crate::eth::{Address, OrderUid, U256};
use crate::keyed::{keys_distinct, unique_keys, Keyed};

verus! {

/// The reference price of a token. A price is positive.
#[derive(Clone, Copy, Debug, PartialEq, Eq, Structural)]
pub struct Price {
    pub value: U256,
}

/// Why a number is no price.
#[derive(Clone, Copy, Debug, PartialEq, Eq, Structural)]
pub struct InvalidPrice;

impl Price {
    pub open spec fn wf(self) -> bool {
        self.value.value() > 0
    }

    /// Accepts every number but zero.
    pub fn new(value: U256) -> (price: Result<Price, InvalidPrice>)
        ensures
            value.value() > 0 ==> price == Ok::<Price, InvalidPrice>(Price { value }),
            value.value() == 0 ==> price is Err,
    {
        if value.is_zero() {
            Err(InvalidPrice)
        } else {
            Ok(Price { value })
        }
    }

    pub fn get(&self) -> (value: U256)
        ensures
            value == self.value,
    {
        self.value
    }
}

/// A token together with its reference price.
#[derive(Clone, Copy, Debug, PartialEq, Eq)]
pub struct TokenPrice {
    pub token: Address,
    pub price: Price,
}

/// A pending trade intent: sell at most `sell_amount` of one token for at
/// least `buy_amount` of another.
#[derive(Clone, Copy, Debug, PartialEq, Eq)]
pub struct Order {
    pub uid: OrderUid,
    pub owner: Address,
    pub sell_token: Address,
    pub buy_token: Address,
    pub sell_amount: U256,
    pub buy_amount: U256,
}

/// The snapshot that a round competes on.
#[derive(Clone, Debug)]
pub struct Auction {
    pub orders: Vec<Order>,
    pub prices: Vec<TokenPrice>,
    pub surplus_capturing_jit_order_owners: Vec<Address>,
}

impl Keyed for TokenPrice {
    type Key = Address;

    open spec fn key(&self) -> Address {
        self.token
    }

    fn has_key(&self, key: &Address) -> (has: bool) {
        self.token.same(key)
    }

    fn same_key(&self, other: &TokenPrice) -> (same: bool) {
        self.token.same(&other.token)
    }
}

impl Keyed for Order {
    type Key = OrderUid;

    open spec fn key(&self) -> OrderUid {
        self.uid
    }

    fn has_key(&self, key: &OrderUid) -> (has: bool) {
        self.uid.same(key)
    }

    fn same_key(&self, other: &Order) -> (same: bool) {
        self.uid.same(&other.uid)
    }
}

/// Every price of the list is positive.
pub open spec fn prices_positive(prices: Seq<TokenPrice>) -> bool {
    forall|i: int| 0 <= i < prices.len() ==> (#[trigger] prices[i]).price.wf()
}

impl Auction {
    /// The snapshot is a set of orders with unique identifiers, a mapping
    /// from tokens to positive prices and a set of owners.
    pub open spec fn wf(&self) -> bool {
        &&& unique_keys(self.orders@)
        &&& unique_keys(self.prices@)
        &&& prices_positive(self.prices@)
        &&& unique_keys(self.surplus_capturing_jit_order_owners@)
    }

    /// Checks [`Auction::wf`].
    pub fn is_well_formed(&self) -> (ok: bool)
        ensures
            ok == self.wf(),
    {
        keys_distinct(&self.orders) && keys_distinct(&self.prices) && all_prices_positive(
            &self.prices,
        ) && keys_distinct(&self.surplus_capturing_jit_order_owners)
    }
}

/// Whether every listed price is positive.
pub fn all_prices_positive(prices: &Vec<TokenPrice>) -> (ok: bool)
    ensures
        ok == prices_positive(prices@),
{
    let mut i: usize = 0;
    while i < prices.len()
        invariant
            i <= prices.len(),
            forall|j: int| 0 <= j < i ==> (#[trigger] prices@[j]).price.wf(),
        decreases prices.len() - i,
    {
        if prices[i].price.value.is_zero() {
            return false;
        }
        i = i + 1;
    }
    true
}

} // verus!
