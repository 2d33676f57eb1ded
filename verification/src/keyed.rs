//! Lists that stand for sets and maps: every item has a key, and a list is
//! a set or a map when no key occurs twice.

use vstd::prelude::*;
use crate::eth::{Address, OrderUid};

verus! {

/// An item that is found by a key.
pub trait Keyed {
    type Key;

    /// The key of the item.
    spec fn key(&self) -> Self::Key;

    /// Whether the item has the key `key`.
    fn has_key(&self, key: &Self::Key) -> (has: bool)
        ensures
            has == (self.key() == *key),
    ;

    /// Whether both items have the same key.
    fn same_key(&self, other: &Self) -> (same: bool)
        ensures
            same == (self.key() == other.key()),
    ;
}

impl Keyed for Address {
    type Key = Address;

    open spec fn key(&self) -> Address {
        *self
    }

    fn has_key(&self, key: &Address) -> (has: bool) {
        self.same(key)
    }

    fn same_key(&self, other: &Address) -> (same: bool) {
        self.same(other)
    }
}

impl Keyed for OrderUid {
    type Key = OrderUid;

    open spec fn key(&self) -> OrderUid {
        *self
    }

    fn has_key(&self, key: &OrderUid) -> (has: bool) {
        self.same(key)
    }

    fn same_key(&self, other: &OrderUid) -> (same: bool) {
        self.same(other)
    }
}

/// The keys of a list, in order.
pub open spec fn keys<T: Keyed>(items: Seq<T>) -> Seq<T::Key> {
    Seq::new(items.len(), |i: int| items[i].key())
}

/// No key occurs twice in the list.
pub open spec fn unique_keys<T: Keyed>(items: Seq<T>) -> bool {
    keys(items).no_duplicates()
}

/// Finds the first item with the key `key`.
pub fn find<T: Keyed>(items: &Vec<T>, key: &T::Key) -> (at: Option<usize>)
    ensures
        keys(items@).contains(*key) == at.is_some(),
        at matches Some(i) ==> i < items.len() && items@[i as int].key() == *key && forall|
            j: int,
        |
            0 <= j < i ==> keys(items@)[j] != *key,
{
    let mut i: usize = 0;
    while i < items.len()
        invariant
            i <= items.len(),
            forall|j: int| 0 <= j < i ==> keys(items@)[j] != *key,
        decreases items.len() - i,
    {
        if items[i].has_key(key) {
            assert(keys(items@)[i as int] == *key);
            return Some(i);
        }
        i = i + 1;
    }
    None
}

/// Whether the list has an item with the key `key`.
pub fn contains_key<T: Keyed>(items: &Vec<T>, key: &T::Key) -> (found: bool)
    ensures
        found == keys(items@).contains(*key),
{
    find(items, key).is_some()
}

/// Whether no key occurs twice in the list.
pub fn keys_distinct<T: Keyed>(items: &Vec<T>) -> (ok: bool)
    ensures
        ok == unique_keys(items@),
{
    let ghost all = keys(items@);
    let mut i: usize = 0;
    while i < items.len()
        invariant
            i <= items.len(),
            all == keys(items@),
            forall|a: int, b: int| 0 <= a < b < i ==> all[a] != all[b],
        decreases items.len() - i,
    {
        let mut j: usize = 0;
        while j < i
            invariant
                j <= i < items.len(),
                all == keys(items@),
                forall|a: int| 0 <= a < j ==> all[a] != all[i as int],
            decreases i - j,
        {
            if items[j].same_key(&items[i]) {
                assert(all[j as int] == all[i as int]);
                return false;
            }
            j = j + 1;
        }
        i = i + 1;
    }
    true
}

/// A copy of a vector of plain values.
pub fn copy_of<T: Copy>(items: &Vec<T>) -> (copy: Vec<T>)
    ensures
        copy@ == items@,
{
    let mut copy: Vec<T> = Vec::new();
    let mut i: usize = 0;
    while i < items.len()
        invariant
            i <= items.len(),
            copy@ == items@.take(i as int),
        decreases items.len() - i,
    {
        copy.push(items[i]);
        i = i + 1;
    }
    copy
}

} // verus!
