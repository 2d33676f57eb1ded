//! Plain values of the chain: account addresses, order identifiers and
//! 256-bit unsigned integers.

use vstd::prelude::*;

verus! {

/// Compares two byte arrays of the same length.
pub fn bytes_eq<const N: usize>(a: &[u8; N], b: &[u8; N]) -> (same: bool)
    ensures
        same == (*a == *b),
{
    let mut i: usize = 0;
    while i < N
        invariant
            i <= N,
            forall|j: int| 0 <= j < i ==> a[j] == b[j],
        decreases N - i,
    {
        if a[i] != b[i] {
            return false;
        }
        i = i + 1;
    }
    proof {
        vstd::array::axiom_array_ext_equal(*a, *b);
    }
    true
}

/// A 20-byte account or token address.
#[derive(Clone, Copy, Debug, PartialEq, Eq, Hash)]
pub struct Address(pub [u8; 20]);

impl Address {
    /// Whether two addresses hold the same bytes.
    pub fn same(&self, other: &Address) -> (same: bool)
        ensures
            same == (*self == *other),
    {
        bytes_eq(&self.0, &other.0)
    }
}

/// The 56-byte unique identifier of an order.
#[derive(Clone, Copy, Debug, PartialEq, Eq, Hash)]
pub struct OrderUid(pub [u8; 56]);

impl OrderUid {
    /// Whether two identifiers hold the same bytes.
    pub fn same(&self, other: &OrderUid) -> (same: bool)
        ensures
            same == (*self == *other),
    {
        bytes_eq(&self.0, &other.0)
    }
}

/// An unsigned 256-bit integer, held as four 64-bit words with the least
/// significant word first.
#[derive(Clone, Copy, Debug, PartialEq, Eq, Structural, Hash)]
pub struct U256 {
    pub w0: u64,
    pub w1: u64,
    pub w2: u64,
    pub w3: u64,
}

impl U256 {
    /// The number that the four words stand for.
    pub open spec fn value(self) -> nat {
        (self.w0 as nat) + (self.w1 as nat) * 0x1_0000_0000_0000_0000nat + (self.w2 as nat)
            * 0x1_0000_0000_0000_0000_0000_0000_0000_0000nat + (self.w3 as nat)
            * 0x1_0000_0000_0000_0000_0000_0000_0000_0000_0000_0000_0000_0000nat
    }

    /// Two values with the same number have the same words.
    pub proof fn lemma_value_injective(a: U256, b: U256)
        ensures
            (a.value() == b.value()) <==> (a == b),
    {
    }

    /// The order of the numbers is the order of the words read from the
    /// most significant one down.
    pub proof fn lemma_value_order(a: U256, b: U256)
        ensures
            (a.value() < b.value()) <==> (a.w3 < b.w3 || (a.w3 == b.w3 && (a.w2 < b.w2 || (a.w2
                == b.w2 && (a.w1 < b.w1 || (a.w1 == b.w1 && a.w0 < b.w0)))))),
    {
    }

    pub fn zero() -> (n: U256)
        ensures
            n.value() == 0,
    {
        U256 { w0: 0, w1: 0, w2: 0, w3: 0 }
    }

    pub fn from_u64(x: u64) -> (n: U256)
        ensures
            n.value() == x,
    {
        U256 { w0: x, w1: 0, w2: 0, w3: 0 }
    }

    /// Builds the integer from its words, least significant first.
    pub fn from_words(words: [u64; 4]) -> (n: U256)
        ensures
            n == (U256 { w0: words[0], w1: words[1], w2: words[2], w3: words[3] }),
    {
        U256 { w0: words[0], w1: words[1], w2: words[2], w3: words[3] }
    }

    /// The words of the integer, least significant first.
    pub fn to_words(&self) -> (words: [u64; 4])
        ensures
            words@ == seq![self.w0, self.w1, self.w2, self.w3],
    {
        [self.w0, self.w1, self.w2, self.w3]
    }

    pub fn is_zero(&self) -> (zero: bool)
        ensures
            zero == (self.value() == 0),
    {
        self.w0 == 0 && self.w1 == 0 && self.w2 == 0 && self.w3 == 0
    }

    /// Whether `self` is strictly smaller than `other`.
    pub fn less_than(&self, other: &U256) -> (less: bool)
        ensures
            less == (self.value() < other.value()),
    {
        proof {
            Self::lemma_value_order(*self, *other);
        }
        if self.w3 != other.w3 {
            self.w3 < other.w3
        } else if self.w2 != other.w2 {
            self.w2 < other.w2
        } else if self.w1 != other.w1 {
            self.w1 < other.w1
        } else {
            self.w0 < other.w0
        }
    }

    /// Whether both hold the same number.
    pub fn same(&self, other: &U256) -> (same: bool)
        ensures
            same == (self.value() == other.value()),
            same == (*self == *other),
    {
        proof {
            Self::lemma_value_injective(*self, *other);
        }
        self.w0 == other.w0 && self.w1 == other.w1 && self.w2 == other.w2 && self.w3 == other.w3
    }
}

/// An integer as a solver writes it: a sign and a 256-bit magnitude.
#[derive(Clone, Copy, Debug, PartialEq, Eq, Structural, Hash)]
pub struct Integer {
    pub negative: bool,
    pub magnitude: U256,
}

impl Integer {
    /// The number that sign and magnitude stand for.
    pub open spec fn value(self) -> int {
        if self.negative {
            -(self.magnitude.value() as int)
        } else {
            self.magnitude.value() as int
        }
    }

    pub fn from_u64(x: u64) -> (n: Integer)
        ensures
            n.value() == x,
            n == (Integer { negative: false, magnitude: U256 { w0: x, w1: 0, w2: 0, w3: 0 } }),
    {
        Integer { negative: false, magnitude: U256::from_u64(x) }
    }

    /// Whether the number is below zero.
    pub fn is_negative(&self) -> (below: bool)
        ensures
            below == (self.value() < 0),
    {
        self.negative && !self.magnitude.is_zero()
    }
}

} // verus!
