//! Cards: suits, rank values, and the two rank orders.
//!
//! A card is a rank (`Value`) and a `Suit`. Ranks are ordered two ways: the
//! natural order used for display and for plain trick comparisons, and a
//! trump-aware order where Jack is highest, then Nine, then the remaining
//! ranks in natural order.

use vstd::prelude::*;

verus! {

#[derive(Debug, Clone, Copy, PartialEq, Eq, Structural)]
pub enum Suit {
    Spades,
    Hearts,
    Diamonds,
    Clubs,
}

impl Suit {
    /// The one-letter code this suit is written as on the wire.
    pub open spec fn spec_char(self) -> char {
        match self {
            Suit::Spades => 's',
            Suit::Hearts => 'h',
            Suit::Diamonds => 'd',
            Suit::Clubs => 'c',
        }
    }

    /// The suit a one-letter code stands for, if any.
    pub open spec fn spec_from_char(c: char) -> Option<Suit> {
        if c == 's' {
            Some(Suit::Spades)
        } else if c == 'h' {
            Some(Suit::Hearts)
        } else if c == 'd' {
            Some(Suit::Diamonds)
        } else if c == 'c' {
            Some(Suit::Clubs)
        } else {
            None
        }
    }

    pub fn as_char(&self) -> (c: char)
        ensures
            c == self.spec_char(),
    {
        match *self {
            Suit::Spades => 's',
            Suit::Hearts => 'h',
            Suit::Diamonds => 'd',
            Suit::Clubs => 'c',
        }
    }

    pub fn from_char(c: char) -> (r: Option<Suit>)
        ensures
            r == Suit::spec_from_char(c),
    {
        if c == 's' {
            Some(Suit::Spades)
        } else if c == 'h' {
            Some(Suit::Hearts)
        } else if c == 'd' {
            Some(Suit::Diamonds)
        } else if c == 'c' {
            Some(Suit::Clubs)
        } else {
            None
        }
    }
}

/// The two conversions between a suit and its code invert each other.
pub proof fn lemma_suit_char_round_trip(s: Suit)
    ensures
        Suit::spec_from_char(s.spec_char()) == Some(s),
{
}

#[derive(Debug, Clone, Copy, PartialEq, Eq, Structural)]
pub enum Value {
    Seven,
    Eight,
    Nine,
    Ten,
    Jack,
    Queen,
    King,
    Ace,
}

impl Value {
    /// Rank in the natural order: 7 < 8 < 9 < 10 < Jack < Queen < King < Ace.
    pub open spec fn natural_rank(self) -> int {
        match self {
            Value::Seven => 0,
            Value::Eight => 1,
            Value::Nine => 2,
            Value::Ten => 3,
            Value::Jack => 4,
            Value::Queen => 5,
            Value::King => 6,
            Value::Ace => 7,
        }
    }

    /// Rank in the trump-aware order: Jack highest, then Nine, then the
    /// remaining ranks in natural order.
    pub open spec fn trump_rank(self) -> int {
        match self {
            Value::Jack => 7,
            Value::Nine => 6,
            Value::Ace => 5,
            Value::King => 4,
            Value::Queen => 3,
            Value::Ten => 2,
            Value::Eight => 1,
            Value::Seven => 0,
        }
    }

    /// The one-letter code this rank is written as on the wire.
    pub open spec fn spec_char(self) -> char {
        match self {
            Value::Seven => '7',
            Value::Eight => '8',
            Value::Nine => '9',
            Value::Ten => 'T',
            Value::Jack => 'J',
            Value::Queen => 'Q',
            Value::King => 'K',
            Value::Ace => 'A',
        }
    }

    pub fn as_char(&self) -> (c: char)
        ensures
            c == self.spec_char(),
    {
        match *self {
            Value::Seven => '7',
            Value::Eight => '8',
            Value::Nine => '9',
            Value::Ten => 'T',
            Value::Jack => 'J',
            Value::Queen => 'Q',
            Value::King => 'K',
            Value::Ace => 'A',
        }
    }

    fn natural_rank_exec(&self) -> (r: u8)
        ensures
            r as int == self.natural_rank(),
    {
        match *self {
            Value::Seven => 0,
            Value::Eight => 1,
            Value::Nine => 2,
            Value::Ten => 3,
            Value::Jack => 4,
            Value::Queen => 5,
            Value::King => 6,
            Value::Ace => 7,
        }
    }

    fn trump_rank_exec(&self) -> (r: u8)
        ensures
            r as int == self.trump_rank(),
    {
        match *self {
            Value::Jack => 7,
            Value::Nine => 6,
            Value::Ace => 5,
            Value::King => 4,
            Value::Queen => 3,
            Value::Ten => 2,
            Value::Eight => 1,
            Value::Seven => 0,
        }
    }

    /// Compares two ranks in the trump-aware order.
    pub fn cmp_trump(&self, other: &Value) -> (o: core::cmp::Ordering)
        ensures
            o == core::cmp::Ordering::Less <==> self.trump_rank() < other.trump_rank(),
            o == core::cmp::Ordering::Equal <==> self.trump_rank() == other.trump_rank(),
            o == core::cmp::Ordering::Greater <==> self.trump_rank() > other.trump_rank(),
    {
        let a = self.trump_rank_exec();
        let b = other.trump_rank_exec();
        if a < b {
            core::cmp::Ordering::Less
        } else if a == b {
            core::cmp::Ordering::Equal
        } else {
            core::cmp::Ordering::Greater
        }
    }
}

/// Two ranks with the same natural rank are the same rank, and likewise for
/// the trump-aware rank: each order tells all eight ranks apart.
pub proof fn lemma_ranks_injective(a: Value, b: Value)
    ensures
        a.natural_rank() == b.natural_rank() ==> a == b,
        a.trump_rank() == b.trump_rank() ==> a == b,
{
}

#[derive(Debug, Clone, Copy, PartialEq, Eq, Structural)]
pub struct Card {
    pub value: Value,
    pub suit: Suit,
}

impl Card {
    pub fn new(value: Value, suit: Suit) -> (c: Card)
        ensures
            c == (Card { value, suit }),
    {
        Card { value, suit }
    }
}

} // verus!
