//! Card point values.
//!
//! A card is worth points according to its rank and to whether its suit is
//! trump: the trump table gives Jack 20, Nine 14, Ace 11, Ten 10, King 4,
//! Queen 3 and nothing for Eight and Seven; the plain table gives Ace 19,
//! Ten 10, King 4, Queen 3, Jack 2 and nothing below. A no-trump contract
//! uses the plain table everywhere; an all-trump contract uses the trump
//! table everywhere but scales every card by 152/248.
//!
//! So that a round total can be floored exactly, the library counts in
//! 248ths of a point: a card's scaled worth is its table value times 248,
//! except under all-trump where it is its trump-table value times 152. A
//! team's floored point total is then its scaled sum divided by 248.

use vstd::prelude::*;

use crate::card::{Card, Value};
use crate::trump::Trump;

verus! {

/// The trump table, in whole points.
pub open spec fn trump_table(v: Value) -> int {
    match v {
        Value::Jack => 20,
        Value::Nine => 14,
        Value::Ace => 11,
        Value::Ten => 10,
        Value::King => 4,
        Value::Queen => 3,
        Value::Eight => 0,
        Value::Seven => 0,
    }
}

/// The plain table, in whole points.
pub open spec fn plain_table(v: Value) -> int {
    match v {
        Value::Ace => 19,
        Value::Ten => 10,
        Value::King => 4,
        Value::Queen => 3,
        Value::Jack => 2,
        Value::Nine => 0,
        Value::Eight => 0,
        Value::Seven => 0,
    }
}

/// A card's worth in 248ths of a point under the given trump choice.
pub open spec fn scaled_points(c: Card, trump: Trump) -> int {
    match trump {
        Trump::NoTrump => plain_table(c.value) * 248,
        Trump::AllTrump => trump_table(c.value) * 152,
        Trump::Suit(trump_suit) => if c.suit == trump_suit {
            trump_table(c.value) * 248
        } else {
            plain_table(c.value) * 248
        },
    }
}

impl Card {
    fn trump_points(self) -> (r: u32)
        ensures
            r as int == trump_table(self.value),
    {
        match self.value {
            Value::Jack => 20,
            Value::Nine => 14,
            Value::Ace => 11,
            Value::Ten => 10,
            Value::King => 4,
            Value::Queen => 3,
            Value::Eight => 0,
            Value::Seven => 0,
        }
    }

    fn plain_points(self) -> (r: u32)
        ensures
            r as int == plain_table(self.value),
    {
        match self.value {
            Value::Ace => 19,
            Value::Ten => 10,
            Value::King => 4,
            Value::Queen => 3,
            Value::Jack => 2,
            Value::Nine => 0,
            Value::Eight => 0,
            Value::Seven => 0,
        }
    }

    /// This card's worth in 248ths of a point under the given trump choice.
    pub fn points_scaled(self, trump: Trump) -> (r: u32)
        ensures
            r as int == scaled_points(self, trump),
            r <= 4960,
    {
        match trump {
            Trump::NoTrump => self.plain_points() * 248,
            Trump::AllTrump => self.trump_points() * 152,
            Trump::Suit(trump_suit) => if self.suit == trump_suit {
                self.trump_points() * 248
            } else {
                self.plain_points() * 248
            },
        }
    }
}

} // verus!
