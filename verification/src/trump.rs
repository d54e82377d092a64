//! Trump choice of a contract and how it classifies suits.

use vstd::prelude::*;

use crate::card::Suit;

verus! {

/// The trump choice of a contract: a single trump suit, every suit trump,
/// or no trump at all.
#[derive(Debug, Clone, Copy, PartialEq, Eq, Structural)]
pub enum Trump {
    NoTrump,
    AllTrump,
    Suit(Suit),
}

/// How a suit relates to the contract's trump choice.
#[derive(Debug, Clone, Copy, PartialEq, Eq, Structural)]
pub enum TrumpMatch {
    YesOrAllTrump,
    No,
    NoTrump,
}

impl Trump {
    /// Whether cards of `suit` rank as trumps under this contract.
    pub open spec fn spec_is_trump(self, suit: Suit) -> bool {
        match self {
            Trump::NoTrump => false,
            Trump::AllTrump => true,
            Trump::Suit(trump_suit) => trump_suit == suit,
        }
    }

    pub open spec fn spec_matches(self, suit: Suit) -> TrumpMatch {
        match self {
            Trump::NoTrump => TrumpMatch::NoTrump,
            Trump::AllTrump => TrumpMatch::YesOrAllTrump,
            Trump::Suit(trump_suit) => if trump_suit == suit {
                TrumpMatch::YesOrAllTrump
            } else {
                TrumpMatch::No
            },
        }
    }

    pub fn matches(self, suit: Suit) -> (m: TrumpMatch)
        ensures
            m == self.spec_matches(suit),
    {
        match self {
            Self::NoTrump => TrumpMatch::NoTrump,
            Self::AllTrump => TrumpMatch::YesOrAllTrump,
            Self::Suit(trump_suit) => if trump_suit == suit {
                TrumpMatch::YesOrAllTrump
            } else {
                TrumpMatch::No
            },
        }
    }

    pub fn is_trump(self, suit: Suit) -> (r: bool)
        ensures
            r == self.spec_is_trump(suit),
    {
        match self {
            Self::NoTrump => false,
            Self::AllTrump => true,
            Self::Suit(trump_suit) => trump_suit == suit,
        }
    }

    /// The one-letter code this trump choice is written as on the wire.
    pub open spec fn spec_char(self) -> char {
        match self {
            Trump::NoTrump => 'A',
            Trump::AllTrump => 'T',
            Trump::Suit(suit) => suit.spec_char(),
        }
    }

    pub fn as_char(self) -> (c: char)
        ensures
            c == self.spec_char(),
    {
        match self {
            Self::NoTrump => 'A',
            Self::AllTrump => 'T',
            Self::Suit(suit) => suit.as_char(),
        }
    }
}

} // verus!
