//! A seated player: identity and owned hand.
//!
//! Delivery of notifications to a player's connection is the transport
//! layer's business; the library only names seats, and the transport keeps
//! one delivery handle per seat.

use vstd::prelude::*;

use crate::card::Card;
use crate::game::team_of;

verus! {

#[derive(Debug)]
pub struct Player {
    pub username: String,
    pub cards: Vec<Card>,
}

/// How a client names the card it wants to play: by position in its hand or
/// by the card itself.
#[derive(Debug, Clone, Copy)]
pub enum PlayerCardIdentifier {
    CardPos(usize),
    Card(Card),
}

impl Player {
    pub fn new(username: String) -> (p: Player)
        ensures
            p.username == username,
            p.cards@ == Seq::<Card>::empty(),
    {
        Player { username, cards: Vec::new() }
    }

    /// The team of a seat.
    pub fn team(player_id: usize) -> (t: bool)
        ensures
            t == team_of(player_id as int),
    {
        player_id % 2 != 0
    }

    /// What `find_card` returns: the named position and the card there, or
    /// the first position holding the named card; `None` when out of range
    /// or not held.
    pub open spec fn spec_find_card(
        hand: Seq<Card>,
        card_identifier: PlayerCardIdentifier,
    ) -> Option<(int, Card)> {
        match card_identifier {
            PlayerCardIdentifier::CardPos(pos) => if pos < hand.len() {
                Some((pos as int, hand[pos as int]))
            } else {
                None
            },
            PlayerCardIdentifier::Card(card) => if hand.contains(card) {
                Some((first_position(hand, card), card))
            } else {
                None
            },
        }
    }

    pub fn find_card(&self, card_identifier: PlayerCardIdentifier) -> (r: Option<(usize, Card)>)
        ensures
            match r {
                Some((pos, card)) => {
                    &&& Self::spec_find_card(self.cards@, card_identifier) == Some(
                        (pos as int, card),
                    )
                    &&& pos < self.cards@.len()
                    &&& self.cards@[pos as int] == card
                },
                None => Self::spec_find_card(self.cards@, card_identifier) is None,
            },
    {
        match card_identifier {
            PlayerCardIdentifier::CardPos(pos) => {
                if pos < self.cards.len() {
                    Some((pos, self.cards[pos]))
                } else {
                    None
                }
            },
            PlayerCardIdentifier::Card(card) => {
                let n = self.cards.len();
                let mut i: usize = 0;
                while i < n
                    invariant
                        card_identifier == PlayerCardIdentifier::Card(card),
                        n == self.cards@.len(),
                        i <= n,
                        forall|j: int| 0 <= j < i ==> self.cards@[j] != card,
                    decreases n - i,
                {
                    if self.cards[i] == card {
                        proof {
                            lemma_first_position(self.cards@, card, i as int);
                        }
                        return Some((i, card));
                    }
                    i += 1;
                }
                proof {
                    assert(!self.cards@.contains(card));
                }
                None
            },
        }
    }
}

/// The first position of `card` in `hand`.
pub open spec fn first_position(hand: Seq<Card>, card: Card) -> int
    decreases hand.len(),
{
    if hand.len() == 0 {
        0
    } else if hand[0] == card {
        0
    } else {
        1 + first_position(hand.drop_first(), card)
    }
}

/// At a position holding `card` with none before it, `first_position` is
/// that position.
proof fn lemma_first_position(hand: Seq<Card>, card: Card, i: int)
    requires
        0 <= i < hand.len(),
        hand[i] == card,
        forall|j: int| 0 <= j < i ==> hand[j] != card,
    ensures
        first_position(hand, card) == i,
        hand.contains(card),
    decreases i,
{
    if i == 0 {
    } else {
        lemma_first_position(hand.drop_first(), card, i - 1);
    }
}

} // verus!
