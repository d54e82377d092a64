//! The 32-card deck: building, shuffling, drawing.
//!
//! A deck holds the 32 distinct cards (ranks Seven..Ace of four suits) as
//! bytes 0..32, where byte `b` encodes suit `b / 8` and rank `b % 8`. Its
//! invariant is that the byte sequence is a permutation of 0..32, which
//! shuffling preserves; drawing walks the sequence front to back. Dealing
//! eight cards to each of four seats therefore partitions the full deck.

use vstd::prelude::*;

use rand::seq::SliceRandom;

use crate::card::{Card, Suit, Value};

verus! {

/// A deck to shuffle and deal from.
pub struct Deck {
    count_dealt: usize,
    cards: Vec<u8>,
}

#[derive(Debug, Clone, Copy, PartialEq, Eq, Structural)]
pub enum DeckError {
    NotEnoughCards,
}

/// The suit a deck byte's high part stands for.
pub open spec fn suit_of_index(s: int) -> Suit {
    if s == 0 {
        Suit::Spades
    } else if s == 1 {
        Suit::Hearts
    } else if s == 2 {
        Suit::Diamonds
    } else {
        Suit::Clubs
    }
}

/// The rank a deck byte's low part stands for, in natural order.
pub open spec fn value_of_rank(r: int) -> Value {
    if r == 0 {
        Value::Seven
    } else if r == 1 {
        Value::Eight
    } else if r == 2 {
        Value::Nine
    } else if r == 3 {
        Value::Ten
    } else if r == 4 {
        Value::Jack
    } else if r == 5 {
        Value::Queen
    } else {
        if r == 6 {
            Value::King
        } else {
            Value::Ace
        }
    }
}

/// The card a deck byte stands for.
pub open spec fn card_of_byte(b: int) -> Card {
    Card { value: value_of_rank(b % 8), suit: suit_of_index(b / 8) }
}

/// The full deck, in byte order: each of the 32 cards exactly once.
pub open spec fn full_deck() -> Seq<Card> {
    Seq::new(32, |i: int| card_of_byte(i))
}

/// Deck bytes in unshuffled order.
pub open spec fn deck_bytes() -> Seq<u8> {
    Seq::new(32, |i: int| i as u8)
}

/// The cards a run of deck bytes stands for.
pub open spec fn cards_of_bytes(bytes: Seq<u8>) -> Seq<Card> {
    bytes.map_values(|b: u8| card_of_byte(b as int))
}

/// Four hands deal out the full deck: eight cards each, no card twice, and
/// every one of the 32 cards somewhere.
pub open spec fn deals_full_deck(h0: Seq<Card>, h1: Seq<Card>, h2: Seq<Card>, h3: Seq<Card>) -> bool {
    &&& h0.len() == 8
    &&& h1.len() == 8
    &&& h2.len() == 8
    &&& h3.len() == 8
    &&& (h0 + h1 + h2 + h3).no_duplicates()
    &&& forall|i: int| 0 <= i < 32 ==> (h0 + h1 + h2 + h3).contains(#[trigger] card_of_byte(i))
}

/// Dealing eight cards to each seat from a permutation of the deck bytes
/// yields four hands that deal out the full deck.
pub proof fn lemma_deal_partitions(bytes: Seq<u8>)
    requires
        bytes.len() == 32,
        bytes.no_duplicates(),
        forall|i: int| 0 <= i < 32 ==> bytes[i] < 32,
        forall|b: u8| b < 32 ==> bytes.contains(b),
    ensures
        deals_full_deck(
            cards_of_bytes(bytes.subrange(0, 8)),
            cards_of_bytes(bytes.subrange(8, 16)),
            cards_of_bytes(bytes.subrange(16, 24)),
            cards_of_bytes(bytes.subrange(24, 32)),
        ),
{
    let h0 = cards_of_bytes(bytes.subrange(0, 8));
    let h1 = cards_of_bytes(bytes.subrange(8, 16));
    let h2 = cards_of_bytes(bytes.subrange(16, 24));
    let h3 = cards_of_bytes(bytes.subrange(24, 32));
    let all = h0 + h1 + h2 + h3;
    assert(all =~= cards_of_bytes(bytes));
    assert forall|i: int, j: int| 0 <= i < 32 && 0 <= j < 32 && i != j implies all[i] != all[j] by {
        assert(all[i] == card_of_byte(bytes[i] as int));
        assert(all[j] == card_of_byte(bytes[j] as int));
        assert(bytes[i] != bytes[j]);
        if all[i] == all[j] {
            lemma_card_of_byte_injective(bytes[i] as int, bytes[j] as int);
        }
    }
    assert(all.no_duplicates());
    assert forall|i: int| 0 <= i < 32 implies all.contains(#[trigger] card_of_byte(i)) by {
        let b = i as u8;
        assert(bytes.contains(b));
        let k = choose|k: int| 0 <= k < bytes.len() && bytes[k] == b;
        assert(all[k] == card_of_byte(i));
    }
}

/// The four hands of a full deal are pairwise disjoint, and each is itself
/// free of duplicates.
pub proof fn lemma_deal_hands_disjoint(h0: Seq<Card>, h1: Seq<Card>, h2: Seq<Card>, h3: Seq<Card>)
    requires
        deals_full_deck(h0, h1, h2, h3),
    ensures
        h0.no_duplicates(),
        h1.no_duplicates(),
        h2.no_duplicates(),
        h3.no_duplicates(),
        forall|c: Card| !(h0.contains(c) && h1.contains(c)),
        forall|c: Card| !(h0.contains(c) && h2.contains(c)),
        forall|c: Card| !(h0.contains(c) && h3.contains(c)),
        forall|c: Card| !(h1.contains(c) && h2.contains(c)),
        forall|c: Card| !(h1.contains(c) && h3.contains(c)),
        forall|c: Card| !(h2.contains(c) && h3.contains(c)),
{
    let all = h0 + h1 + h2 + h3;
    assert forall|i: int, j: int| 0 <= i < 8 && 0 <= j < 8 && i != j implies h0[i] != h0[j] by {
        assert(all[i] == h0[i] && all[j] == h0[j]);
    }
    assert forall|i: int, j: int| 0 <= i < 8 && 0 <= j < 8 && i != j implies h1[i] != h1[j] by {
        assert(all[8 + i] == h1[i] && all[8 + j] == h1[j]);
    }
    assert forall|i: int, j: int| 0 <= i < 8 && 0 <= j < 8 && i != j implies h2[i] != h2[j] by {
        assert(all[16 + i] == h2[i] && all[16 + j] == h2[j]);
    }
    assert forall|i: int, j: int| 0 <= i < 8 && 0 <= j < 8 && i != j implies h3[i] != h3[j] by {
        assert(all[24 + i] == h3[i] && all[24 + j] == h3[j]);
    }
    assert forall|c: Card| !(#[trigger] h0.contains(c) && h1.contains(c)) by {
        if h0.contains(c) && h1.contains(c) {
            let i = choose|i: int| 0 <= i < 8 && h0[i] == c;
            let j = choose|j: int| 0 <= j < 8 && h1[j] == c;
            assert(all[i] == c && all[8 + j] == c);
        }
    }
    assert forall|c: Card| !(#[trigger] h0.contains(c) && h2.contains(c)) by {
        if h0.contains(c) && h2.contains(c) {
            let i = choose|i: int| 0 <= i < 8 && h0[i] == c;
            let j = choose|j: int| 0 <= j < 8 && h2[j] == c;
            assert(all[i] == c && all[16 + j] == c);
        }
    }
    assert forall|c: Card| !(#[trigger] h0.contains(c) && h3.contains(c)) by {
        if h0.contains(c) && h3.contains(c) {
            let i = choose|i: int| 0 <= i < 8 && h0[i] == c;
            let j = choose|j: int| 0 <= j < 8 && h3[j] == c;
            assert(all[i] == c && all[24 + j] == c);
        }
    }
    assert forall|c: Card| !(#[trigger] h1.contains(c) && h2.contains(c)) by {
        if h1.contains(c) && h2.contains(c) {
            let i = choose|i: int| 0 <= i < 8 && h1[i] == c;
            let j = choose|j: int| 0 <= j < 8 && h2[j] == c;
            assert(all[8 + i] == c && all[16 + j] == c);
        }
    }
    assert forall|c: Card| !(#[trigger] h1.contains(c) && h3.contains(c)) by {
        if h1.contains(c) && h3.contains(c) {
            let i = choose|i: int| 0 <= i < 8 && h1[i] == c;
            let j = choose|j: int| 0 <= j < 8 && h3[j] == c;
            assert(all[8 + i] == c && all[24 + j] == c);
        }
    }
    assert forall|c: Card| !(#[trigger] h2.contains(c) && h3.contains(c)) by {
        if h2.contains(c) && h3.contains(c) {
            let i = choose|i: int| 0 <= i < 8 && h2[i] == c;
            let j = choose|j: int| 0 <= j < 8 && h3[j] == c;
            assert(all[16 + i] == c && all[24 + j] == c);
        }
    }
}

/// Distinct deck bytes stand for distinct cards.
pub proof fn lemma_card_of_byte_injective(a: int, b: int)
    requires
        0 <= a < 32,
        0 <= b < 32,
        card_of_byte(a) == card_of_byte(b),
    ensures
        a == b,
{
    assert(a % 8 == b % 8 && a / 8 == b / 8);
}

/// Translates a byte between 0 and 31 to its card. Used internally by the
/// deck, and by anything that walks the full deck in byte order.
pub fn create_card_for_value(value: u8) -> (c: Card)
    requires
        value < 32,
    ensures
        c == card_of_byte(value as int),
{
    let suit = match value / 8 {
        0 => Suit::Spades,
        1 => Suit::Hearts,
        2 => Suit::Diamonds,
        _ => Suit::Clubs,
    };

    let rank = match value % 8 {
        0 => Value::Seven,
        1 => Value::Eight,
        2 => Value::Nine,
        3 => Value::Ten,
        4 => Value::Jack,
        5 => Value::Queen,
        6 => Value::King,
        _ => Value::Ace,
    };

    Card::new(rank, suit)
}

/// Relies on rand's `SliceRandom::shuffle`, which permutes the slice in
/// place (Fisher-Yates, driven by `rand::thread_rng`): the bytes after the
/// call are a rearrangement of the bytes before it, whatever order the
/// generator picks.
#[verifier::external_body]
fn shuffle_bytes(cards: &mut Vec<u8>)
    ensures
        final(cards)@.to_multiset() == old(cards)@.to_multiset(),
        final(cards)@.len() == old(cards)@.len(),
{
    cards.shuffle(&mut rand::thread_rng());
}

impl Deck {
    /// The deck's bytes are a permutation of 0..32 and the dealt count has
    /// not run past the end.
    pub closed spec fn wf(self) -> bool {
        &&& self.cards@.len() == 32
        &&& self.count_dealt <= 32
        &&& self.cards@.to_multiset() == deck_bytes().to_multiset()
    }

    /// How many cards have been dealt so far.
    pub closed spec fn spec_count_dealt(self) -> int {
        self.count_dealt as int
    }

    /// The deck's bytes, dealt and undealt alike, front to back.
    pub closed spec fn spec_cards(self) -> Seq<u8> {
        self.cards@
    }

    /// A well-formed deck's bytes are 32 distinct values below 32, and every
    /// value below 32 occurs.
    pub proof fn lemma_wf_cards(self)
        requires
            self.wf(),
        ensures
            self.spec_cards().len() == 32,
            forall|i: int| 0 <= i < 32 ==> self.spec_cards()[i] < 32,
            self.spec_cards().no_duplicates(),
            forall|b: u8| b < 32 ==> self.spec_cards().contains(b),
    {
        broadcast use vstd::seq_lib::group_to_multiset_ensures;

        let s = self.spec_cards();
        let d = deck_bytes();
        assert(d.no_duplicates());
        assert forall|i: int| 0 <= i < 32 implies s[i] < 32 by {
            assert(s.contains(s[i]));
            assert(d.to_multiset().count(s[i]) > 0);
            assert(d.contains(s[i]));
            let j = choose|j: int| 0 <= j < 32 && d[j] == s[i];
            assert(s[i] == j as u8);
        }
        d.lemma_multiset_has_no_duplicates();
        assert(forall|x: u8| s.to_multiset().contains(x) ==> s.to_multiset().count(x) == 1);
        s.lemma_multiset_has_no_duplicates_conv();
        assert forall|b: u8| b < 32 implies s.contains(b) by {
            assert(d[b as int] == b);
            assert(d.contains(b));
            assert(s.to_multiset().count(b) > 0);
        }
    }

    /// A deck where all cards are in byte order: sorted by suit, then rank.
    pub fn new_unshuffled() -> (d: Deck)
        ensures
            d.wf(),
            d.spec_count_dealt() == 0,
            d.spec_cards() == deck_bytes(),
    {
        let mut cards: Vec<u8> = Vec::new();
        let mut value: u8 = 0;
        while value < 32
            invariant
                value <= 32,
                cards@.len() == value as int,
                forall|i: int| 0 <= i < value as int ==> cards@[i] == i as u8,
            decreases 32 - value as int,
        {
            cards.push(value);
            value += 1;
        }
        assert(cards@ =~= deck_bytes());
        Deck { count_dealt: 0, cards }
    }

    /// A freshly shuffled deck of 32 cards.
    pub fn new_shuffled() -> (d: Deck)
        ensures
            d.wf(),
            d.spec_count_dealt() == 0,
    {
        let mut d = Deck::new_unshuffled();
        d.shuffle();
        d
    }

    /// Just pretend nothing was ever dealt.
    pub fn reset_unshuffled(&mut self)
        requires
            old(self).wf(),
        ensures
            final(self).wf(),
            final(self).spec_count_dealt() == 0,
            final(self).spec_cards() == old(self).spec_cards(),
    {
        self.count_dealt = 0;
    }

    /// Shuffle and start dealing over, as from a fresh shuffled deck.
    pub fn reset_shuffled(&mut self)
        requires
            old(self).wf(),
        ensures
            final(self).wf(),
            final(self).spec_count_dealt() == 0,
    {
        self.count_dealt = 0;
        self.shuffle();
    }

    fn shuffle(&mut self)
        requires
            old(self).wf(),
        ensures
            final(self).wf(),
            final(self).spec_count_dealt() == old(self).spec_count_dealt(),
    {
        shuffle_bytes(&mut self.cards);
    }

    /// An attempt to draw the next card. There might be none left.
    pub fn draw(&mut self) -> (r: Result<Card, DeckError>)
        requires
            old(self).wf(),
        ensures
            final(self).wf(),
            final(self).spec_cards() == old(self).spec_cards(),
            old(self).spec_count_dealt() < 32 ==> {
                &&& r == Ok::<Card, DeckError>(
                    card_of_byte(old(self).spec_cards()[old(self).spec_count_dealt()] as int),
                )
                &&& final(self).spec_count_dealt() == old(self).spec_count_dealt() + 1
            },
            old(self).spec_count_dealt() == 32 ==> {
                &&& r == Err::<Card, DeckError>(DeckError::NotEnoughCards)
                &&& *final(self) == *old(self)
            },
    {
        if self.count_dealt >= 32 {
            Err(DeckError::NotEnoughCards)
        } else {
            proof {
                self.lemma_wf_cards();
            }
            let value = self.cards[self.count_dealt];
            self.count_dealt += 1;
            Ok(create_card_for_value(value))
        }
    }

    /// An attempt to draw the next `n` cards. There might not be enough.
    pub fn draw_n(&mut self, n: usize) -> (r: Result<Vec<Card>, DeckError>)
        requires
            old(self).wf(),
        ensures
            final(self).wf(),
            final(self).spec_cards() == old(self).spec_cards(),
            old(self).spec_count_dealt() + n <= 32 ==> {
                &&& r is Ok
                &&& r->Ok_0@ == cards_of_bytes(
                    old(self).spec_cards().subrange(
                        old(self).spec_count_dealt(),
                        old(self).spec_count_dealt() + n,
                    ),
                )
                &&& final(self).spec_count_dealt() == old(self).spec_count_dealt() + n
            },
            old(self).spec_count_dealt() + n > 32 ==> {
                &&& r == Err::<Vec<Card>, DeckError>(DeckError::NotEnoughCards)
                &&& *final(self) == *old(self)
            },
    {
        if n > 32 - self.count_dealt {
            Err(DeckError::NotEnoughCards)
        } else {
            let mut cards: Vec<Card> = Vec::new();
            let start: usize = self.count_dealt;
            let mut i: usize = 0;
            while i < n
                invariant
                    self.wf(),
                    i <= n,
                    start + n <= 32,
                    self.spec_cards() == old(self).spec_cards(),
                    self.spec_count_dealt() == start + i,
                    cards@ == cards_of_bytes(
                        self.spec_cards().subrange(start as int, start + i),
                    ),
                decreases n - i,
            {
                let card = self.draw().unwrap();
                cards.push(card);
                i += 1;
                proof {
                    assert(cards@ =~= cards_of_bytes(
                        self.spec_cards().subrange(start as int, start + i),
                    ));
                }
            }
            Ok(cards)
        }
    }
}

} // verus!
