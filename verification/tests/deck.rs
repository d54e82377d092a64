use coinche::card::{Card, Suit, Value};
use coinche::deck::{create_card_for_value, Deck, DeckError};

#[test]
fn byte_to_card_mapping() {
    assert_eq!(create_card_for_value(0), Card::new(Value::Seven, Suit::Spades));
    assert_eq!(create_card_for_value(7), Card::new(Value::Ace, Suit::Spades));
    assert_eq!(create_card_for_value(8), Card::new(Value::Seven, Suit::Hearts));
    assert_eq!(create_card_for_value(12), Card::new(Value::Jack, Suit::Hearts));
    assert_eq!(create_card_for_value(16), Card::new(Value::Seven, Suit::Diamonds));
    assert_eq!(create_card_for_value(31), Card::new(Value::Ace, Suit::Clubs));
}

#[test]
fn unshuffled_deck_draws_in_byte_order() {
    let mut d = Deck::new_unshuffled();
    assert_eq!(d.draw(), Ok(Card::new(Value::Seven, Suit::Spades)));
    assert_eq!(d.draw(), Ok(Card::new(Value::Eight, Suit::Spades)));
    let rest = d.draw_n(6).unwrap();
    assert_eq!(rest.len(), 6);
    assert_eq!(rest[5], Card::new(Value::Ace, Suit::Spades));
    assert_eq!(d.draw(), Ok(Card::new(Value::Seven, Suit::Hearts)));
}

#[test]
fn deck_runs_out_after_32() {
    let mut d = Deck::new_unshuffled();
    for _ in 0..32 {
        assert!(d.draw().is_ok());
    }
    assert_eq!(d.draw(), Err(DeckError::NotEnoughCards));
}

#[test]
fn draw_n_rejects_overdraw() {
    let mut d = Deck::new_unshuffled();
    assert!(d.draw_n(33).is_err());
    assert!(d.draw_n(32).is_ok());
    assert!(d.draw_n(1).is_err());
    assert!(d.draw_n(0).is_ok());
}

#[test]
fn reset_unshuffled_deals_again() {
    let mut d = Deck::new_unshuffled();
    let first = d.draw().unwrap();
    d.reset_unshuffled();
    assert_eq!(d.draw(), Ok(first));
}

#[test]
fn shuffled_deck_is_a_permutation() {
    let mut d = Deck::new_shuffled();
    let cards = d.draw_n(32).unwrap();
    assert_eq!(cards.len(), 32);
    let mut codes: Vec<String> = cards
        .iter()
        .map(|c| format!("{}{}", c.value.as_char(), c.suit.as_char()))
        .collect();
    codes.sort();
    codes.dedup();
    assert_eq!(codes.len(), 32, "a shuffled deck must hold 32 distinct cards");
    for b in 0..32u8 {
        let c = create_card_for_value(b);
        assert!(
            cards.contains(&c),
            "card {}{} missing from the shuffled deck",
            c.value.as_char(),
            c.suit.as_char()
        );
    }
}

#[test]
fn reset_shuffled_restores_32_cards() {
    let mut d = Deck::new_shuffled();
    let _ = d.draw_n(20).unwrap();
    d.reset_shuffled();
    assert_eq!(d.draw_n(32).unwrap().len(), 32);
}
