use coinche::card::{Card, Suit, Value};
use coinche::trump::{Trump, TrumpMatch};
use std::cmp::Ordering;

#[test]
fn suit_chars() {
    assert_eq!(Suit::Spades.as_char(), 's');
    assert_eq!(Suit::Hearts.as_char(), 'h');
    assert_eq!(Suit::Diamonds.as_char(), 'd');
    assert_eq!(Suit::Clubs.as_char(), 'c');
}

#[test]
fn suit_from_char_round_trip() {
    for s in [Suit::Spades, Suit::Hearts, Suit::Diamonds, Suit::Clubs] {
        assert_eq!(Suit::from_char(s.as_char()), Some(s));
    }
    assert_eq!(Suit::from_char('x'), None);
    assert_eq!(Suit::from_char('S'), None);
}

#[test]
fn value_chars() {
    assert_eq!(Value::Seven.as_char(), '7');
    assert_eq!(Value::Eight.as_char(), '8');
    assert_eq!(Value::Nine.as_char(), '9');
    assert_eq!(Value::Ten.as_char(), 'T');
    assert_eq!(Value::Jack.as_char(), 'J');
    assert_eq!(Value::Queen.as_char(), 'Q');
    assert_eq!(Value::King.as_char(), 'K');
    assert_eq!(Value::Ace.as_char(), 'A');
}

#[test]
fn trump_order_jack_then_nine_on_top() {
    assert_eq!(Value::Jack.cmp_trump(&Value::Nine), Ordering::Greater);
    assert_eq!(Value::Nine.cmp_trump(&Value::Ace), Ordering::Greater);
    assert_eq!(Value::Ace.cmp_trump(&Value::King), Ordering::Greater);
    assert_eq!(Value::King.cmp_trump(&Value::Queen), Ordering::Greater);
    assert_eq!(Value::Queen.cmp_trump(&Value::Ten), Ordering::Greater);
    assert_eq!(Value::Ten.cmp_trump(&Value::Eight), Ordering::Greater);
    assert_eq!(Value::Eight.cmp_trump(&Value::Seven), Ordering::Greater);
    assert_eq!(Value::Seven.cmp_trump(&Value::Jack), Ordering::Less);
    assert_eq!(Value::Queen.cmp_trump(&Value::Queen), Ordering::Equal);
}

#[test]
fn card_new_carries_fields() {
    let c = Card::new(Value::Ace, Suit::Hearts);
    assert_eq!(c.value, Value::Ace);
    assert_eq!(c.suit, Suit::Hearts);
    assert_eq!(c, Card { value: Value::Ace, suit: Suit::Hearts });
}

#[test]
fn trump_is_trump() {
    assert!(!Trump::NoTrump.is_trump(Suit::Spades));
    assert!(Trump::AllTrump.is_trump(Suit::Spades));
    assert!(Trump::Suit(Suit::Hearts).is_trump(Suit::Hearts));
    assert!(!Trump::Suit(Suit::Hearts).is_trump(Suit::Clubs));
}

#[test]
fn trump_matches_classifies() {
    assert!(matches!(Trump::NoTrump.matches(Suit::Spades), TrumpMatch::NoTrump));
    assert!(matches!(Trump::AllTrump.matches(Suit::Clubs), TrumpMatch::YesOrAllTrump));
    assert!(matches!(
        Trump::Suit(Suit::Diamonds).matches(Suit::Diamonds),
        TrumpMatch::YesOrAllTrump
    ));
    assert!(matches!(Trump::Suit(Suit::Diamonds).matches(Suit::Spades), TrumpMatch::No));
}

#[test]
fn trump_chars() {
    assert_eq!(Trump::NoTrump.as_char(), 'A');
    assert_eq!(Trump::AllTrump.as_char(), 'T');
    assert_eq!(Trump::Suit(Suit::Clubs).as_char(), 'c');
}
