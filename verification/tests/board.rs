use coinche::card::{Card, Suit, Value};
use coinche::game::Board;
use coinche::trump::Trump;

fn card(value: Value, suit: Suit) -> Card {
    Card::new(value, suit)
}

#[test]
fn empty_board_has_no_winner() {
    let board = Board { starting_player_id: 2, cards: Vec::new() };
    assert_eq!(board.winning_player_id(Trump::NoTrump), None);
}

#[test]
fn no_trump_winner_by_natural_order() {
    // Seat 1 leads; Ten < King < Ace in natural order, so seat 3 wins.
    let board = Board {
        starting_player_id: 1,
        cards: vec![
            card(Value::Ten, Suit::Spades),
            card(Value::King, Suit::Spades),
            card(Value::Ace, Suit::Spades),
            card(Value::Jack, Suit::Spades),
        ],
    };
    assert_eq!(board.winning_player_id(Trump::NoTrump), Some(3));
}

#[test]
fn no_trump_ignores_other_suits() {
    // A huge heart cannot take a spade-led trick under no-trump.
    let board = Board {
        starting_player_id: 0,
        cards: vec![
            card(Value::Seven, Suit::Spades),
            card(Value::Ace, Suit::Hearts),
            card(Value::Eight, Suit::Spades),
            card(Value::Ace, Suit::Clubs),
        ],
    };
    assert_eq!(board.winning_player_id(Trump::NoTrump), Some(2));
}

#[test]
fn all_trump_winner_by_trump_order() {
    // Under all-trump the Jack tops the asked suit.
    let board = Board {
        starting_player_id: 0,
        cards: vec![
            card(Value::Ace, Suit::Hearts),
            card(Value::Jack, Suit::Hearts),
            card(Value::Nine, Suit::Hearts),
            card(Value::Ten, Suit::Hearts),
        ],
    };
    assert_eq!(board.winning_player_id(Trump::AllTrump), Some(1));
}

#[test]
fn trump_beats_asked_suit() {
    // Clubs led, hearts trump: the lone Seven of hearts takes the trick.
    let board = Board {
        starting_player_id: 3,
        cards: vec![
            card(Value::Ace, Suit::Clubs),
            card(Value::Seven, Suit::Hearts),
            card(Value::Ten, Suit::Clubs),
            card(Value::King, Suit::Clubs),
        ],
    };
    // Seat 3 led; seat (3 + 1) % 4 == 0 played the trump.
    assert_eq!(board.winning_player_id(Trump::Suit(Suit::Hearts)), Some(0));
}

#[test]
fn suit_contract_without_trumps_uses_natural_order() {
    let board = Board {
        starting_player_id: 0,
        cards: vec![
            card(Value::Jack, Suit::Spades),
            card(Value::Ten, Suit::Spades),
            card(Value::Nine, Suit::Spades),
        ],
    };
    // Hearts trump but none played: natural order on spades; Jack leads it.
    assert_eq!(board.winning_player_id(Trump::Suit(Suit::Hearts)), Some(0));
}

#[test]
fn high_trump_value_picks_trump_order_maximum() {
    let board = Board {
        starting_player_id: 0,
        cards: vec![
            card(Value::Ace, Suit::Hearts),
            card(Value::Nine, Suit::Hearts),
            card(Value::Ace, Suit::Spades),
        ],
    };
    assert_eq!(board.high_trump_value(Suit::Hearts), Some(Value::Nine));
    assert_eq!(board.high_trump_value(Suit::Spades), Some(Value::Ace));
    assert_eq!(board.high_trump_value(Suit::Clubs), None);
}

#[test]
fn suit_values_keeps_play_order() {
    let board = Board {
        starting_player_id: 0,
        cards: vec![
            card(Value::Ace, Suit::Hearts),
            card(Value::Seven, Suit::Spades),
            card(Value::Nine, Suit::Hearts),
        ],
    };
    assert_eq!(board.suit_values(Suit::Hearts), vec![Value::Ace, Value::Nine]);
}

#[test]
fn opening_card_is_always_legal() {
    let board = Board { starting_player_id: 0, cards: Vec::new() };
    let hand = vec![card(Value::Seven, Suit::Clubs)];
    assert!(board.can_play(&hand, card(Value::Seven, Suit::Clubs), Trump::NoTrump, false));
}

#[test]
fn must_follow_asked_suit() {
    let board = Board { starting_player_id: 0, cards: vec![card(Value::Ten, Suit::Spades)] };
    let hand = vec![card(Value::Seven, Suit::Spades), card(Value::Ace, Suit::Hearts)];
    assert!(board.can_play(&hand, card(Value::Seven, Suit::Spades), Trump::NoTrump, true));
    assert!(!board.can_play(&hand, card(Value::Ace, Suit::Hearts), Trump::NoTrump, true));
}

#[test]
fn asked_trump_escape_clause_allows_only_remaining_trump() {
    // Hearts are trump and asked; the Jack holds the trick. The player's
    // only heart is the Eight — lower than the Jack — so the escape clause
    // makes it legal, while any non-trump play stays illegal.
    let trump = Trump::Suit(Suit::Hearts);
    let board = Board { starting_player_id: 0, cards: vec![card(Value::Jack, Suit::Hearts)] };
    let hand = vec![
        card(Value::Eight, Suit::Hearts),
        card(Value::Ace, Suit::Clubs),
        card(Value::Ten, Suit::Spades),
    ];
    assert!(board.can_play(&hand, card(Value::Eight, Suit::Hearts), trump, true));
    assert!(!board.can_play(&hand, card(Value::Ace, Suit::Clubs), trump, true));
    assert!(!board.can_play(&hand, card(Value::Ten, Suit::Spades), trump, true));
}

#[test]
fn asked_trump_must_overtrump_when_able() {
    // Holding a trump above the board's best, a lower trump is refused.
    let trump = Trump::Suit(Suit::Hearts);
    let board = Board { starting_player_id: 0, cards: vec![card(Value::King, Suit::Hearts)] };
    let hand = vec![card(Value::Eight, Suit::Hearts), card(Value::Jack, Suit::Hearts)];
    assert!(board.can_play(&hand, card(Value::Jack, Suit::Hearts), trump, true));
    assert!(!board.can_play(&hand, card(Value::Eight, Suit::Hearts), trump, true));
}

#[test]
fn void_in_asked_suit_must_trump_opponents_trick() {
    // Spades led by seat 0 (team false); the acting player of team true is
    // void in spades and holds a heart trump: it must trump.
    let trump = Trump::Suit(Suit::Hearts);
    let board = Board { starting_player_id: 0, cards: vec![card(Value::Ace, Suit::Spades)] };
    let hand = vec![card(Value::Seven, Suit::Hearts), card(Value::Ace, Suit::Clubs)];
    assert!(board.can_play(&hand, card(Value::Seven, Suit::Hearts), trump, true));
    assert!(!board.can_play(&hand, card(Value::Ace, Suit::Clubs), trump, true));
}

#[test]
fn void_everywhere_may_discard() {
    // Void in spades and in trump: anything goes.
    let trump = Trump::Suit(Suit::Hearts);
    let board = Board { starting_player_id: 0, cards: vec![card(Value::Ace, Suit::Spades)] };
    let hand = vec![card(Value::Seven, Suit::Diamonds), card(Value::Ace, Suit::Clubs)];
    assert!(board.can_play(&hand, card(Value::Seven, Suit::Diamonds), trump, true));
    assert!(board.can_play(&hand, card(Value::Ace, Suit::Clubs), trump, true));
}

#[test]
fn partner_holding_trick_frees_the_play() {
    // Seat 0 (team false) leads and holds the trick; the acting player is
    // seat 2, same team, void in spades with a trump in hand: no forced
    // trump, discarding is legal.
    let trump = Trump::Suit(Suit::Hearts);
    let board = Board {
        starting_player_id: 0,
        cards: vec![card(Value::Ace, Suit::Spades), card(Value::Seven, Suit::Spades)],
    };
    let hand = vec![card(Value::Seven, Suit::Hearts), card(Value::Ace, Suit::Clubs)];
    assert!(board.can_play(&hand, card(Value::Ace, Suit::Clubs), trump, false));
}

#[test]
fn forced_trump_overtrump_escape_clause() {
    // Trump already on the board from the opponents; the acting player must
    // trump but all its trumps are lower: the escape clause admits them.
    let trump = Trump::Suit(Suit::Hearts);
    let board = Board {
        starting_player_id: 0,
        cards: vec![card(Value::Ace, Suit::Spades), card(Value::Jack, Suit::Hearts)],
    };
    // Seat 2 acts (team false); seat 1 holds the trick with the trump Jack.
    let hand = vec![card(Value::Eight, Suit::Hearts), card(Value::Ace, Suit::Clubs)];
    assert!(board.can_play(&hand, card(Value::Eight, Suit::Hearts), trump, false));
    assert!(!board.can_play(&hand, card(Value::Ace, Suit::Clubs), trump, false));
}
