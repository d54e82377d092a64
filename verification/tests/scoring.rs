use coinche::bid::BidScore;
use coinche::card::{Card, Suit, Value};
use coinche::game::CoincheState;
use coinche::trump::Trump;

#[test]
fn required_points_table() {
    assert_eq!(BidScore::_80.required_points(), 80);
    assert_eq!(BidScore::_90.required_points(), 90);
    assert_eq!(BidScore::_100.required_points(), 100);
    assert_eq!(BidScore::_110.required_points(), 110);
    assert_eq!(BidScore::_120.required_points(), 120);
    assert_eq!(BidScore::_130.required_points(), 130);
    assert_eq!(BidScore::_140.required_points(), 140);
    assert_eq!(BidScore::_150.required_points(), 150);
    assert_eq!(BidScore::_160.required_points(), 160);
    assert_eq!(BidScore::_170.required_points(), 170);
    assert_eq!(BidScore::_180.required_points(), 180);
    assert_eq!(BidScore::Capot.required_points(), 250);
}

#[test]
fn ninety_made_with_95_pays_185() {
    // Contract 90, bidder raw points 95, no escalation: 90 + 95 awarded,
    // defenders nothing.
    let (taking, def) = BidScore::_90.points(95, 57, false, CoincheState::No);
    assert_eq!(taking, 185);
    assert_eq!(def, 0);
}

#[test]
fn capot_missed_pays_defenders_410() {
    // Capot contract without the sweep: bidder nothing, defenders 160 + 250.
    let (taking, def) = BidScore::Capot.points(120, 42, false, CoincheState::No);
    assert_eq!(taking, 0);
    assert_eq!(def, 410);
}

#[test]
fn capot_swept_succeeds() {
    let (taking, def) = BidScore::Capot.points(152, 0, true, CoincheState::No);
    assert_eq!(taking, 250 + 152);
    assert_eq!(def, 0);
}

#[test]
fn failed_contract_pays_160_plus_threshold() {
    let (taking, def) = BidScore::_80.points(60, 102, false, CoincheState::No);
    assert_eq!(taking, 0);
    assert_eq!(def, 240);
}

#[test]
fn coinche_doubles() {
    let (taking, def) = BidScore::_80.points(90, 72, false, CoincheState::Coinche { player_id: 1 });
    assert_eq!(taking, (80 + 90) * 2);
    assert_eq!(def, 0);
    let (taking2, def2) =
        BidScore::_80.points(70, 92, false, CoincheState::Coinche { player_id: 1 });
    assert_eq!(taking2, 0);
    assert_eq!(def2, 160 + 80 * 2);
}

#[test]
fn surcoinche_quadruples() {
    let sc = CoincheState::Surcoinche { coincher_id: 1, surcoincher_id: 0 };
    let (taking, def) = BidScore::_100.points(112, 50, false, sc);
    assert_eq!(taking, (100 + 112) * 4);
    assert_eq!(def, 0);
    let (taking2, def2) = BidScore::_100.points(99, 63, false, sc);
    assert_eq!(taking2, 0);
    assert_eq!(def2, 160 + 100 * 4);
}

#[test]
fn exact_threshold_succeeds() {
    let (taking, def) = BidScore::_80.points(80, 82, false, CoincheState::No);
    assert_eq!(taking, 160);
    assert_eq!(def, 0);
}

#[test]
fn capot_override_counts_for_the_check_only() {
    // A sweep passes the 180 check even with fewer raw points, and the
    // award uses the raw points, not the overriding 250.
    let (taking, def) = BidScore::_180.points(170, 12, true, CoincheState::No);
    assert_eq!(taking, 180 + 170);
    assert_eq!(def, 0);
}

#[test]
fn scaled_points_trump_table() {
    let trump = Trump::Suit(Suit::Hearts);
    assert_eq!(Card::new(Value::Jack, Suit::Hearts).points_scaled(trump), 20 * 248);
    assert_eq!(Card::new(Value::Nine, Suit::Hearts).points_scaled(trump), 14 * 248);
    assert_eq!(Card::new(Value::Ace, Suit::Hearts).points_scaled(trump), 11 * 248);
    assert_eq!(Card::new(Value::Ten, Suit::Hearts).points_scaled(trump), 10 * 248);
    assert_eq!(Card::new(Value::King, Suit::Hearts).points_scaled(trump), 4 * 248);
    assert_eq!(Card::new(Value::Queen, Suit::Hearts).points_scaled(trump), 3 * 248);
    assert_eq!(Card::new(Value::Eight, Suit::Hearts).points_scaled(trump), 0);
    assert_eq!(Card::new(Value::Seven, Suit::Hearts).points_scaled(trump), 0);
}

#[test]
fn scaled_points_plain_table() {
    let trump = Trump::Suit(Suit::Hearts);
    assert_eq!(Card::new(Value::Ace, Suit::Clubs).points_scaled(trump), 19 * 248);
    assert_eq!(Card::new(Value::Ten, Suit::Clubs).points_scaled(trump), 10 * 248);
    assert_eq!(Card::new(Value::King, Suit::Clubs).points_scaled(trump), 4 * 248);
    assert_eq!(Card::new(Value::Queen, Suit::Clubs).points_scaled(trump), 3 * 248);
    assert_eq!(Card::new(Value::Jack, Suit::Clubs).points_scaled(trump), 2 * 248);
    assert_eq!(Card::new(Value::Nine, Suit::Clubs).points_scaled(trump), 0);
}

#[test]
fn scaled_points_no_trump_uses_plain_table_everywhere() {
    assert_eq!(Card::new(Value::Ace, Suit::Hearts).points_scaled(Trump::NoTrump), 19 * 248);
    assert_eq!(Card::new(Value::Jack, Suit::Hearts).points_scaled(Trump::NoTrump), 2 * 248);
}

#[test]
fn scaled_points_all_trump_scales_by_152() {
    assert_eq!(Card::new(Value::Jack, Suit::Clubs).points_scaled(Trump::AllTrump), 20 * 152);
    assert_eq!(Card::new(Value::Ace, Suit::Clubs).points_scaled(Trump::AllTrump), 11 * 152);
}
