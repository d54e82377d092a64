use coinche::bid::{Bid, BidScore};
use coinche::card::Suit;
use coinche::game::{BiddingCoincheState, CoincheState, Game, GameState};
use coinche::messages::{ClientMessage, GameError, Outbound, ServerMessage};
use coinche::player::PlayerCardIdentifier;
use coinche::trump::Trump;

fn seat_four(game: &mut Game, out: &mut Vec<Outbound>) {
    for name in ["north", "east", "south", "west"] {
        game.add_player(name.to_string(), out).unwrap();
    }
}

fn current_player(game: &Game) -> usize {
    match &game.game_state {
        GameState::Running(rg) => (rg.board.starting_player_id + rg.board.cards.len()) % 4,
        _ => panic!("not in the running phase"),
    }
}

fn open_bidding_with(game: &mut Game, out: &mut Vec<Outbound>, bid: Bid) {
    game.bid(0, Some(bid), out).unwrap();
    game.bid(1, None, out).unwrap();
    game.bid(2, None, out).unwrap();
    game.bid(3, None, out).unwrap();
}

#[test]
fn four_seats_then_full() {
    let mut game = Game::new();
    let mut out: Vec<Outbound> = Vec::new();
    assert_eq!(game.add_player("north".to_string(), &mut out), Ok(0));
    assert_eq!(game.add_player("east".to_string(), &mut out), Ok(1));
    assert_eq!(game.add_player("south".to_string(), &mut out), Ok(2));
    assert_eq!(game.add_player("west".to_string(), &mut out), Ok(3));
    assert_eq!(game.add_player("fifth".to_string(), &mut out), Err(GameError::GameFull));
}

#[test]
fn rejoin_by_name_keeps_the_seat() {
    let mut game = Game::new();
    let mut out: Vec<Outbound> = Vec::new();
    seat_four(&mut game, &mut out);
    assert_eq!(game.add_player("east".to_string(), &mut out), Ok(1));
    assert_eq!(game.players.len(), 4);
    assert_eq!(game.players[1].cards.len(), 8);
}

#[test]
fn fourth_join_deals_eight_cards_each() {
    let mut game = Game::new();
    let mut out: Vec<Outbound> = Vec::new();
    seat_four(&mut game, &mut out);
    assert!(matches!(game.game_state, GameState::Bidding { .. }));
    // The dealer advanced from 2 to 3 when the first round was dealt.
    assert_eq!(game.dealer_id, 3);
    let mut codes: Vec<String> = Vec::new();
    for p in 0..4 {
        assert_eq!(game.players[p].cards.len(), 8);
        for c in &game.players[p].cards {
            codes.push(format!("{}{}", c.value.as_char(), c.suit.as_char()));
        }
    }
    // The four hands partition the 32-card deck: no duplicates, no omissions.
    assert_eq!(codes.len(), 32);
    let mut sorted = codes.clone();
    sorted.sort();
    sorted.dedup();
    assert_eq!(sorted.len(), 32);
    for value in ['7', '8', '9', 'T', 'J', 'Q', 'K', 'A'] {
        for suit in ['s', 'h', 'd', 'c'] {
            assert!(codes.contains(&format!("{}{}", value, suit)));
        }
    }
}

#[test]
fn bidding_rotates_from_dealers_left() {
    let mut game = Game::new();
    let mut out: Vec<Outbound> = Vec::new();
    seat_four(&mut game, &mut out);
    // Dealer is 3; seat 0 opens. Any other seat is rejected.
    assert_eq!(game.bid(1, None, &mut out), Err(GameError::NotYourTurn));
    assert_eq!(game.bid(0, None, &mut out), Ok(()));
    assert_eq!(game.bid(0, None, &mut out), Err(GameError::NotYourTurn));
    assert_eq!(game.bid(1, None, &mut out), Ok(()));
    assert_eq!(game.bid(2, None, &mut out), Ok(()));
    match &game.game_state {
        GameState::Bidding { bids, .. } => {
            assert_eq!(bids.len(), 3);
            for (n, pb) in bids.iter().enumerate() {
                assert_eq!(pb.player_id, (3 + 1 + n) % 4);
                assert!(pb.bid.is_none());
            }
        },
        _ => panic!("bidding should still be open"),
    }
}

#[test]
fn four_passes_redeal_without_a_record() {
    let mut game = Game::new();
    let mut out: Vec<Outbound> = Vec::new();
    seat_four(&mut game, &mut out);
    for p in 0..4 {
        game.bid(p, None, &mut out).unwrap();
    }
    // All passed: a fresh deal, dealer advanced again, nothing scored.
    assert!(matches!(game.game_state, GameState::Bidding { .. }));
    assert_eq!(game.dealer_id, 0);
    assert_eq!(game.round_points.len(), 0);
    assert_eq!(game.points, [0, 0]);
}

#[test]
fn resolved_bid_starts_play() {
    let mut game = Game::new();
    let mut out: Vec<Outbound> = Vec::new();
    seat_four(&mut game, &mut out);
    let bid = Bid { trump: Trump::Suit(Suit::Hearts), score: BidScore::_90 };
    open_bidding_with(&mut game, &mut out, bid);
    match &game.game_state {
        GameState::Running(rg) => {
            assert_eq!(rg.team, false);
            assert!(matches!(rg.coinche_state, CoincheState::No));
            assert_eq!(rg.board.starting_player_id, 0);
            assert_eq!(rg.tricks.len(), 0);
            assert!(rg.belote_player.is_none());
            assert!(matches!(rg.bid.score, BidScore::_90));
        },
        _ => panic!("a resolved bid should start play"),
    }
}

#[test]
fn coinche_only_from_the_other_team() {
    let mut game = Game::new();
    let mut out: Vec<Outbound> = Vec::new();
    seat_four(&mut game, &mut out);
    let bid = Bid { trump: Trump::AllTrump, score: BidScore::_80 };
    game.bid(0, Some(bid), &mut out).unwrap();
    // Seat 2 is seat 0's partner: its coinche is rejected.
    assert_eq!(game.coincher(2, &mut out), Err(GameError::NoBidToCoinche));
    // Seat 1 opposes: its coinche stands.
    assert_eq!(game.coincher(1, &mut out), Ok(()));
    match &game.game_state {
        GameState::Bidding { coinche_state, .. } => {
            assert!(matches!(
                coinche_state,
                BiddingCoincheState::Coinche { player_id: 1, player_skipped: None }
            ));
        },
        _ => panic!("coinche keeps bidding open"),
    }
    // No second coinche.
    assert_eq!(game.coincher(3, &mut out), Err(GameError::NotCoinchable));
}

#[test]
fn surcoinche_only_from_the_bidding_team() {
    let mut game = Game::new();
    let mut out: Vec<Outbound> = Vec::new();
    seat_four(&mut game, &mut out);
    let bid = Bid { trump: Trump::AllTrump, score: BidScore::_80 };
    game.bid(0, Some(bid), &mut out).unwrap();
    game.coincher(1, &mut out).unwrap();
    // Seat 3 did not bid: it may not answer the coinche.
    assert_eq!(game.surcoincher(3, true, &mut out), Err(GameError::NothingToSurcoinche));
    // Seat 0 accepts: the contract locks at Surcoinche and play begins.
    assert_eq!(game.surcoincher(0, true, &mut out), Ok(()));
    match &game.game_state {
        GameState::Running(rg) => {
            assert!(matches!(
                rg.coinche_state,
                CoincheState::Surcoinche { coincher_id: 1, surcoincher_id: 0 }
            ));
        },
        _ => panic!("a surcoinche starts play"),
    }
}

#[test]
fn two_declines_lock_the_contract_at_coinche() {
    let mut game = Game::new();
    let mut out: Vec<Outbound> = Vec::new();
    seat_four(&mut game, &mut out);
    let bid = Bid { trump: Trump::AllTrump, score: BidScore::_80 };
    game.bid(0, Some(bid), &mut out).unwrap();
    game.coincher(1, &mut out).unwrap();
    // First decline is remembered; bidding stays open.
    assert_eq!(game.surcoincher(0, false, &mut out), Ok(()));
    assert!(matches!(game.game_state, GameState::Bidding { .. }));
    // The second, distinct decline locks the contract at Coinche level:
    // doubled, never reaching Surcoinche.
    assert_eq!(game.surcoincher(2, false, &mut out), Ok(()));
    match &game.game_state {
        GameState::Running(rg) => {
            assert!(matches!(rg.coinche_state, CoincheState::Coinche { player_id: 1 }));
        },
        _ => panic!("the second decline starts play"),
    }
}

#[test]
fn full_round_consumes_all_32_cards() {
    let mut game = Game::new();
    let mut out: Vec<Outbound> = Vec::new();
    seat_four(&mut game, &mut out);
    let bid = Bid { trump: Trump::Suit(Suit::Hearts), score: BidScore::_80 };
    open_bidding_with(&mut game, &mut out, bid);
    let mut plays = 0;
    while matches!(game.game_state, GameState::Running(_)) && plays < 64 {
        let p = current_player(&game);
        // What the legality checker says of each card in the acting hand.
        let flags: Vec<bool> = match &game.game_state {
            GameState::Running(rg) => {
                let hand = &game.players[p].cards;
                let team = p % 2 != 0;
                hand.iter()
                    .map(|c| rg.board.can_play(hand, *c, rg.bid.trump, team))
                    .collect()
            },
            _ => panic!("not in the running phase"),
        };
        // play_card accepts exactly the cards can_play accepts.
        let mut played = false;
        for (k, legal) in flags.iter().enumerate() {
            let r = game.play_card(p, PlayerCardIdentifier::CardPos(k), &mut out);
            if *legal {
                assert_eq!(r, Ok(()));
                played = true;
                break;
            } else {
                assert_eq!(r, Err(GameError::IllegalCard));
            }
        }
        assert!(played, "the rules must always leave some legal card");
        plays += 1;
    }
    // Exactly 32 accepted plays emptied every hand and settled the round.
    assert_eq!(plays, 32);
    assert_eq!(game.round_points.len(), 1);
    // The next round was dealt at once: four fresh hands of eight.
    assert!(matches!(game.game_state, GameState::Bidding { .. }));
    for p in 0..4 {
        assert_eq!(game.players[p].cards.len(), 8);
    }
    // The settlement satisfies the payout formula exactly.
    let rp = &game.round_points[0];
    let t = if rp.team { 1 } else { 0 };
    let d = 1 - t;
    let threshold = rp.bid.score.required_points();
    let raw = rp.scored_points[t];
    let success = if rp.capot { 250 >= threshold } else { raw >= threshold };
    if success {
        assert_eq!(rp.points[t], threshold + raw);
        assert_eq!(rp.points[d], 0);
    } else {
        assert_eq!(rp.points[t], 0);
        assert_eq!(rp.points[d], 160 + threshold);
    }
    assert_eq!(game.points[0], rp.points[0]);
    assert_eq!(game.points[1], rp.points[1]);
}

#[test]
fn handle_msg_requires_init_first() {
    let mut game = Game::new();
    let mut out: Vec<Outbound> = Vec::new();
    assert_eq!(
        game.handle_msg(None, ClientMessage::RefreshGameState, &mut out),
        Err(GameError::NotInitialized)
    );
    let r = game.handle_msg(
        None,
        ClientMessage::Init { username: "north".to_string() },
        &mut out,
    );
    assert_eq!(r, Ok(Some(0)));
    assert_eq!(
        game.handle_msg(
            Some(0),
            ClientMessage::Init { username: "again".to_string() },
            &mut out,
        ),
        Err(GameError::AlreadyInitialized)
    );
    assert_eq!(game.handle_msg(Some(0), ClientMessage::RefreshGameState, &mut out), Ok(None));
}

#[test]
fn handle_msg_routes_game_actions() {
    let mut game = Game::new();
    let mut out: Vec<Outbound> = Vec::new();
    for name in ["north", "east", "south", "west"] {
        game.handle_msg(None, ClientMessage::Init { username: name.to_string() }, &mut out)
            .unwrap();
    }
    assert_eq!(
        game.handle_msg(Some(0), ClientMessage::Coinche, &mut out),
        Err(GameError::NoBidToCoinche)
    );
    let bid = Bid { trump: Trump::NoTrump, score: BidScore::_100 };
    assert_eq!(game.handle_msg(Some(0), ClientMessage::Bid(Some(bid)), &mut out), Ok(None));
    assert_eq!(
        game.handle_msg(Some(2), ClientMessage::SurCoinche(true), &mut out),
        Err(GameError::NotSurcoinchable)
    );
}

#[test]
fn wrong_phase_actions_are_rejected() {
    let mut game = Game::new();
    let mut out: Vec<Outbound> = Vec::new();
    let mut short = Game::new();
    short.add_player("solo".to_string(), &mut out).unwrap();
    assert_eq!(
        short.play_card(0, PlayerCardIdentifier::CardPos(0), &mut out),
        Err(GameError::NotInRunningPhase)
    );
    assert_eq!(short.bid(0, None, &mut out), Err(GameError::NotInBiddingPhase));
    assert_eq!(short.coincher(0, &mut out), Err(GameError::NotInBiddingPhase));
    assert_eq!(short.surcoincher(0, true, &mut out), Err(GameError::NotInBiddingPhase));
    seat_four(&mut game, &mut out);
    let bid = Bid { trump: Trump::AllTrump, score: BidScore::_80 };
    open_bidding_with(&mut game, &mut out, bid);
    // Bidding actions are over once play began.
    assert_eq!(game.bid(0, None, &mut out), Err(GameError::NotInBiddingPhase));
}
#[test]
fn bid_is_rejected_once_coinched() {
    let mut game = Game::new();
    let mut out: Vec<Outbound> = Vec::new();
    seat_four(&mut game, &mut out);
    let bid = Bid { trump: Trump::AllTrump, score: BidScore::_80 };
    game.bid(0, Some(bid), &mut out).unwrap();
    game.coincher(1, &mut out).unwrap();
    assert_eq!(game.bid(1, None, &mut out), Err(GameError::AlreadyCoinched));
}

#[test]
fn unheld_card_is_rejected() {
    let mut game = Game::new();
    let mut out: Vec<Outbound> = Vec::new();
    seat_four(&mut game, &mut out);
    let bid = Bid { trump: Trump::Suit(Suit::Hearts), score: BidScore::_80 };
    open_bidding_with(&mut game, &mut out, bid);
    let p = current_player(&game);
    // A position past the hand is rejected without touching the match.
    assert_eq!(
        game.play_card(p, PlayerCardIdentifier::CardPos(8), &mut out),
        Err(GameError::InvalidCard)
    );
    // So is a card the player does not hold.
    let mut missing = None;
    for b in 0..32u8 {
        let c = coinche::deck::create_card_for_value(b);
        if !game.players[p].cards.contains(&c) {
            missing = Some(c);
            break;
        }
    }
    assert_eq!(
        game.play_card(p, PlayerCardIdentifier::Card(missing.unwrap()), &mut out),
        Err(GameError::InvalidCard)
    );
    // And a seat out of turn is turned away first.
    let q = (p + 1) % 4;
    assert_eq!(
        game.play_card(q, PlayerCardIdentifier::CardPos(0), &mut out),
        Err(GameError::NotYourTurn)
    );
}

#[test]
fn a_bid_is_announced_to_every_seat() {
    let mut game = Game::new();
    let mut out: Vec<Outbound> = Vec::new();
    seat_four(&mut game, &mut out);
    out.clear();
    let bid = Bid { trump: Trump::NoTrump, score: BidScore::_110 };
    game.bid(0, Some(bid), &mut out).unwrap();
    assert_eq!(out.len(), 4);
    for (seat, notification) in out.iter().enumerate() {
        assert_eq!(notification.to, seat);
        match notification.msg {
            ServerMessage::PlayerBid(pb) => {
                assert_eq!(pb.player_id, 0);
                assert!(matches!(pb.bid, Some(b) if matches!(b.score, BidScore::_110)));
            },
            _ => panic!("expected the bid announcement"),
        }
    }
    // A rejected action queues nothing.
    out.clear();
    assert_eq!(game.bid(0, None, &mut out), Err(GameError::NotYourTurn));
    assert_eq!(out.len(), 0);
}

#[test]
fn error_messages_name_the_rule() {
    assert_eq!(GameError::GameFull.message(), "Game is full");
    assert_eq!(GameError::NotYourTurn.message(), "Not your turn");
    assert_eq!(GameError::NotInBiddingPhase.message(), "Not in bidding phase");
    assert_eq!(GameError::AlreadyCoinched.message(), "Already coinch-ed");
    assert_eq!(GameError::NotInitialized.message(), "Client not initialized");
    assert_eq!(GameError::AlreadyInitialized.message(), "Already initialized");
    assert_eq!(GameError::NotInRunningPhase.message(), "Games not in running state");
    assert_eq!(GameError::InvalidCard.message(), "Invalid card pos");
}
