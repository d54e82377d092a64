//! Player actions: bidding, escalation and card play.
//!
//! Each action validates the acting seat against the match state without
//! side effects, then either rejects with a `GameError` (the match and the
//! outbound queue untouched) or applies its state change and queues its
//! notifications. Each action's full behaviour is one `*_outcome` predicate.

use vstd::prelude::*;

use crate::bid::{Bid, PlayerBid};
use crate::card::{Card, Value};
use crate::game::{
    belote_step, best_card_index, board_played, hand_contains, last_actual_bid,
    lemma_board_played_push, lemma_full_board_all_played, lemma_turn_not_played,
    new_bidding_round, resolving_entry, seat_at, settled_round, starts_running, team_of,
    BeloteRebelote, BiddingCoincheState, Game, GameState, RunningGame, Trick,
};
use crate::messages::{
    broadcast_msgs, game_state_all_msgs, refresh_all_msgs, GameError, Outbound, ServerMessage,
};
use crate::player::{Player, PlayerCardIdentifier};
use crate::trump::Trump;

verus! {

/// What a bid or pass by `player_id` does. In the bidding phase with no
/// escalation, the seat on turn appends its entry and every seat hears of
/// it; should that leave three passes after at least four entries, bidding
/// resolves: to a fresh deal when the resolved entry is a pass, to play
/// under the resolved bid otherwise. A seat out of turn, a bid after a
/// coinche, and a bid outside the bidding phase are rejected.
pub open spec fn bid_outcome(
    pre: Game,
    post: Game,
    player_id: usize,
    b: Option<Bid>,
    r: Result<(), GameError>,
    pre_out: Seq<Outbound>,
    post_out: Seq<Outbound>,
) -> bool {
    match pre.game_state {
        GameState::Bidding { bids, coinche_state } => match coinche_state {
            BiddingCoincheState::No => if player_id as int == (pre.dealer_id + 1 + bids@.len())
                % 4 {
                let pb = PlayerBid { player_id, bid: b };
                let new_bids = bids@.push(pb);
                let announced = pre_out + broadcast_msgs(ServerMessage::PlayerBid(pb), 4);
                &&& r is Ok
                &&& match resolving_entry(new_bids, BiddingCoincheState::No) {
                    None => {
                        &&& post.players == pre.players
                        &&& post.points == pre.points
                        &&& post.round_points == pre.round_points
                        &&& post.dealer_id == pre.dealer_id
                        &&& (post.game_state matches GameState::Bidding {
                            bids: b2,
                            coinche_state: cs2,
                        } && b2@ == new_bids && cs2 is No)
                        &&& post_out == announced
                    },
                    Some(resolved) => match resolved.bid {
                        None => {
                            &&& new_bidding_round(pre, post)
                            &&& post_out == announced + refresh_all_msgs(post, 4)
                        },
                        Some(contract) => {
                            &&& starts_running(
                                pre,
                                post,
                                resolved,
                                contract,
                                BiddingCoincheState::No,
                            )
                            &&& post_out == announced + game_state_all_msgs(4)
                        },
                    },
                }
            } else {
                &&& r == Err::<(), GameError>(GameError::NotYourTurn)
                &&& post == pre
                &&& post_out == pre_out
            },
            _ => {
                &&& r == Err::<(), GameError>(GameError::AlreadyCoinched)
                &&& post == pre
                &&& post_out == pre_out
            },
        },
        _ => {
            &&& r == Err::<(), GameError>(GameError::NotInBiddingPhase)
            &&& post == pre
            &&& post_out == pre_out
        },
    }
}

/// What a coinche by `player_id` does: with bidding open, no escalation yet,
/// and a most recent actual bid from the other team, escalation moves to
/// Coinche and every seat hears of it; otherwise the attempt is rejected —
/// in particular a coinche of one's own team's bid.
pub open spec fn coinche_outcome(
    pre: Game,
    post: Game,
    player_id: usize,
    r: Result<(), GameError>,
    pre_out: Seq<Outbound>,
    post_out: Seq<Outbound>,
) -> bool {
    match pre.game_state {
        GameState::Bidding { bids, coinche_state } => match coinche_state {
            BiddingCoincheState::No => match last_actual_bid(bids@) {
                Some(pb) => if team_of(player_id as int) != team_of(pb.player_id as int) {
                    &&& r is Ok
                    &&& post.players == pre.players
                    &&& post.points == pre.points
                    &&& post.round_points == pre.round_points
                    &&& post.dealer_id == pre.dealer_id
                    &&& (post.game_state matches GameState::Bidding {
                        bids: b2,
                        coinche_state: cs2,
                    } && b2@ == bids@ && cs2 == (BiddingCoincheState::Coinche {
                        player_id,
                        player_skipped: None,
                    }))
                    &&& post_out == pre_out + broadcast_msgs(
                        ServerMessage::Coinche { player_id },
                        4,
                    )
                } else {
                    &&& r == Err::<(), GameError>(GameError::NoBidToCoinche)
                    &&& post == pre
                    &&& post_out == pre_out
                },
                None => {
                    &&& r == Err::<(), GameError>(GameError::NoBidToCoinche)
                    &&& post == pre
                    &&& post_out == pre_out
                },
            },
            _ => {
                &&& r == Err::<(), GameError>(GameError::NotCoinchable)
                &&& post == pre
                &&& post_out == pre_out
            },
        },
        _ => {
            &&& r == Err::<(), GameError>(GameError::NotInBiddingPhase)
            &&& post == pre
            &&& post_out == pre_out
        },
    }
}

/// What a surcoinche answer by `player_id` does. Only a member of the team
/// that placed the most recent actual bid may answer, and only while a
/// coinche is pending. Accepting locks the contract at Surcoinche, announces
/// it, and play begins. Declining is remembered; once two distinct members
/// have declined, the contract locks at Coinche level and play begins.
pub open spec fn surcoinche_outcome(
    pre: Game,
    post: Game,
    player_id: usize,
    do_surcoinche: bool,
    r: Result<(), GameError>,
    pre_out: Seq<Outbound>,
    post_out: Seq<Outbound>,
) -> bool {
    match pre.game_state {
        GameState::Bidding { bids, coinche_state } => match last_actual_bid(bids@) {
            Some(pb) => if team_of(player_id as int) == team_of(pb.player_id as int) {
                match coinche_state {
                    BiddingCoincheState::Coinche { player_id: coincher, player_skipped } => {
                        if do_surcoinche {
                            let cs2 = BiddingCoincheState::Surcoinche {
                                coincher_id: coincher,
                                surcoincher_id: player_id,
                            };
                            &&& r is Ok
                            &&& (pb.bid matches Some(contract) && starts_running(
                                pre,
                                post,
                                pb,
                                contract,
                                cs2,
                            ))
                            &&& post_out == pre_out + broadcast_msgs(
                                ServerMessage::SurCoinche { player_id },
                                4,
                            ) + game_state_all_msgs(4)
                        } else if player_skipped is Some && player_skipped != Some(player_id) {
                            &&& r is Ok
                            &&& (pb.bid matches Some(contract) && starts_running(
                                pre,
                                post,
                                pb,
                                contract,
                                coinche_state,
                            ))
                            &&& post_out == pre_out + game_state_all_msgs(4)
                        } else {
                            &&& r is Ok
                            &&& post.players == pre.players
                            &&& post.points == pre.points
                            &&& post.round_points == pre.round_points
                            &&& post.dealer_id == pre.dealer_id
                            &&& (post.game_state matches GameState::Bidding {
                                bids: b2,
                                coinche_state: cs2,
                            } && b2@ == bids@ && cs2 == (BiddingCoincheState::Coinche {
                                player_id: coincher,
                                player_skipped: Some(player_id),
                            }))
                            &&& post_out == pre_out
                        }
                    },
                    _ => {
                        &&& r == Err::<(), GameError>(GameError::NotSurcoinchable)
                        &&& post == pre
                        &&& post_out == pre_out
                    },
                }
            } else {
                &&& r == Err::<(), GameError>(GameError::NothingToSurcoinche)
                &&& post == pre
                &&& post_out == pre_out
            },
            None => {
                &&& r == Err::<(), GameError>(GameError::NothingToSurcoinche)
                &&& post == pre
                &&& post_out == pre_out
            },
        },
        _ => {
            &&& r == Err::<(), GameError>(GameError::NotInBiddingPhase)
            &&& post == pre
            &&& post_out == pre_out
        },
    }
}

impl Game {
    /// Submits a bid or pass (`None`) for seat `player_id`.
    pub fn bid(
        &mut self,
        player_id: usize,
        bid: Option<Bid>,
        out: &mut Vec<Outbound>,
    ) -> (r: Result<(), GameError>)
        requires
            old(self).wf(),
            player_id < old(self).players@.len(),
        ensures
            final(self).wf(),
            bid_outcome(
                *old(self),
                *final(self),
                player_id,
                bid,
                r,
                old(out)@,
                final(out)@,
            ),
    {
        let dealer_id = self.dealer_id;
        let verdict: Result<bool, GameError> = match &mut self.game_state {
            GameState::Bidding { bids, coinche_state } => match coinche_state {
                BiddingCoincheState::No => {
                    let n = bids.len();
                    let curr = if n == 0 {
                        (dealer_id + 1) % 4
                    } else {
                        (bids[n - 1].player_id + 1) % 4
                    };
                    if player_id == curr {
                        let pb = PlayerBid { player_id, bid };
                        bids.push(pb);
                        let can_start = n >= 3 && bids[n].bid.is_none() && bids[n
                            - 1].bid.is_none() && bids[n - 2].bid.is_none();
                        Ok(can_start)
                    } else {
                        Err(GameError::NotYourTurn)
                    }
                },
                _ => Err(GameError::AlreadyCoinched),
            },
            _ => Err(GameError::NotInBiddingPhase),
        };
        match verdict {
            Err(e) => Err(e),
            Ok(can_start) => {
                let pb = PlayerBid { player_id, bid };
                proof {
                    assert forall|p: int| 0 <= p < 4 implies (#[trigger] self.hand(p)).len()
                        == 8 by {
                        assert(self.hand(p) == old(self).hand(p));
                    }
                    let b2 = self.spec_bids();
                    let b1 = old(self).spec_bids();
                    assert(b2 == b1.push(pb));
                    assert forall|m: int| 0 <= m < b2.len() implies (#[trigger] b2[m]).player_id
                        as int == (self.dealer_id + 1 + m) % 4 by {
                        if m < b2.len() - 1 {
                            assert(b2[m] == b1[m]);
                        }
                    }
                    assert(self.wf());
                }
                self.send_all(ServerMessage::PlayerBid(pb), out);
                if can_start {
                    self.try_playing_phase(out);
                }
                Ok(())
            },
        }
    }

    /// Declares a coinche for seat `player_id`, doubling the most recent
    /// opposing bid.
    pub fn coincher(&mut self, player_id: usize, out: &mut Vec<Outbound>) -> (r: Result<
        (),
        GameError,
    >)
        requires
            old(self).wf(),
            player_id < old(self).players@.len(),
        ensures
            final(self).wf(),
            coinche_outcome(*old(self), *final(self), player_id, r, old(out)@, final(out)@),
    {
        let team = Player::team(player_id);
        let verdict: Result<(), GameError> = match &mut self.game_state {
            GameState::Bidding { bids, coinche_state } => match coinche_state {
                BiddingCoincheState::No => {
                    match crate::game::find_last_actual_bid(bids) {
                        Some(last_bid) => {
                            if team != Player::team(last_bid.player_id) {
                                *coinche_state = BiddingCoincheState::Coinche {
                                    player_id,
                                    player_skipped: None,
                                };
                                Ok(())
                            } else {
                                Err(GameError::NoBidToCoinche)
                            }
                        },
                        None => Err(GameError::NoBidToCoinche),
                    }
                },
                _ => Err(GameError::NotCoinchable),
            },
            _ => Err(GameError::NotInBiddingPhase),
        };
        match verdict {
            Err(e) => Err(e),
            Ok(()) => {
                proof {
                    assert forall|p: int| 0 <= p < 4 implies (#[trigger] self.hand(p)).len()
                        == 8 by {
                        assert(self.hand(p) == old(self).hand(p));
                    }
                    assert(self.spec_bids() == old(self).spec_bids());
                    assert(self.wf());
                }
                self.send_all(ServerMessage::Coinche { player_id }, out);
                Ok(())
            },
        }
    }

    /// Answers a pending coinche for seat `player_id`: surcoinche, or
    /// decline.
    pub fn surcoincher(
        &mut self,
        player_id: usize,
        do_surcoinche: bool,
        out: &mut Vec<Outbound>,
    ) -> (r: Result<(), GameError>)
        requires
            old(self).wf(),
            player_id < old(self).players@.len(),
        ensures
            final(self).wf(),
            surcoinche_outcome(
                *old(self),
                *final(self),
                player_id,
                do_surcoinche,
                r,
                old(out)@,
                final(out)@,
            ),
    {
        let team = Player::team(player_id);
        // Ok(Some(true)): locked at Surcoinche; Ok(Some(false)): second
        // decline, locked at Coinche; Ok(None): first decline recorded.
        let verdict: Result<Option<bool>, GameError> = match &mut self.game_state {
            GameState::Bidding { bids, coinche_state } => {
                match crate::game::find_last_actual_bid(bids) {
                    Some(last_bid) => {
                        if team == Player::team(last_bid.player_id) {
                            match coinche_state {
                                BiddingCoincheState::Coinche { player_id: coincher, player_skipped } => {
                                    if do_surcoinche {
                                        *coinche_state = BiddingCoincheState::Surcoinche {
                                            coincher_id: *coincher,
                                            surcoincher_id: player_id,
                                        };
                                        Ok(Some(true))
                                    } else {
                                        let second = match player_skipped {
                                            Some(s) => *s != player_id,
                                            None => false,
                                        };
                                        if second {
                                            Ok(Some(false))
                                        } else {
                                            *coinche_state = BiddingCoincheState::Coinche {
                                                player_id: *coincher,
                                                player_skipped: Some(player_id),
                                            };
                                            Ok(None)
                                        }
                                    }
                                },
                                _ => Err(GameError::NotSurcoinchable),
                            }
                        } else {
                            Err(GameError::NothingToSurcoinche)
                        }
                    },
                    None => Err(GameError::NothingToSurcoinche),
                }
            },
            _ => Err(GameError::NotInBiddingPhase),
        };
        match verdict {
            Err(e) => Err(e),
            Ok(outcome) => {
                proof {
                    assert forall|p: int| 0 <= p < 4 implies (#[trigger] self.hand(p)).len()
                        == 8 by {
                        assert(self.hand(p) == old(self).hand(p));
                    }
                    assert(self.spec_bids() == old(self).spec_bids());
                    crate::game::lemma_last_actual_bid_is_bid(self.spec_bids());
                    assert(self.wf());
                }
                match outcome {
                    Some(true) => {
                        self.send_all(ServerMessage::SurCoinche { player_id }, out);
                        self.try_playing_phase(out);
                    },
                    Some(false) => {
                        self.try_playing_phase(out);
                    },
                    None => {},
                }
                Ok(())
            },
        }
    }
}


/// How seats' hands relate after seat `player_id` played the card at `pos`:
/// that hand lost exactly that card, every other hand and every username is
/// untouched.
pub open spec fn hands_after_play(pre: Game, post: Game, player_id: usize, pos: int) -> bool {
    &&& post.players@.len() == 4
    &&& (forall|p: int| 0 <= p < 4 ==> (#[trigger] post.players@[p]).username
        == pre.players@[p].username)
    &&& (forall|p: int| 0 <= p < 4 && p != player_id as int ==> (#[trigger] post.players@[p]).cards
        == pre.players@[p].cards)
    &&& post.hand(player_id as int) == pre.hand(player_id as int).remove(pos)
}

/// What a legal play of `card`, taken from position `pos` of the acting
/// hand, does to running state `rg`: the card moves from the hand to the
/// board and is announced with any belote flag; a fourth card closes the
/// trick, archives it under its winner, who leads the next, and is
/// announced; the eighth closed trick settles the round.
pub open spec fn card_played(
    pre: Game,
    rg: RunningGame,
    post: Game,
    player_id: usize,
    pos: int,
    card: Card,
    pre_out: Seq<Outbound>,
    post_out: Seq<Outbound>,
) -> bool {
    let hand2 = pre.hand(player_id as int).remove(pos);
    let upd = belote_step(rg.bid.trump, rg.belote_player, player_id, card, hand2);
    let board2 = rg.board.cards@.push(card);
    let played = pre_out + broadcast_msgs(
        ServerMessage::PlayedCard {
            player_id,
            card_pos: pos as usize,
            card,
            belote_rebelote: upd.1,
        },
        4,
    );
    if board2.len() < 4 {
        &&& hands_after_play(pre, post, player_id, pos)
        &&& post.points == pre.points
        &&& post.round_points == pre.round_points
        &&& post.dealer_id == pre.dealer_id
        &&& (post.game_state matches GameState::Running(rg2) && {
            &&& rg2.team == rg.team
            &&& rg2.bid == rg.bid
            &&& rg2.coinche_state == rg.coinche_state
            &&& rg2.tricks == rg.tricks
            &&& rg2.board.starting_player_id == rg.board.starting_player_id
            &&& rg2.board.cards@ == board2
            &&& rg2.belote_player == upd.0
        })
        &&& post_out == played
    } else {
        let winner = ((rg.board.starting_player_id + best_card_index(
            board2,
            rg.bid.trump,
            board2[0].suit,
        )) % 4) as usize;
        let announced = played + broadcast_msgs(ServerMessage::Trick { winner_id: winner }, 4);
        if rg.tricks@.len() + 1 < 8 {
            &&& hands_after_play(pre, post, player_id, pos)
            &&& post.points == pre.points
            &&& post.round_points == pre.round_points
            &&& post.dealer_id == pre.dealer_id
            &&& (post.game_state matches GameState::Running(rg2) && {
                &&& rg2.team == rg.team
                &&& rg2.bid == rg.bid
                &&& rg2.coinche_state == rg.coinche_state
                &&& rg2.tricks@.len() == rg.tricks@.len() + 1
                &&& rg2.tricks@.drop_last() == rg.tricks@
                &&& ({
                    let t = rg2.tricks@.last();
                    &&& t.starting_player_id == rg.board.starting_player_id
                    &&& t.winner_id == winner
                    &&& t.cards@ == board2
                })
                &&& rg2.board.starting_player_id == winner
                &&& rg2.board.cards@.len() == 0
                &&& rg2.belote_player == upd.0
            })
            &&& post_out == announced
        } else {
            &&& (exists|rg2: RunningGame| {
                &&& rg2.team == rg.team
                &&& rg2.bid == rg.bid
                &&& rg2.coinche_state == rg.coinche_state
                &&& rg2.tricks@.len() == 8
                &&& rg2.tricks@.drop_last() == rg.tricks@
                &&& rg2.tricks@.last().starting_player_id == rg.board.starting_player_id
                &&& rg2.tricks@.last().winner_id == winner
                &&& rg2.tricks@.last().cards@ == board2
                &&& rg2.belote_player == upd.0
                &&& #[trigger] settled_round(pre, rg2, post)
            })
            &&& post_out == announced + refresh_all_msgs(post, 4)
        }
    }
}

/// What a card play by `player_id` does. In the running phase, the seat on
/// turn plays a card it holds if the play is legal on the board; a seat out
/// of turn, an unheld card, an illegal card, and any other phase are
/// rejected.
pub open spec fn play_card_outcome(
    pre: Game,
    post: Game,
    player_id: usize,
    card_identifier: PlayerCardIdentifier,
    r: Result<(), GameError>,
    pre_out: Seq<Outbound>,
    post_out: Seq<Outbound>,
) -> bool {
    match pre.game_state {
        GameState::Running(rg) => if player_id as int != rg.board.turn() {
            &&& r == Err::<(), GameError>(GameError::NotYourTurn)
            &&& post == pre
            &&& post_out == pre_out
        } else {
            match Player::spec_find_card(pre.hand(player_id as int), card_identifier) {
                None => {
                    &&& r == Err::<(), GameError>(GameError::InvalidCard)
                    &&& post == pre
                    &&& post_out == pre_out
                },
                Some((pos, card)) => if !rg.board.play_legal(
                    pre.hand(player_id as int),
                    rg.bid.trump,
                    team_of(player_id as int),
                    card,
                ) {
                    &&& r == Err::<(), GameError>(GameError::IllegalCard)
                    &&& post == pre
                    &&& post_out == pre_out
                } else {
                    &&& r is Ok
                    &&& card_played(pre, rg, post, player_id, pos, card, pre_out, post_out)
                },
            }
        },
        _ => {
            &&& r == Err::<(), GameError>(GameError::NotInRunningPhase)
            &&& post == pre
            &&& post_out == pre_out
        },
    }
}

impl Game {
    /// Plays a card for seat `player_id`, named by position or identity.
    pub fn play_card(
        &mut self,
        player_id: usize,
        card_identifier: PlayerCardIdentifier,
        out: &mut Vec<Outbound>,
    ) -> (r: Result<(), GameError>)
        requires
            old(self).wf(),
            player_id < old(self).players@.len(),
        ensures
            final(self).wf(),
            play_card_outcome(
                *old(self),
                *final(self),
                player_id,
                card_identifier,
                r,
                old(out)@,
                final(out)@,
            ),
    {
        let team = Player::team(player_id);
        let (card_pos, card): (usize, Card) = match &self.game_state {
            GameState::Running(rg) => {
                if (rg.board.starting_player_id + rg.board.cards.len()) % 4 != player_id {
                    return Err(GameError::NotYourTurn);
                }
                match self.players[player_id].find_card(card_identifier) {
                    None => {
                        return Err(GameError::InvalidCard);
                    },
                    Some((pos, card)) => {
                        if !rg.board.can_play(
                            &self.players[player_id].cards,
                            card,
                            rg.bid.trump,
                            team,
                        ) {
                            return Err(GameError::IllegalCard);
                        }
                        (pos, card)
                    },
                }
            },
            _ => {
                return Err(GameError::NotInRunningPhase);
            },
        };
        let ghost pre_rg = old(self).game_state->Running_0;
        proof {
            lemma_turn_not_played(pre_rg.board);
        }
        self.players[player_id].cards.remove(card_pos);
        let mut note: Option<BeloteRebelote> = None;
        match &mut self.game_state {
            GameState::Running(rg) => {
                rg.board.cards.push(card);
                match rg.bid.trump {
                    Trump::Suit(trump_suit) => {
                        if card.suit == trump_suit {
                            match rg.belote_player {
                                None => {
                                    let look_for: Option<Value> = match card.value {
                                        Value::King => Some(Value::Queen),
                                        Value::Queen => Some(Value::King),
                                        _ => None,
                                    };
                                    match look_for {
                                        Some(partner) => {
                                            if hand_contains(
                                                &self.players[player_id].cards,
                                                Card { value: partner, suit: trump_suit },
                                            ) {
                                                rg.belote_player = Some(player_id);
                                                note = Some(BeloteRebelote::Belote);
                                            }
                                        },
                                        None => {},
                                    }
                                },
                                Some(holder) => {
                                    if holder == player_id {
                                        match card.value {
                                            Value::King | Value::Queen => {
                                                note = Some(BeloteRebelote::Rebelote);
                                            },
                                            _ => {},
                                        }
                                    }
                                },
                            }
                        }
                    },
                    _ => {},
                }
            },
            _ => {},
        }
        let ghost pushed = self.game_state->Running_0.board;
        proof {
            let rg2 = self.game_state->Running_0;
            assert((rg2.belote_player, note) == belote_step(
                pre_rg.bid.trump,
                pre_rg.belote_player,
                player_id,
                card,
                self.hand(player_id as int),
            ));
            lemma_board_played_push(pre_rg.board, rg2.board);
            assert(seat_at(pre_rg.board, pre_rg.board.cards@.len() as int) == player_id as int);
        }
        self.send_all(
            ServerMessage::PlayedCard { player_id, card_pos, card, belote_rebelote: note },
            out,
        );
        let closed: Option<usize> = match &mut self.game_state {
            GameState::Running(rg) => {
                if rg.board.cards.len() == 4 {
                    proof {
                        lemma_full_board_all_played(rg.board);
                    }
                    let winner = rg.board.winning_player_id(rg.bid.trump).unwrap();
                    let mut trick_cards: Vec<Card> = Vec::new();
                    core::mem::swap(&mut rg.board.cards, &mut trick_cards);
                    rg.tricks.push(
                        Trick {
                            starting_player_id: rg.board.starting_player_id,
                            winner_id: winner,
                            cards: trick_cards,
                        },
                    );
                    rg.board.starting_player_id = winner;
                    Some(winner)
                } else {
                    None
                }
            },
            _ => None,
        };
        proof {
            let rg2 = self.game_state->Running_0;
            let pid = player_id as int;
            assert(self.hand(pid).len() == old(self).hand(pid).len() - 1);
            assert(old(self).hand(pid).len() == 8 - pre_rg.tricks@.len());
            match closed {
                None => {
                    assert(rg2.board == pushed);
                    assert(rg2.tricks == pre_rg.tricks);
                    assert forall|p: int| 0 <= p < 4 implies (#[trigger] self.hand(p)).len() == 8
                        - rg2.tricks@.len() - (if board_played(rg2.board, p) {
                        1int
                    } else {
                        0
                    }) by {
                        if p == pid {
                            assert(board_played(rg2.board, p));
                        } else {
                            assert(self.players@[p] == old(self).players@[p]);
                            assert(board_played(rg2.board, p) == board_played(pre_rg.board, p));
                            assert(old(self).hand(p).len() == 8 - pre_rg.tricks@.len() - (
                            if board_played(pre_rg.board, p) {
                                1int
                            } else {
                                0
                            }));
                        }
                    }
                },
                Some(winner) => {
                    assert(rg2.board.cards@.len() == 0);
                    assert(rg2.tricks@.len() == pre_rg.tricks@.len() + 1);
                    assert(rg2.tricks@.drop_last() =~= pre_rg.tricks@);
                    assert(rg2.tricks@.last().cards@ == pushed.cards@);
                    assert(forall|p: int| !board_played(rg2.board, p));
                    assert forall|p: int| 0 <= p < 4 implies (#[trigger] self.hand(p)).len() == 8
                        - rg2.tricks@.len() - (if board_played(rg2.board, p) {
                        1int
                    } else {
                        0
                    }) by {
                        assert(board_played(pushed, p));
                        if p != pid {
                            assert(self.players@[p] == old(self).players@[p]);
                            assert(board_played(pre_rg.board, p) || seat_at(
                                pre_rg.board,
                                pre_rg.board.cards@.len() as int,
                            ) == p);
                            assert(board_played(pre_rg.board, p));
                            assert(old(self).hand(p).len() == 8 - pre_rg.tricks@.len() - (
                            if board_played(pre_rg.board, p) {
                                1int
                            } else {
                                0
                            }));
                            assert(old(self).hand(p).len() == 8 - pre_rg.tricks@.len() - 1);
                        }
                    }
                },
            }
            assert forall|t: int| 0 <= t < rg2.tricks@.len() implies crate::game::trick_wf(
                #[trigger] rg2.tricks@[t],
                rg2.bid.trump,
            ) by {
                if t < pre_rg.tricks@.len() {
                    assert(rg2.tricks@[t] == pre_rg.tricks@[t]);
                }
            }
            assert(self.wf());
        }
        match closed {
            Some(winner) => {
                self.send_all(ServerMessage::Trick { winner_id: winner }, out);
            },
            None => {},
        }
        let ghost mid = *self;
        self.try_end(out);
        proof {
            if mid.game_state->Running_0.tricks@.len() == 8 {
                let rg2 = mid.game_state->Running_0;
                assert(rg2.tricks@.drop_last() =~= pre_rg.tricks@);
                assert(rg2.tricks@.last().cards@ == pushed.cards@);
                assert(settled_round(*old(self), rg2, *self));
            }
        }
        Ok(())
    }
}

} // verus!

