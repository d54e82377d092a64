//! The match state: phases, the board, archived tricks and settled rounds.
//!
//! A match owns up to four seated players, the two cumulative team totals,
//! the settled-round history and the dealer seat. Seats 0 and 2 form one
//! team, seats 1 and 3 the other (`team_of`). The phase is a tagged union:
//! `Lobby` until four seats fill, `Bidding` while the contract is fought
//! over, `Running` while the eight tricks are played.

use vstd::prelude::*;

use crate::bid::{Bid, PlayerBid};
use crate::card::{Card, Suit, Value};
use crate::deck::{cards_of_bytes, deals_full_deck, lemma_deal_partitions, Deck};
use crate::messages::{game_state_msg, refresh_all_msgs, refresh_msgs, GameError, Outbound};
use crate::player::Player;
use crate::points::scaled_points;
use crate::trump::Trump;

verus! {

/// The team of a seat: seats of odd parity form team `true`, seats of even
/// parity team `false`.
pub open spec fn team_of(player_id: int) -> bool {
    player_id % 2 != 0
}

/// Escalation reached by a contract that went to play.
#[derive(Debug, Clone, Copy)]
pub enum CoincheState {
    No,
    Coinche { player_id: usize },
    Surcoinche { coincher_id: usize, surcoincher_id: usize },
}

/// Escalation while bidding is still open. A coinche remembers which member
/// of the bidding team has already declined to surcoinche, so that a second,
/// distinct decline locks the contract at Coinche level.
#[derive(Debug, Clone, Copy)]
pub enum BiddingCoincheState {
    No,
    Coinche { player_id: usize, player_skipped: Option<usize> },
    Surcoinche { coincher_id: usize, surcoincher_id: usize },
}

/// Belote and Rebelote notification flags: first and second play of the
/// trump King/Queen pair by its holder.
#[derive(Debug, Clone, Copy, PartialEq, Eq, Structural)]
pub enum BeloteRebelote {
    Belote,
    Rebelote,
}

/// The trick being formed: who led it and the cards played so far, in seat
/// order from the leader.
#[derive(Debug)]
pub struct Board {
    pub starting_player_id: usize,
    pub cards: Vec<Card>,
}

/// A completed trick: who led it, who won it, and its four cards in play
/// order.
#[derive(Debug)]
pub struct Trick {
    pub starting_player_id: usize,
    pub winner_id: usize,
    pub cards: Vec<Card>,
}

/// The state of a round being played out.
#[derive(Debug)]
pub struct RunningGame {
    /// The bidding team: `team_of` the seat whose bid became the contract.
    pub team: bool,
    pub bid: Bid,
    pub tricks: Vec<Trick>,
    pub coinche_state: CoincheState,
    pub board: Board,
    /// The seat that played the first card of the trump King/Queen pair
    /// while holding the other, if any.
    pub belote_player: Option<usize>,
}

/// The settlement record of one finished round; appended to the match
/// history and never changed.
#[derive(Debug)]
pub struct RoundPoints {
    /// Awarded points per team, by `team_of` index (`[false, true]`).
    pub points: [usize; 2],
    pub bid: Bid,
    /// Raw points per team: floored card points plus the last-trick and
    /// belote bonuses.
    pub scored_points: [usize; 2],
    /// The bidding team.
    pub team: bool,
    /// Whether the bidding team won all eight tricks.
    pub capot: bool,
    /// The recorded belote holder, if any.
    pub belote_player: Option<usize>,
    /// The escalation the contract was played at.
    pub coinche_state: CoincheState,
}

/// The phase of the match.
#[derive(Debug)]
pub enum GameState {
    Lobby,
    Bidding { bids: Vec<PlayerBid>, coinche_state: BiddingCoincheState },
    Running(RunningGame),
}

/// One shared match.
#[derive(Debug)]
pub struct Game {
    pub players: Vec<Player>,
    /// Cumulative awarded points per team, by `team_of` index.
    pub points: [usize; 2],
    pub round_points: Vec<RoundPoints>,
    pub dealer_id: usize,
    pub game_state: GameState,
}

/// How strongly a card contends for a trick whose asked suit is `asked`:
/// trump cards beat every plain card and rank among themselves by the
/// trump-aware order; asked-suit plain cards rank by the natural order under
/// a suit or no-trump contract and by the trump-aware order under all-trump;
/// every other card (power -1) cannot take the trick.
pub open spec fn card_power(trump: Trump, asked: Suit, c: Card) -> int {
    match trump {
        Trump::NoTrump => if c.suit == asked {
            c.value.natural_rank()
        } else {
            -1
        },
        Trump::AllTrump => if c.suit == asked {
            c.value.trump_rank()
        } else {
            -1
        },
        Trump::Suit(trump_suit) => if c.suit == trump_suit {
            8 + c.value.trump_rank()
        } else if c.suit == asked {
            c.value.natural_rank()
        } else {
            -1
        },
    }
}

/// The position, among the cards of a trick led in suit `asked`, of the card
/// that takes it: the last position of greatest power.
pub open spec fn best_card_index(cards: Seq<Card>, trump: Trump, asked: Suit) -> int
    decreases cards.len(),
{
    if cards.len() <= 1 {
        0
    } else {
        let prev = best_card_index(cards.drop_last(), trump, asked);
        if card_power(trump, asked, cards.last()) >= card_power(trump, asked, cards[prev]) {
            cards.len() - 1
        } else {
            prev
        }
    }
}

/// The greatest rank, in the trump-aware order, among the cards of `suit`
/// in `cards`; `None` when there is none.
pub open spec fn high_suit_value(cards: Seq<Card>, suit: Suit) -> Option<Value>
    decreases cards.len(),
{
    if cards.len() == 0 {
        None
    } else {
        let prev = high_suit_value(cards.drop_last(), suit);
        let last = cards.last();
        if last.suit == suit {
            match prev {
                None => Some(last.value),
                Some(v) => if last.value.trump_rank() >= v.trump_rank() {
                    Some(last.value)
                } else {
                    Some(v)
                },
            }
        } else {
            prev
        }
    }
}

/// Whether `hand` holds a card of `suit`.
pub open spec fn has_suit(hand: Seq<Card>, suit: Suit) -> bool {
    exists|i: int| 0 <= i < hand.len() && hand[i].suit == suit
}

/// Whether every card of `suit` in `hand` ranks strictly below `v` in the
/// trump-aware order — the escape clause that excuses not overtrumping.
pub open spec fn all_below_trump(hand: Seq<Card>, suit: Suit, v: Value) -> bool {
    forall|i: int| 0 <= i < hand.len() && hand[i].suit == suit
        ==> hand[i].value.trump_rank() < v.trump_rank()
}

impl Board {
    /// A board is sound when its leader is a seat and at most one trick's
    /// worth of cards lies on it.
    pub open spec fn wf(self) -> bool {
        &&& self.starting_player_id < 4
        &&& self.cards@.len() <= 4
    }

    /// The seat whose turn it is to play on this board.
    pub open spec fn turn(self) -> int {
        (self.starting_player_id + self.cards@.len()) % 4
    }

    /// The seat currently taking this board's trick.
    pub open spec fn spec_winner(self, trump: Trump) -> int {
        (self.starting_player_id + best_card_index(
            self.cards@,
            trump,
            self.cards@[0].suit,
        )) % 4
    }

    /// Whether `card`, from `hand`, may be played on this board by a member
    /// of team `team` under `trump`:
    /// - an empty board takes any card;
    /// - holding the asked suit one must follow it, and when the asked suit
    ///   is trump one must also beat the board's best trump unless every
    ///   asked-suit card held is below it;
    /// - holding none of the asked suit, under a suit contract, with the
    ///   opposing team taking the trick and trumps in hand, one must trump,
    ///   beating the board's best trump under the same escape clause;
    /// - otherwise any card goes.
    pub open spec fn play_legal(self, hand: Seq<Card>, trump: Trump, team: bool, card: Card) -> bool {
        if self.cards@.len() == 0 {
            true
        } else {
            let asked = self.cards@[0].suit;
            if has_suit(hand, asked) {
                &&& card.suit == asked
                &&& (trump.spec_is_trump(asked) ==> match high_suit_value(self.cards@, asked) {
                    Some(best) => card.value.trump_rank() > best.trump_rank() || all_below_trump(
                        hand,
                        asked,
                        best,
                    ),
                    None => true,
                })
            } else {
                match trump {
                    Trump::Suit(trump_suit) => {
                        if team_of(self.spec_winner(trump)) != team && has_suit(hand, trump_suit) {
                            &&& card.suit == trump_suit
                            &&& match high_suit_value(self.cards@, trump_suit) {
                                Some(best) => card.value.trump_rank() > best.trump_rank()
                                    || all_below_trump(hand, trump_suit, best),
                                None => true,
                            }
                        } else {
                            true
                        }
                    },
                    _ => true,
                }
            }
        }
    }

    /// The greatest trump-aware rank among this board's cards of
    /// `asked_suit`, if any.
    pub fn high_trump_value(&self, asked_suit: Suit) -> (r: Option<Value>)
        ensures
            r == high_suit_value(self.cards@, asked_suit),
    {
        let n = self.cards.len();
        let mut best: Option<Value> = None;
        let mut i: usize = 0;
        while i < n
            invariant
                n == self.cards@.len(),
                i <= n,
                best == high_suit_value(self.cards@.take(i as int), asked_suit),
            decreases n - i,
        {
            let c = self.cards[i];
            if c.suit == asked_suit {
                best = match best {
                    None => Some(c.value),
                    Some(v) => {
                        match c.value.cmp_trump(&v) {
                            core::cmp::Ordering::Less => Some(v),
                            _ => Some(c.value),
                        }
                    },
                };
            }
            i += 1;
            proof {
                assert(self.cards@.take(i as int).drop_last() =~= self.cards@.take(i - 1));
            }
        }
        proof {
            assert(self.cards@.take(n as int) =~= self.cards@);
        }
        best
    }

    /// The ranks of this board's cards of `asked_suit`, in play order.
    pub fn suit_values(&self, asked_suit: Suit) -> (r: Vec<Value>)
        ensures
            r@ == suit_ranks(self.cards@, asked_suit),
    {
        let n = self.cards.len();
        let mut out: Vec<Value> = Vec::new();
        let mut i: usize = 0;
        while i < n
            invariant
                n == self.cards@.len(),
                i <= n,
                out@ == suit_ranks(self.cards@.take(i as int), asked_suit),
            decreases n - i,
        {
            let c = self.cards[i];
            if c.suit == asked_suit {
                out.push(c.value);
            }
            i += 1;
            proof {
                assert(self.cards@.take(i as int).drop_last() =~= self.cards@.take(i - 1));
            }
        }
        proof {
            assert(self.cards@.take(n as int) =~= self.cards@);
        }
        out
    }

    /// The seat currently taking this board's trick; `None` on an empty
    /// board.
    pub fn winning_player_id(&self, trump: Trump) -> (r: Option<usize>)
        requires
            self.wf(),
        ensures
            match r {
                None => self.cards@.len() == 0,
                Some(w) => self.cards@.len() > 0 && w as int == self.spec_winner(trump) && w < 4,
            },
    {
        let n = self.cards.len();
        if n == 0 {
            return None;
        }
        let asked = self.cards[0].suit;
        let mut best: usize = 0;
        let mut i: usize = 1;
        while i < n
            invariant
                n == self.cards@.len(),
                1 <= i <= n,
                best < i,
                best as int == best_card_index(self.cards@.take(i as int), trump, asked),
            decreases n - i,
        {
            let p_i = card_power_exec(trump, asked, self.cards[i]);
            let p_best = card_power_exec(trump, asked, self.cards[best]);
            proof {
                assert(self.cards@.take(i + 1).drop_last() =~= self.cards@.take(i as int));
                assert(self.cards@.take(i + 1).last() == self.cards@[i as int]);
            }
            if p_i >= p_best {
                best = i;
            }
            i += 1;
        }
        proof {
            assert(self.cards@.take(n as int) =~= self.cards@);
        }
        Some((self.starting_player_id + best) % 4)
    }

    /// Whether `card`, from `hand`, may be played on this board by a member
    /// of team `team` under `trump`.
    pub fn can_play(&self, hand: &Vec<Card>, card: Card, trump: Trump, team: bool) -> (r: bool)
        requires
            self.wf(),
        ensures
            r == self.play_legal(hand@, trump, team, card),
    {
        if self.cards.len() == 0 {
            return true;
        }
        let asked = self.cards[0].suit;
        if hand_has_suit(hand, asked) {
            if card.suit != asked {
                return false;
            }
            if trump.is_trump(asked) {
                match self.high_trump_value(asked) {
                    Some(best) => {
                        let beats = matches!(card.value.cmp_trump(&best), core::cmp::Ordering::Greater);
                        beats || hand_all_below_trump(hand, asked, best)
                    },
                    None => true,
                }
            } else {
                true
            }
        } else {
            match trump {
                Trump::Suit(trump_suit) => {
                    let winner = self.winning_player_id(trump).unwrap();
                    if Player::team(winner) != team && hand_has_suit(hand, trump_suit) {
                        if card.suit != trump_suit {
                            return false;
                        }
                        match self.high_trump_value(trump_suit) {
                            Some(best) => {
                                let beats = matches!(
                                    card.value.cmp_trump(&best),
                                    core::cmp::Ordering::Greater,
                                );
                                beats || hand_all_below_trump(hand, trump_suit, best)
                            },
                            None => true,
                        }
                    } else {
                        true
                    }
                },
                _ => true,
            }
        }
    }
}

/// The ranks of the cards of `suit` in `cards`, in order.
pub open spec fn suit_ranks(cards: Seq<Card>, suit: Suit) -> Seq<Value>
    decreases cards.len(),
{
    if cards.len() == 0 {
        Seq::empty()
    } else {
        let prev = suit_ranks(cards.drop_last(), suit);
        if cards.last().suit == suit {
            prev.push(cards.last().value)
        } else {
            prev
        }
    }
}

fn card_power_exec(trump: Trump, asked: Suit, c: Card) -> (p: i8)
    ensures
        p as int == card_power(trump, asked, c),
{
    let rank: i8 = match trump {
        Trump::NoTrump => if c.suit == asked {
            natural_rank_i8(c.value)
        } else {
            -1
        },
        Trump::AllTrump => if c.suit == asked {
            trump_rank_i8(c.value)
        } else {
            -1
        },
        Trump::Suit(trump_suit) => if c.suit == trump_suit {
            8 + trump_rank_i8(c.value)
        } else if c.suit == asked {
            natural_rank_i8(c.value)
        } else {
            -1
        },
    };
    rank
}

fn natural_rank_i8(v: Value) -> (r: i8)
    ensures
        r as int == v.natural_rank(),
{
    match v {
        Value::Seven => 0,
        Value::Eight => 1,
        Value::Nine => 2,
        Value::Ten => 3,
        Value::Jack => 4,
        Value::Queen => 5,
        Value::King => 6,
        Value::Ace => 7,
    }
}

fn trump_rank_i8(v: Value) -> (r: i8)
    ensures
        r as int == v.trump_rank(),
{
    match v {
        Value::Jack => 7,
        Value::Nine => 6,
        Value::Ace => 5,
        Value::King => 4,
        Value::Queen => 3,
        Value::Ten => 2,
        Value::Eight => 1,
        Value::Seven => 0,
    }
}

/// Whether `hand` holds a card of `suit`.
pub fn hand_has_suit(hand: &Vec<Card>, suit: Suit) -> (r: bool)
    ensures
        r == has_suit(hand@, suit),
{
    let n = hand.len();
    let mut i: usize = 0;
    while i < n
        invariant
            n == hand@.len(),
            i <= n,
            forall|j: int| 0 <= j < i ==> hand@[j].suit != suit,
        decreases n - i,
    {
        if hand[i].suit == suit {
            return true;
        }
        i += 1;
    }
    false
}

/// Whether `hand` holds `card`.
pub fn hand_contains(hand: &Vec<Card>, card: Card) -> (r: bool)
    ensures
        r == hand@.contains(card),
{
    let n = hand.len();
    let mut i: usize = 0;
    while i < n
        invariant
            n == hand@.len(),
            i <= n,
            forall|j: int| 0 <= j < i ==> hand@[j] != card,
        decreases n - i,
    {
        if hand[i] == card {
            return true;
        }
        i += 1;
    }
    false
}

/// Whether every card of `suit` in `hand` ranks strictly below `v` in the
/// trump-aware order.
pub fn hand_all_below_trump(hand: &Vec<Card>, suit: Suit, v: Value) -> (r: bool)
    ensures
        r == all_below_trump(hand@, suit, v),
{
    let n = hand.len();
    let mut i: usize = 0;
    while i < n
        invariant
            n == hand@.len(),
            i <= n,
            forall|j: int| 0 <= j < i && hand@[j].suit == suit
                ==> hand@[j].value.trump_rank() < v.trump_rank(),
        decreases n - i,
    {
        if hand[i].suit == suit {
            if !matches!(hand[i].value.cmp_trump(&v), core::cmp::Ordering::Less) {
                return false;
            }
        }
        i += 1;
    }
    true
}

impl GameState {
    pub open spec fn spec_is_lobby(&self) -> bool {
        self is Lobby
    }

    pub fn is_lobby(&self) -> (r: bool)
        ensures
            r == self.spec_is_lobby(),
    {
        match self {
            Self::Lobby => true,
            _ => false,
        }
    }
}

/// The seat that played (or will play) the `i`-th card of board `b`.
pub open spec fn seat_at(b: Board, i: int) -> int {
    (b.starting_player_id + i) % 4
}

/// Whether seat `p` has already played a card on board `b`.
pub open spec fn board_played(b: Board, p: int) -> bool {
    exists|i: int| 0 <= i < b.cards@.len() && #[trigger] seat_at(b, i) == p
}

/// A completed trick is sound under `trump`: four cards, a seat as leader,
/// and the winner the seat whose card takes the trick.
pub open spec fn trick_wf(t: Trick, trump: Trump) -> bool {
    &&& t.cards@.len() == 4
    &&& t.starting_player_id < 4
    &&& t.winner_id as int == (t.starting_player_id + best_card_index(
        t.cards@,
        trump,
        t.cards@[0].suit,
    )) % 4
}

/// The most recent actual bid: the last entry of the bidding sequence that
/// is not a pass.
pub open spec fn last_actual_bid(bids: Seq<PlayerBid>) -> Option<PlayerBid>
    decreases bids.len(),
{
    if bids.len() == 0 {
        None
    } else if bids.last().bid is Some {
        Some(bids.last())
    } else {
        last_actual_bid(bids.drop_last())
    }
}

/// Escalation is sound against the bidding sequence: it presupposes an
/// actual bid, a coincher from the team that did not place it, and a
/// surcoincher (or a recorded decliner) from the team that did.
pub open spec fn escalation_wf(bids: Seq<PlayerBid>, cs: BiddingCoincheState) -> bool {
    match cs {
        BiddingCoincheState::No => true,
        BiddingCoincheState::Coinche { player_id, player_skipped } => {
            &&& player_id < 4
            &&& match last_actual_bid(bids) {
                Some(pb) => {
                    &&& team_of(player_id as int) != team_of(pb.player_id as int)
                    &&& match player_skipped {
                        Some(s) => s < 4 && team_of(s as int) == team_of(pb.player_id as int),
                        None => true,
                    }
                },
                None => false,
            }
        },
        BiddingCoincheState::Surcoinche { coincher_id, surcoincher_id } => {
            &&& coincher_id < 4
            &&& surcoincher_id < 4
            &&& match last_actual_bid(bids) {
                Some(pb) => {
                    &&& team_of(coincher_id as int) != team_of(pb.player_id as int)
                    &&& team_of(surcoincher_id as int) == team_of(pb.player_id as int)
                },
                None => false,
            }
        },
    }
}

/// How a played card moves the belote state. The first play of the trump
/// King or Queen, by a player still holding the partner card, with no holder
/// recorded yet, records that player as belote holder and announces Belote;
/// a later play of the trump King or Queen by the holder announces
/// Rebelote. The result pairs the new holder with the announcement, if any.
pub open spec fn belote_step(
    trump: Trump,
    belote_player: Option<usize>,
    player_id: usize,
    card: Card,
    hand_after: Seq<Card>,
) -> (Option<usize>, Option<BeloteRebelote>) {
    match trump {
        Trump::Suit(trump_suit) => if card.suit == trump_suit {
            match belote_player {
                None => {
                    let partner = if card.value == Value::King {
                        Some(Value::Queen)
                    } else if card.value == Value::Queen {
                        Some(Value::King)
                    } else {
                        None::<Value>
                    };
                    match partner {
                        Some(v) => if hand_after.contains(Card { value: v, suit: trump_suit }) {
                            (Some(player_id), Some(BeloteRebelote::Belote))
                        } else {
                            (None::<usize>, None::<BeloteRebelote>)
                        },
                        None => (None::<usize>, None::<BeloteRebelote>),
                    }
                },
                Some(holder) => if holder == player_id && (card.value == Value::King || card.value
                    == Value::Queen) {
                    (Some(holder), Some(BeloteRebelote::Rebelote))
                } else {
                    (Some(holder), None::<BeloteRebelote>)
                },
            }
        } else {
            (belote_player, None::<BeloteRebelote>)
        },
        _ => (belote_player, None::<BeloteRebelote>),
    }
}

/// The seat on turn has not yet played on a board still being formed.
pub proof fn lemma_turn_not_played(b: Board)
    requires
        b.starting_player_id < 4,
        b.cards@.len() < 4,
    ensures
        !board_played(b, b.turn()),
{
    assert forall|i: int| 0 <= i < b.cards@.len() implies #[trigger] seat_at(b, i) != b.turn() by {
        let s = b.starting_player_id as int;
        let l = b.cards@.len() as int;
        assert((s + i) % 4 != (s + l) % 4);
    }
}

/// Pushing a card onto a board adds exactly the seat on turn to those that
/// have played.
pub proof fn lemma_board_played_push(b: Board, b2: Board)
    requires
        b2.starting_player_id == b.starting_player_id,
        b2.cards@.len() == b.cards@.len() + 1,
    ensures
        forall|p: int| board_played(b2, p) <==> (board_played(b, p) || seat_at(
            b,
            b.cards@.len() as int,
        ) == p),
{
    let l = b.cards@.len() as int;
    assert forall|p: int| board_played(b2, p) <==> (board_played(b, p) || seat_at(b, l) == p) by {
        if board_played(b, p) {
            let i = choose|i: int| 0 <= i < b.cards@.len() && #[trigger] seat_at(b, i) == p;
            assert(seat_at(b2, i) == p);
        }
        if seat_at(b, l) == p {
            assert(seat_at(b2, l) == p);
        }
        if board_played(b2, p) {
            let i = choose|i: int| 0 <= i < b2.cards@.len() && #[trigger] seat_at(b2, i) == p;
            if i < l {
                assert(seat_at(b, i) == p);
            } else {
                assert(seat_at(b, l) == p);
            }
        }
    }
}

/// On a full board every seat has played.
pub proof fn lemma_full_board_all_played(b: Board)
    requires
        b.starting_player_id < 4,
        b.cards@.len() == 4,
    ensures
        forall|p: int| 0 <= p < 4 ==> board_played(b, p),
{
    assert forall|p: int| 0 <= p < 4 implies board_played(b, p) by {
        let s = b.starting_player_id as int;
        let i = if p >= s {
            p - s
        } else {
            p + 4 - s
        };
        assert(seat_at(b, i) == p);
    }
}

/// The index into a per-team pair (`[false, true]`) of a team.
pub open spec fn team_index(team: bool) -> int {
    if team {
        1
    } else {
        0
    }
}

/// The scaled worth of a run of cards.
pub open spec fn cards_scaled_sum(cards: Seq<Card>, trump: Trump) -> int
    decreases cards.len(),
{
    if cards.len() == 0 {
        0
    } else {
        cards_scaled_sum(cards.drop_last(), trump) + scaled_points(cards.last(), trump)
    }
}

/// The scaled worth of all the tricks won by `team`.
pub open spec fn team_tricks_scaled(tricks: Seq<Trick>, trump: Trump, team: bool) -> int
    decreases tricks.len(),
{
    if tricks.len() == 0 {
        0
    } else {
        team_tricks_scaled(tricks.drop_last(), trump, team) + if team_of(
            tricks.last().winner_id as int,
        ) == team {
            cards_scaled_sum(tricks.last().cards@, trump)
        } else {
            0
        }
    }
}

/// Whether `team` won every trick so far.
pub open spec fn team_swept(tricks: Seq<Trick>, team: bool) -> bool {
    forall|t: int| 0 <= t < tricks.len() ==> team_of(
        (#[trigger] tricks[t]).winner_id as int,
    ) == team
}

/// A team's raw points in a round: its floored card points, plus ten for
/// taking the last trick, plus twenty for holding the recorded belote.
pub open spec fn raw_team_points(rg: RunningGame, team: bool) -> int {
    team_tricks_scaled(rg.tricks@, rg.bid.trump, team) / 248 + (if rg.tricks@.len() > 0
        && team_of(rg.tricks@.last().winner_id as int) == team {
        10int
    } else {
        0
    }) + (match rg.belote_player {
        Some(b) => if team_of(b as int) == team {
            20int
        } else {
            0
        },
        None => 0,
    })
}

/// A settled round's record satisfies the payout formula: the bidding team
/// was awarded `(threshold + raw points) * multiplier` on success and
/// nothing on failure; the defenders nothing on success and
/// `160 + threshold * multiplier` on failure.
pub open spec fn round_wf(rp: RoundPoints) -> bool {
    let t = team_index(rp.team);
    let d = team_index(!rp.team);
    &&& rp.points[t] as int == rp.bid.score.taking_award(
        rp.scored_points[t] as int,
        rp.capot,
        rp.coinche_state,
    )
    &&& rp.points[d] as int == rp.bid.score.defending_award(
        rp.scored_points[t] as int,
        rp.capot,
        rp.coinche_state,
    )
}

/// Addition that stops at the top of `usize` instead of overflowing; the
/// cumulative match totals use it.
pub open spec fn saturating_sum(a: int, b: int) -> int {
    if a + b <= usize::MAX {
        a + b
    } else {
        usize::MAX as int
    }
}

/// A fresh deal: the dealer seat advanced by one, bidding opened with no
/// bids and no escalation, and the full deck dealt out eight cards a hand.
/// Seats keep their players; totals and history are left to the caller.
pub open spec fn fresh_deal(pre: Game, post: Game) -> bool {
    &&& post.dealer_id as int == (pre.dealer_id + 1) % 4
    &&& post.players@.len() == 4
    &&& forall|p: int| 0 <= p < 4 ==> (#[trigger] post.players@[p]).username
        == pre.players@[p].username
    &&& (post.game_state matches GameState::Bidding { bids, coinche_state } && bids@.len() == 0
        && coinche_state is No)
    &&& deals_full_deck(post.hand(0), post.hand(1), post.hand(2), post.hand(3))
}

/// A fresh deal that touches nothing else: totals and history as before.
pub open spec fn new_bidding_round(pre: Game, post: Game) -> bool {
    &&& fresh_deal(pre, post)
    &&& post.points == pre.points
    &&& post.round_points == pre.round_points
}

/// The entry whose bid bidding resolves to, if bidding is resolved: with no
/// escalation, the entry before three closing passes (of at least four
/// entries); once escalation began, the most recent actual bid.
pub open spec fn resolving_entry(bids: Seq<PlayerBid>, cs: BiddingCoincheState) -> Option<
    PlayerBid,
> {
    match cs {
        BiddingCoincheState::No => {
            let n = bids.len() as int;
            if n >= 4 && bids[n - 1].bid is None && bids[n - 2].bid is None && bids[n - 3].bid
                is None {
                Some(bids[n - 4])
            } else {
                None
            }
        },
        _ => last_actual_bid(bids),
    }
}

/// The escalation a contract is locked at when bidding resolves.
pub open spec fn locked_escalation(cs: BiddingCoincheState) -> CoincheState {
    match cs {
        BiddingCoincheState::No => CoincheState::No,
        BiddingCoincheState::Coinche { player_id, .. } => CoincheState::Coinche { player_id },
        BiddingCoincheState::Surcoinche { coincher_id, surcoincher_id } => CoincheState::Surcoinche {
            coincher_id,
            surcoincher_id,
        },
    }
}

/// Play begins: the bidder's team acts under contract `b` at the escalation
/// bidding reached; the seat after the dealer leads an empty board; hands,
/// totals and history are untouched.
pub open spec fn starts_running(
    pre: Game,
    post: Game,
    pb: PlayerBid,
    b: Bid,
    cs: BiddingCoincheState,
) -> bool {
    &&& post.players == pre.players
    &&& post.points == pre.points
    &&& post.round_points == pre.round_points
    &&& post.dealer_id == pre.dealer_id
    &&& (post.game_state matches GameState::Running(rg) && {
        &&& rg.team == team_of(pb.player_id as int)
        &&& rg.bid == b
        &&& rg.board.starting_player_id as int == (pre.dealer_id + 1) % 4
        &&& rg.board.cards@.len() == 0
        &&& rg.coinche_state == locked_escalation(cs)
        &&& rg.tricks@.len() == 0
        &&& rg.belote_player is None
    })
}

/// A round is settled: both teams' awards follow the payout formula from
/// the bidding team's raw points, its sweep flag and the escalation; the
/// record of exactly that is appended to the history; the cumulative totals
/// grow by the awards; and a fresh round is dealt.
pub open spec fn settled_round(pre: Game, rg: RunningGame, post: Game) -> bool {
    let t = team_index(rg.team);
    let d = team_index(!rg.team);
    let taking_raw = raw_team_points(rg, rg.team);
    let def_raw = raw_team_points(rg, !rg.team);
    let capot = team_swept(rg.tricks@, rg.team);
    let t_award = rg.bid.score.taking_award(taking_raw, capot, rg.coinche_state);
    let d_award = rg.bid.score.defending_award(taking_raw, capot, rg.coinche_state);
    &&& fresh_deal(pre, post)
    &&& post.points[t] as int == saturating_sum(pre.points[t] as int, t_award)
    &&& post.points[d] as int == saturating_sum(pre.points[d] as int, d_award)
    &&& post.round_points@.len() == pre.round_points@.len() + 1
    &&& post.round_points@.drop_last() == pre.round_points@
    &&& ({
        let rp = post.round_points@.last();
        &&& rp.bid == rg.bid
        &&& rp.team == rg.team
        &&& rp.capot == capot
        &&& rp.belote_player == rg.belote_player
        &&& rp.coinche_state == rg.coinche_state
        &&& rp.scored_points[t] as int == taking_raw
        &&& rp.scored_points[d] as int == def_raw
        &&& rp.points[t] as int == t_award
        &&& rp.points[d] as int == d_award
    })
}

/// `last_actual_bid` picks the entry at `k` when it bids and only passes
/// follow it.
proof fn lemma_last_actual_bid_at(bids: Seq<PlayerBid>, k: int)
    requires
        0 <= k < bids.len(),
        bids[k].bid is Some,
        forall|j: int| k < j < bids.len() ==> (#[trigger] bids[j]).bid is None,
    ensures
        last_actual_bid(bids) == Some(bids[k]),
    decreases bids.len(),
{
    if k < bids.len() - 1 {
        lemma_last_actual_bid_at(bids.drop_last(), k);
    }
}

/// What `last_actual_bid` finds is an actual bid.
pub proof fn lemma_last_actual_bid_is_bid(bids: Seq<PlayerBid>)
    ensures
        match last_actual_bid(bids) {
            Some(pb) => pb.bid is Some,
            None => true,
        },
    decreases bids.len(),
{
    if bids.len() > 0 && !(bids.last().bid is Some) {
        lemma_last_actual_bid_is_bid(bids.drop_last());
    }
}

/// `last_actual_bid` finds nothing among passes alone.
proof fn lemma_last_actual_bid_none(bids: Seq<PlayerBid>)
    requires
        forall|j: int| 0 <= j < bids.len() ==> (#[trigger] bids[j]).bid is None,
    ensures
        last_actual_bid(bids) is None,
    decreases bids.len(),
{
    if bids.len() > 0 {
        lemma_last_actual_bid_none(bids.drop_last());
    }
}

/// The most recent actual bid of the sequence.
pub(crate) fn find_last_actual_bid(bids: &Vec<PlayerBid>) -> (r: Option<PlayerBid>)
    ensures
        r == last_actual_bid(bids@),
{
    let mut k = bids.len();
    while k > 0
        invariant
            k <= bids@.len(),
            forall|j: int| k <= j < bids@.len() ==> (#[trigger] bids@[j]).bid is None,
        decreases k,
    {
        k -= 1;
        if bids[k].bid.is_some() {
            proof {
                lemma_last_actual_bid_at(bids@, k as int);
            }
            return Some(bids[k]);
        }
    }
    proof {
        lemma_last_actual_bid_none(bids@);
    }
    None
}

/// Addition into `usize` that stops at the ceiling instead of overflowing.
fn add_saturating(a: usize, b: usize) -> (r: usize)
    ensures
        r as int == saturating_sum(a as int, b as int),
{
    match a.checked_add(b) {
        Some(v) => v,
        None => usize::MAX,
    }
}

/// The scaled worth of a trick's cards.
fn cards_scaled_total(cards: &Vec<Card>, trump: Trump) -> (r: u32)
    requires
        cards@.len() <= 4,
    ensures
        r as int == cards_scaled_sum(cards@, trump),
        r <= 19840,
{
    let n = cards.len();
    let mut sum: u32 = 0;
    let mut i: usize = 0;
    while i < n
        invariant
            n == cards@.len(),
            n <= 4,
            i <= n,
            sum as int == cards_scaled_sum(cards@.take(i as int), trump),
            sum <= i * 4960,
        decreases n - i,
    {
        let p = cards[i].points_scaled(trump);
        sum = sum + p;
        i += 1;
        proof {
            assert(cards@.take(i as int).drop_last() =~= cards@.take(i - 1));
        }
    }
    proof {
        assert(cards@.take(n as int) =~= cards@);
    }
    sum
}

/// The first seat whose player carries `name`, if any.
pub open spec fn username_index(players: Seq<Player>, name: Seq<char>) -> Option<int>
    decreases players.len(),
{
    if players.len() == 0 {
        None
    } else if players[0].username@ == name {
        Some(0int)
    } else {
        match username_index(players.drop_first(), name) {
            Some(i) => Some(i + 1),
            None => None,
        }
    }
}

/// The state snapshot for every seat below `upto` but `except`, in seat
/// order.
pub open spec fn game_state_others_msgs(upto: int, except: usize) -> Seq<Outbound>
    decreases upto,
{
    if upto <= 0 {
        Seq::empty()
    } else {
        let rest = game_state_others_msgs(upto - 1, except);
        if upto - 1 == except as int {
            rest
        } else {
            rest.push(game_state_msg((upto - 1) as usize))
        }
    }
}

/// What a join under `name` does. A name already seated gets its old seat
/// back, with a full refresh (the transport swaps in the new delivery
/// handle); a fifth distinct name is rejected; otherwise the name takes the
/// next seat, and the fourth seat filling deals the first round.
pub open spec fn add_player_outcome(
    pre: Game,
    post: Game,
    name: Seq<char>,
    r: Result<usize, GameError>,
    pre_out: Seq<Outbound>,
    post_out: Seq<Outbound>,
) -> bool {
    match username_index(pre.players@, name) {
        Some(i) => {
            &&& r == Ok::<usize, GameError>(i as usize)
            &&& post == pre
            &&& post_out == pre_out + refresh_msgs(pre, i as usize)
        },
        None => if pre.players@.len() >= 4 {
            &&& r == Err::<usize, GameError>(
                GameError::GameFull,
            )
            &&& post == pre
            &&& post_out == pre_out
        } else {
            let id = pre.players@.len() as int;
            &&& r == Ok::<usize, GameError>(id as usize)
            &&& post.players@.len() == id + 1
            &&& (forall|p: int| 0 <= p < id ==> (#[trigger] post.players@[p]).username@
                == pre.players@[p].username@)
            &&& post.players@[id].username@ == name
            &&& post.points == pre.points
            &&& post.round_points == pre.round_points
            &&& if id == 3 && pre.game_state is Lobby {
                &&& post.dealer_id as int == (pre.dealer_id + 1) % 4
                &&& (post.game_state matches GameState::Bidding { bids, coinche_state }
                    && bids@.len() == 0 && coinche_state is No)
                &&& deals_full_deck(post.hand(0), post.hand(1), post.hand(2), post.hand(3))
                &&& post_out == pre_out + refresh_all_msgs(post, 4)
            } else {
                &&& post.dealer_id == pre.dealer_id
                &&& post.game_state == pre.game_state
                &&& post.players@[id].cards@.len() == 0
                &&& (forall|p: int| 0 <= p < id ==> (#[trigger] post.players@[p]).cards
                    == pre.players@[p].cards)
                &&& post_out == pre_out + refresh_msgs(post, id as usize)
                    + game_state_others_msgs(id + 1, id as usize)
            }
        },
    }
}

impl Game {
    /// The hand of seat `p`.
    pub open spec fn hand(self, p: int) -> Seq<Card> {
        self.players@[p].cards@
    }

    /// The bidding sequence, when bidding is open.
    pub open spec fn spec_bids(self) -> Seq<PlayerBid> {
        match self.game_state {
            GameState::Bidding { bids, .. } => bids@,
            _ => Seq::empty(),
        }
    }

    /// Each seat holds eight cards, less one per trick played and one more
    /// if the seat already played on the current board.
    pub open spec fn hands_match_play(self, rg: RunningGame) -> bool {
        forall|p: int| 0 <= p < 4 ==> (#[trigger] self.hand(p)).len() == 8 - rg.tricks@.len()
            - (if board_played(rg.board, p) {
            1int
        } else {
            0
        })
    }

    /// The match invariant. Every constructor establishes it and every
    /// action preserves it.
    pub open spec fn wf(self) -> bool {
        &&& self.players@.len() <= 4
        &&& self.dealer_id < 4
        &&& (forall|r: int| 0 <= r < self.round_points@.len() ==> round_wf(
            #[trigger] self.round_points@[r],
        ))
        &&& match self.game_state {
            GameState::Lobby => true,
            GameState::Bidding { bids, coinche_state } => {
                &&& self.players@.len() == 4
                &&& forall|p: int| 0 <= p < 4 ==> (#[trigger] self.hand(p)).len() == 8
                &&& forall|n: int| 0 <= n < bids@.len() ==> (#[trigger] bids@[n]).player_id as int
                    == (self.dealer_id + 1 + n) % 4
                &&& escalation_wf(bids@, coinche_state)
            },
            GameState::Running(rg) => {
                &&& self.players@.len() == 4
                &&& rg.board.wf()
                &&& rg.board.cards@.len() < 4
                &&& rg.tricks@.len() <= 8
                &&& (forall|t: int| 0 <= t < rg.tricks@.len() ==> trick_wf(
                    #[trigger] rg.tricks@[t],
                    rg.bid.trump,
                ))
                &&& (rg.tricks@.len() == 8 ==> rg.board.cards@.len() == 0)
                &&& self.hands_match_play(rg)
                &&& match rg.belote_player {
                    Some(b) => b < 4,
                    None => true,
                }
            },
        }
    }

    /// A new match: no seats filled, nothing scored, dealer seat 2 so that
    /// the first round is dealt by seat 3 and opened by seat 0.
    pub fn new() -> (g: Game)
        ensures
            g.wf(),
            g.players@.len() == 0,
            g.points[0] == 0 && g.points[1] == 0,
            g.round_points@.len() == 0,
            g.dealer_id == 2,
            g.game_state is Lobby,
    {
        Game {
            players: Vec::new(),
            points: [0, 0],
            round_points: Vec::new(),
            dealer_id: 2,
            game_state: GameState::Lobby,
        }
    }

    /// The range of seat numbers currently filled.
    pub fn player_ids(&self) -> (r: core::ops::Range<usize>)
        ensures
            r.start == 0 && r.end == self.players@.len(),
    {
        0..self.players.len()
    }

    /// In the lobby with four seats filled, advances the dealer, deals a
    /// fresh shuffle and opens the bidding, refreshing every seat; anywhere
    /// else, does nothing.
    pub fn try_bidding_phase(&mut self, out: &mut Vec<Outbound>) -> (started: bool)
        requires
            old(self).wf(),
        ensures
            final(self).wf(),
            if old(self).game_state.spec_is_lobby() && old(self).players@.len() == 4 {
                &&& started
                &&& new_bidding_round(*old(self), *final(self))
                &&& final(out)@ == old(out)@ + refresh_all_msgs(*final(self), 4)
            } else {
                &&& !started
                &&& *final(self) == *old(self)
                &&& final(out)@ == old(out)@
            },
    {
        if self.game_state.is_lobby() && self.players.len() == 4 {
            self.dealer_id = (self.dealer_id + 1) % 4;
            let mut deck = Deck::new_shuffled();
            proof {
                deck.lemma_wf_cards();
            }
            let ghost bytes = deck.spec_cards();
            let h0 = deck.draw_n(8).unwrap();
            let h1 = deck.draw_n(8).unwrap();
            let h2 = deck.draw_n(8).unwrap();
            let h3 = deck.draw_n(8).unwrap();
            self.players[0].cards = h0;
            self.players[1].cards = h1;
            self.players[2].cards = h2;
            self.players[3].cards = h3;
            self.game_state = GameState::Bidding {
                bids: Vec::new(),
                coinche_state: BiddingCoincheState::No,
            };
            proof {
                assert(bytes.subrange(0, 32) =~= bytes);
                lemma_deal_partitions(bytes);
                assert(self.hand(0) == cards_of_bytes(bytes.subrange(0, 8)));
                assert(self.hand(1) == cards_of_bytes(bytes.subrange(8, 16)));
                assert(self.hand(2) == cards_of_bytes(bytes.subrange(16, 24)));
                assert(self.hand(3) == cards_of_bytes(bytes.subrange(24, 32)));
            }
            self.send_refresh_all_all(out);
            true
        } else {
            false
        }
    }

    /// If bidding is resolved, leaves it: on a resolved pass the round
    /// restarts with a fresh deal; on a resolved bid play begins under that
    /// contract, announced to every seat. Unresolved bidding, and any other
    /// phase, is left untouched.
    pub fn try_playing_phase(&mut self, out: &mut Vec<Outbound>) -> (started: bool)
        requires
            old(self).wf(),
        ensures
            final(self).wf(),
            match old(self).game_state {
                GameState::Bidding { bids, coinche_state } => match resolving_entry(
                    bids@,
                    coinche_state,
                ) {
                    None => {
                        &&& !started
                        &&& *final(self) == *old(self)
                        &&& final(out)@ == old(out)@
                    },
                    Some(pb) => match pb.bid {
                        None => {
                            &&& started
                            &&& new_bidding_round(*old(self), *final(self))
                            &&& final(out)@ == old(out)@ + refresh_all_msgs(*final(self), 4)
                        },
                        Some(b) => {
                            &&& started
                            &&& starts_running(*old(self), *final(self), pb, b, coinche_state)
                            &&& final(out)@ == old(out)@ + crate::messages::game_state_all_msgs(4)
                        },
                    },
                },
                _ => {
                    &&& !started
                    &&& *final(self) == *old(self)
                    &&& final(out)@ == old(out)@
                },
            },
    {
        let (decision, cs_locked): (Option<PlayerBid>, CoincheState) = match &self.game_state {
            GameState::Bidding { bids, coinche_state } => {
                let locked = match coinche_state {
                    BiddingCoincheState::No => CoincheState::No,
                    BiddingCoincheState::Coinche { player_id, .. } => CoincheState::Coinche {
                        player_id: *player_id,
                    },
                    BiddingCoincheState::Surcoinche { coincher_id, surcoincher_id } => {
                        CoincheState::Surcoinche {
                            coincher_id: *coincher_id,
                            surcoincher_id: *surcoincher_id,
                        }
                    },
                };
                let dec = match coinche_state {
                    BiddingCoincheState::No => {
                        let n = bids.len();
                        if n >= 4 && bids[n - 1].bid.is_none() && bids[n - 2].bid.is_none()
                            && bids[n - 3].bid.is_none() {
                            Some(bids[n - 4])
                        } else {
                            None
                        }
                    },
                    _ => find_last_actual_bid(bids),
                };
                (dec, locked)
            },
            _ => (None, CoincheState::No),
        };
        match decision {
            None => false,
            Some(player_bid) => match player_bid.bid {
                None => {
                    self.game_state = GameState::Lobby;
                    self.try_bidding_phase(out)
                },
                Some(b) => {
                    let starting = (self.dealer_id + 1) % 4;
                    self.game_state = GameState::Running(
                        RunningGame {
                            team: Player::team(player_bid.player_id),
                            bid: b,
                            board: Board { starting_player_id: starting, cards: Vec::new() },
                            coinche_state: cs_locked,
                            tricks: Vec::new(),
                            belote_player: None,
                        },
                    );
                    proof {
                        let rg = self.game_state->Running_0;
                        assert forall|p: int| 0 <= p < 4 implies (#[trigger] self.hand(p)).len()
                            == 8 by {
                            assert(self.hand(p) == old(self).hand(p));
                        }
                        assert(forall|p: int| !board_played(rg.board, p));
                        assert(self.wf());
                    }
                    self.send_game_state_all(out);
                    true
                },
            },
        }
    }

    /// After the eighth trick, settles the round: raw points are summed per
    /// team (floored card points, plus ten for the last trick, plus twenty
    /// for the belote), the payout formula awards both teams, the record is
    /// appended, the totals grow, and a fresh round is dealt. Before the
    /// eighth trick, and in any other phase, does nothing.
    pub fn try_end(&mut self, out: &mut Vec<Outbound>)
        requires
            old(self).wf(),
        ensures
            final(self).wf(),
            match old(self).game_state {
                GameState::Running(rg) => if rg.tricks@.len() == 8 {
                    &&& settled_round(*old(self), rg, *final(self))
                    &&& final(out)@ == old(out)@ + refresh_all_msgs(*final(self), 4)
                } else {
                    &&& *final(self) == *old(self)
                    &&& final(out)@ == old(out)@
                },
                _ => {
                    &&& *final(self) == *old(self)
                    &&& final(out)@ == old(out)@
                },
            },
    {
        let settle: Option<(usize, usize, usize, usize, bool, bool, Bid, Option<usize>, CoincheState)> = match &self.game_state {
            GameState::Running(rg) => {
                if rg.tricks.len() == 8 {
                    let trump = rg.bid.trump;
                    let mut scaled_f: u32 = 0;
                    let mut scaled_t: u32 = 0;
                    let mut swept_f = true;
                    let mut swept_t = true;
                    let mut t: usize = 0;
                    while t < 8
                        invariant
                            rg.tricks@.len() == 8,
                            forall|j: int| 0 <= j < 8 ==> trick_wf(
                                #[trigger] rg.tricks@[j],
                                trump,
                            ),
                            t <= 8,
                            scaled_f as int == team_tricks_scaled(
                                rg.tricks@.take(t as int),
                                trump,
                                false,
                            ),
                            scaled_t as int == team_tricks_scaled(
                                rg.tricks@.take(t as int),
                                trump,
                                true,
                            ),
                            scaled_f <= t * 19840,
                            scaled_t <= t * 19840,
                            swept_f == team_swept(rg.tricks@.take(t as int), false),
                            swept_t == team_swept(rg.tricks@.take(t as int), true),
                        decreases 8 - t,
                    {
                        let trick = &rg.tricks[t];
                        let trick_sum = cards_scaled_total(&trick.cards, trump);
                        let winner_team = Player::team(trick.winner_id);
                        if winner_team {
                            scaled_t = scaled_t + trick_sum;
                            swept_f = false;
                        } else {
                            scaled_f = scaled_f + trick_sum;
                            swept_t = false;
                        }
                        t += 1;
                        proof {
                            let taken = rg.tricks@.take(t as int);
                            assert(taken.drop_last() =~= rg.tricks@.take(t - 1));
                            assert(taken.last() == rg.tricks@[t - 1]);
                            assert forall|team: bool| team_swept(taken, team) == (team_swept(
                                taken.drop_last(),
                                team,
                            ) && team_of(taken.last().winner_id as int) == team) by {
                                if team_swept(taken.drop_last(), team) && team_of(
                                    taken.last().winner_id as int,
                                ) == team {
                                    assert forall|j: int| 0 <= j < taken.len() implies team_of(
                                        (#[trigger] taken[j]).winner_id as int,
                                    ) == team by {
                                        if j < taken.len() - 1 {
                                            assert(taken.drop_last()[j] == taken[j]);
                                        }
                                    }
                                }
                            }
                        }
                    }
                    proof {
                        assert(rg.tricks@.take(8) =~= rg.tricks@);
                    }
                    let mut s_f: usize = (scaled_f / 248) as usize;
                    let mut s_t: usize = (scaled_t / 248) as usize;
                    if Player::team(rg.tricks[7].winner_id) {
                        s_t = s_t + 10;
                    } else {
                        s_f = s_f + 10;
                    }
                    match rg.belote_player {
                        Some(b) => {
                            if Player::team(b) {
                                s_t = s_t + 20;
                            } else {
                                s_f = s_f + 20;
                            }
                        },
                        None => {},
                    }
                    let (taking_raw, def_raw) = if rg.team {
                        (s_t, s_f)
                    } else {
                        (s_f, s_t)
                    };
                    let taking_capot = if rg.team {
                        swept_t
                    } else {
                        swept_f
                    };
                    let (taking_award, def_award) = rg.bid.score.points(
                        taking_raw,
                        def_raw,
                        taking_capot,
                        rg.coinche_state,
                    );
                    Some((
                        taking_award,
                        def_award,
                        s_f,
                        s_t,
                        taking_capot,
                        rg.team,
                        rg.bid,
                        rg.belote_player,
                        rg.coinche_state,
                    ))
                } else {
                    None
                }
            },
            _ => None,
        };
        match settle {
            None => {},
            Some((taking_award, def_award, s_f, s_t, taking_capot, team, bid, belote_player, coinche_state)) => {
                let (award_f, award_t) = if team {
                    (def_award, taking_award)
                } else {
                    (taking_award, def_award)
                };
                self.points[0] = add_saturating(self.points[0], award_f);
                self.points[1] = add_saturating(self.points[1], award_t);
                self.round_points.push(
                    RoundPoints {
                        points: [award_f, award_t],
                        bid,
                        scored_points: [s_f, s_t],
                        team,
                        capot: taking_capot,
                        belote_player,
                        coinche_state,
                    },
                );
                self.game_state = GameState::Lobby;
                proof {
                    assert(self.round_points@.drop_last() =~= old(self).round_points@);
                    assert forall|r: int| 0 <= r < self.round_points@.len() implies round_wf(
                        #[trigger] self.round_points@[r],
                    ) by {
                        if r < self.round_points@.len() - 1 {
                            assert(self.round_points@[r] == old(self).round_points@[r]);
                        }
                    }
                }
                self.try_bidding_phase(out);
            },
        }
    }
}


/// `username_index` picks seat `i` when it carries the name and no earlier
/// seat does.
proof fn lemma_username_index_at(players: Seq<Player>, name: Seq<char>, i: int)
    requires
        0 <= i < players.len(),
        players[i].username@ == name,
        forall|j: int| 0 <= j < i ==> (#[trigger] players[j]).username@ != name,
    ensures
        username_index(players, name) == Some(i),
    decreases i,
{
    if i > 0 {
        lemma_username_index_at(players.drop_first(), name, i - 1);
    }
}

/// `username_index` finds nothing when no seat carries the name.
proof fn lemma_username_index_none(players: Seq<Player>, name: Seq<char>)
    requires
        forall|j: int| 0 <= j < players.len() ==> (#[trigger] players[j]).username@ != name,
    ensures
        username_index(players, name) is None,
    decreases players.len(),
{
    if players.len() > 0 {
        lemma_username_index_none(players.drop_first(), name);
    }
}

impl Game {
    /// Seats a player under `username`, or hands a returning name its old
    /// seat, or rejects a fifth distinct name.
    pub fn add_player(&mut self, username: String, out: &mut Vec<Outbound>) -> (r: Result<
        usize,
        GameError,
    >)
        requires
            old(self).wf(),
        ensures
            final(self).wf(),
            add_player_outcome(
                *old(self),
                *final(self),
                username@,
                r,
                old(out)@,
                final(out)@,
            ),
    {
        let n = self.players.len();
        let mut found: Option<usize> = None;
        let mut i: usize = 0;
        while i < n
            invariant
                n == self.players@.len(),
                i <= n,
                match found {
                    None => forall|j: int| 0 <= j < i ==> (
                    #[trigger] self.players@[j]).username@ != username@,
                    Some(f) => username_index(self.players@, username@) == Some(f as int) && f
                        < n,
                },
            decreases n - i,
        {
            match found {
                None => {
                    if self.players[i].username == username {
                        proof {
                            lemma_username_index_at(self.players@, username@, i as int);
                        }
                        found = Some(i);
                    }
                },
                Some(_) => {},
            }
            i += 1;
        }
        match found {
            Some(id) => {
                self.send_refresh_all(id, out);
                Ok(id)
            },
            None => {
                proof {
                    lemma_username_index_none(self.players@, username@);
                }
                if self.players.len() >= 4 {
                    Err(GameError::GameFull)
                } else {
                    let id = self.players.len();
                    self.players.push(Player::new(username));
                    proof {
                        assert forall|p: int| 0 <= p < id as int implies (
                        #[trigger] self.players@[p]).username@ == old(self).players@[p].username@
                            by {
                            assert(self.players@[p] == old(self).players@[p]);
                        }
                    }
                    if !self.try_bidding_phase(out) {
                        self.send_refresh_all(id, out);
                        proof {
                            assert(out@ =~= old(out)@ + refresh_msgs(*self, id)
                                + game_state_others_msgs(0, id));
                        }
                        let n2 = self.players.len();
                        let mut q: usize = 0;
                        while q < n2
                            invariant
                                n2 == self.players@.len(),
                                q <= n2,
                                out@ == old(out)@ + refresh_msgs(*self, id)
                                    + game_state_others_msgs(q as int, id),
                            decreases n2 - q,
                        {
                            if q != id {
                                self.send_game_state(q, out);
                            }
                            q += 1;
                            proof {
                                assert(out@ =~= old(out)@ + refresh_msgs(*self, id)
                                    + game_state_others_msgs(q as int, id));
                            }
                        }
                    }
                    Ok(id)
                }
            },
        }
    }
}


/// The seat that played the `i`-th card of a completed trick.
pub open spec fn trick_seat(t: Trick, i: int) -> int {
    (t.starting_player_id + i) % 4
}

/// How many cards a run of tricks consumed.
pub open spec fn tricks_card_total(tricks: Seq<Trick>) -> int
    decreases tricks.len(),
{
    if tricks.len() == 0 {
        0
    } else {
        tricks_card_total(tricks.drop_last()) + tricks.last().cards@.len()
    }
}

/// Tricks of four cards each consume four cards per trick.
pub proof fn lemma_tricks_card_total(tricks: Seq<Trick>)
    requires
        forall|t: int| 0 <= t < tricks.len() ==> (#[trigger] tricks[t]).cards@.len() == 4,
    ensures
        tricks_card_total(tricks) == 4 * tricks.len(),
    decreases tricks.len(),
{
    if tricks.len() > 0 {
        lemma_tricks_card_total(tricks.drop_last());
    }
}

/// The winning position of a nonempty trick lies among its cards.
pub proof fn lemma_best_card_index_in_range(cards: Seq<Card>, trump: Trump, asked: Suit)
    requires
        cards.len() >= 1,
    ensures
        0 <= best_card_index(cards, trump, asked) < cards.len(),
    decreases cards.len(),
{
    if cards.len() > 1 {
        lemma_best_card_index_in_range(cards.drop_last(), trump, asked);
    }
}

/// Every settled round on the books awarded both teams by the payout
/// formula: the bidding team `(threshold + its raw points) * multiplier`
/// on success and nothing on failure, the defenders nothing on success and
/// `160 + threshold * multiplier` on failure — no points appear or vanish
/// outside it.
pub proof fn lemma_round_award_formula(g: Game, r: int)
    requires
        g.wf(),
        0 <= r < g.round_points@.len(),
    ensures
        ({
            let rp = g.round_points@[r];
            let t = team_index(rp.team);
            let d = team_index(!rp.team);
            &&& rp.points[t] as int == rp.bid.score.taking_award(
                rp.scored_points[t] as int,
                rp.capot,
                rp.coinche_state,
            )
            &&& rp.points[d] as int == rp.bid.score.defending_award(
                rp.scored_points[t] as int,
                rp.capot,
                rp.coinche_state,
            )
        }),
{
}

/// While bidding is open the n-th entry of the bidding sequence is from
/// seat `(dealer + 1 + n) mod 4`: strict rotation from the dealer's left.
/// Entries are appended only while escalation is off, so this holds of the
/// whole sequence whatever the escalation.
pub proof fn lemma_bidding_order(g: Game, n: int)
    requires
        g.wf(),
        g.game_state is Bidding,
        0 <= n < g.spec_bids().len(),
    ensures
        g.spec_bids()[n].player_id as int == (g.dealer_id + 1 + n) % 4,
{
}

/// A recorded coinche is from the team that did not place the most recent
/// actual bid, and a recorded surcoinche from the team that did.
pub proof fn lemma_escalation_teams(g: Game)
    requires
        g.wf(),
        g.game_state is Bidding,
    ensures
        match g.game_state {
            GameState::Bidding { bids, coinche_state } => match coinche_state {
                BiddingCoincheState::No => true,
                BiddingCoincheState::Coinche { player_id, .. } => (last_actual_bid(bids@)
                    matches Some(pb) && team_of(player_id as int) != team_of(
                    pb.player_id as int,
                )),
                BiddingCoincheState::Surcoinche { coincher_id, surcoincher_id } => (
                last_actual_bid(bids@) matches Some(pb) && team_of(coincher_id as int) != team_of(
                    pb.player_id as int,
                ) && team_of(surcoincher_id as int) == team_of(pb.player_id as int)),
            },
            _ => true,
        },
{
}

/// When the eighth trick closes, the tricks hold exactly 32 cards — four
/// each — every hand is empty, and each trick's winner is one of the four
/// seats that played in it, standing at the trick's winning position.
pub proof fn lemma_round_consumes_deck(g: Game)
    requires
        g.wf(),
        g.game_state is Running,
    ensures
        match g.game_state {
            GameState::Running(rg) => {
                &&& (rg.tricks@.len() == 8 ==> tricks_card_total(rg.tricks@) == 32)
                &&& (rg.tricks@.len() == 8 ==> forall|p: int| 0 <= p < 4 ==> g.hand(p).len() == 0)
                &&& forall|t: int| 0 <= t < rg.tricks@.len() ==> ({
                    let trick = #[trigger] rg.tricks@[t];
                    let i = best_card_index(trick.cards@, rg.bid.trump, trick.cards@[0].suit);
                    &&& 0 <= i < 4
                    &&& trick.winner_id as int == trick_seat(trick, i)
                })
            },
            _ => true,
        },
{
    match g.game_state {
        GameState::Running(rg) => {
            if rg.tricks@.len() == 8 {
                lemma_tricks_card_total(rg.tricks@);
                assert(forall|p: int| !board_played(rg.board, p));
            }
            assert forall|t: int| 0 <= t < rg.tricks@.len() implies ({
                let trick = #[trigger] rg.tricks@[t];
                let i = best_card_index(trick.cards@, rg.bid.trump, trick.cards@[0].suit);
                &&& 0 <= i < 4
                &&& trick.winner_id as int == trick_seat(trick, i)
            }) by {
                let trick = rg.tricks@[t];
                lemma_best_card_index_in_range(trick.cards@, rg.bid.trump, trick.cards@[0].suit);
            }
        },
        _ => {},
    }
}


/// The greatest rank `high_suit_value` reports is on one of the cards.
proof fn lemma_high_suit_value_in_cards(cards: Seq<Card>, suit: Suit)
    ensures
        match high_suit_value(cards, suit) {
            Some(v) => cards.contains(Card { value: v, suit }),
            None => true,
        },
    decreases cards.len(),
{
    if cards.len() > 0 {
        lemma_high_suit_value_in_cards(cards.drop_last(), suit);
        match high_suit_value(cards.drop_last(), suit) {
            Some(v) => {
                if cards.drop_last().contains(Card { value: v, suit }) {
                    let j = choose|j: int|
                        0 <= j < cards.drop_last().len() && cards.drop_last()[j] == Card {
                            value: v,
                            suit,
                        };
                    assert(cards[j] == Card { value: v, suit });
                }
            },
            None => {},
        }
        match high_suit_value(cards, suit) {
            Some(v) => {
                assert(cards.contains(Card { value: v, suit })) by {
                    if cards.last() == (Card { value: v, suit }) {
                        assert(cards[cards.len() - 1] == Card { value: v, suit });
                    }
                }
            },
            None => {},
        }
    }
}

/// Whether `hand` and the cards on `b` share no card — true of every dealt
/// match, where a hand never holds a card already played.
pub open spec fn hand_off_board(hand: Seq<Card>, b: Board) -> bool {
    forall|i: int, j: int| 0 <= i < hand.len() && 0 <= j < b.cards@.len() ==> #[trigger] hand[i]
        != #[trigger] b.cards@[j]
}

/// A hand holding `suit`, none of whose cards lie on the board, holds a
/// card of `suit` that either beats the board's best of that suit in the
/// trump-aware order or is excused by the escape clause.
proof fn lemma_follow_or_escape(b: Board, hand: Seq<Card>, suit: Suit)
    requires
        has_suit(hand, suit),
        hand_off_board(hand, b),
    ensures
        exists|i: int|
            0 <= i < hand.len() && (#[trigger] hand[i]).suit == suit && (match high_suit_value(
                b.cards@,
                suit,
            ) {
                Some(best) => hand[i].value.trump_rank() > best.trump_rank() || all_below_trump(
                    hand,
                    suit,
                    best,
                ),
                None => true,
            }),
{
    let k = choose|k: int| 0 <= k < hand.len() && (#[trigger] hand[k]).suit == suit;
    match high_suit_value(b.cards@, suit) {
        Some(best) => {
            if exists|i: int|
                0 <= i < hand.len() && (#[trigger] hand[i]).suit == suit
                    && hand[i].value.trump_rank() > best.trump_rank() {
                let w = choose|i: int|
                    0 <= i < hand.len() && (#[trigger] hand[i]).suit == suit
                        && hand[i].value.trump_rank() > best.trump_rank();
                assert(hand[w].suit == suit);
            } else {
                lemma_high_suit_value_in_cards(b.cards@, suit);
                let j = choose|j: int|
                    0 <= j < b.cards@.len() && b.cards@[j] == Card { value: best, suit };
                assert forall|i: int|
                    0 <= i < hand.len() && hand[i].suit == suit implies hand[i].value.trump_rank()
                    < best.trump_rank() by {
                    if hand[i].value.trump_rank() == best.trump_rank() {
                        crate::card::lemma_ranks_injective(hand[i].value, best);
                        assert(hand[i] == b.cards@[j]);
                    }
                }
                assert(hand[k].suit == suit && all_below_trump(hand, suit, best));
            }
        },
        None => {
            assert(hand[k].suit == suit);
        },
    }
}

/// A player on turn always has a legal card: following suit under the
/// overtrump-or-escape rule, trumping the opponents' trick the same way, or
/// discarding, some card of a nonempty hand is accepted — the rules never
/// leave a player without a move.
pub proof fn lemma_legal_play_exists(b: Board, hand: Seq<Card>, trump: Trump, team: bool)
    requires
        hand.len() > 0,
        hand_off_board(hand, b),
    ensures
        exists|i: int| 0 <= i < hand.len() && #[trigger] b.play_legal(hand, trump, team, hand[i]),
{
    if b.cards@.len() == 0 {
        assert(b.play_legal(hand, trump, team, hand[0]));
    } else {
        let asked = b.cards@[0].suit;
        if has_suit(hand, asked) {
            lemma_follow_or_escape(b, hand, asked);
            let w = choose|i: int|
                0 <= i < hand.len() && (#[trigger] hand[i]).suit == asked && (match
                    high_suit_value(b.cards@, asked) {
                    Some(best) => hand[i].value.trump_rank() > best.trump_rank()
                        || all_below_trump(hand, asked, best),
                    None => true,
                });
            assert(b.play_legal(hand, trump, team, hand[w]));
        } else {
            match trump {
                Trump::Suit(trump_suit) => {
                    if team_of(b.spec_winner(trump)) != team && has_suit(hand, trump_suit) {
                        lemma_follow_or_escape(b, hand, trump_suit);
                        let w = choose|i: int|
                            0 <= i < hand.len() && (#[trigger] hand[i]).suit == trump_suit && (
                            match high_suit_value(b.cards@, trump_suit) {
                                Some(best) => hand[i].value.trump_rank() > best.trump_rank()
                                    || all_below_trump(hand, trump_suit, best),
                                None => true,
                            });
                        assert(b.play_legal(hand, trump, team, hand[w]));
                    } else {
                        assert(b.play_legal(hand, trump, team, hand[0]));
                    }
                },
                _ => {
                    assert(b.play_legal(hand, trump, team, hand[0]));
                },
            }
        }
    }
}

} // verus!
