//! Inbound actions, outbound notifications, and rejection reasons.
//!
//! Every inbound action either changes the match and appends notifications,
//! each addressed to a seat, or is rejected with a `GameError` and changes
//! nothing. Notifications carry seat numbers and card data; the two
//! snapshot-shaped ones (`Game`, `Cards`) name their addressee and are
//! rendered from the match state by the transport when it delivers them,
//! after the action that produced them has fully applied.

use vstd::prelude::*;

use crate::bid::{Bid, PlayerBid};
use crate::card::Card;
use crate::game::{BeloteRebelote, Game};
use crate::player::PlayerCardIdentifier;

verus! {

/// What a client can ask of the match.
#[derive(Debug)]
pub enum ClientMessage {
    Init { username: String },
    RefreshGameState,
    Bid(Option<Bid>),
    Coinche,
    SurCoinche(bool),
    PlayCard(PlayerCardIdentifier),
}

/// One notification. `Game` and `Cards` stand for the full-state and
/// own-hand snapshots of their addressee, read off the match at delivery.
#[derive(Debug, Clone, Copy)]
pub enum ServerMessage {
    /// Full match snapshot for seat `player_id`.
    Game { player_id: usize },
    /// The addressee's own hand.
    Cards { player_id: usize },
    /// How many cards seat `player_id` still holds.
    CardCount { player_id: usize, count: usize },
    PlayerBid(PlayerBid),
    Coinche { player_id: usize },
    SurCoinche { player_id: usize },
    PlayedCard {
        player_id: usize,
        card_pos: usize,
        card: Card,
        belote_rebelote: Option<BeloteRebelote>,
    },
    Trick { winner_id: usize },
}

/// A notification addressed to one seat.
#[derive(Debug, Clone, Copy)]
pub struct Outbound {
    pub to: usize,
    pub msg: ServerMessage,
}

/// Why an action was rejected. The match state is never changed by a
/// rejected action.
#[derive(Debug, Clone, Copy, PartialEq, Eq, Structural)]
pub enum GameError {
    /// An action other than Init from a connection with no seat yet.
    NotInitialized,
    /// A second Init from a seated connection.
    AlreadyInitialized,
    /// A fifth distinct player tried to join.
    GameFull,
    /// The acting seat is not the one whose turn it is.
    NotYourTurn,
    /// A bidding action outside the bidding phase.
    NotInBiddingPhase,
    /// A bid after the contract was coinched.
    AlreadyCoinched,
    /// A coinche with no opposing bid to double.
    NoBidToCoinche,
    /// A coinche after escalation already began.
    NotCoinchable,
    /// A surcoinche answer from outside the bidding team.
    NothingToSurcoinche,
    /// A surcoinche answer while no coinche is pending.
    NotSurcoinchable,
    /// The named card is not in the acting player's hand.
    InvalidCard,
    /// A card play outside the running phase.
    NotInRunningPhase,
    /// The named card may not be played on this board.
    IllegalCard,
}

impl GameError {
    /// What this rejection is reported as.
    pub open spec fn spec_message(self) -> Seq<char> {
        match self {
            GameError::NotInitialized => "Client not initialized"@,
            GameError::AlreadyInitialized => "Already initialized"@,
            GameError::GameFull => "Game is full"@,
            GameError::NotYourTurn => "Not your turn"@,
            GameError::NotInBiddingPhase => "Not in bidding phase"@,
            GameError::AlreadyCoinched => "Already coinch-ed"@,
            GameError::NoBidToCoinche => "No opponent's bid to 'coincher'"@,
            GameError::NotCoinchable => "Game is in non-coinchable state"@,
            GameError::NothingToSurcoinche => "Nothing to 'surcoincher'"@,
            GameError::NotSurcoinchable => "Game is in non-sur-coinchable state"@,
            GameError::InvalidCard => "Invalid card pos"@,
            GameError::NotInRunningPhase => "Games not in running state"@,
            GameError::IllegalCard => "Cannot play this card here"@,
        }
    }

    /// What this rejection is reported as to the acting connection.
    pub fn message(&self) -> (r: &'static str)
        ensures
            r@ == self.spec_message(),
    {
        match *self {
            GameError::NotInitialized => "Client not initialized",
            GameError::AlreadyInitialized => "Already initialized",
            GameError::GameFull => "Game is full",
            GameError::NotYourTurn => "Not your turn",
            GameError::NotInBiddingPhase => "Not in bidding phase",
            GameError::AlreadyCoinched => "Already coinch-ed",
            GameError::NoBidToCoinche => "No opponent's bid to 'coincher'",
            GameError::NotCoinchable => "Game is in non-coinchable state",
            GameError::NothingToSurcoinche => "Nothing to 'surcoincher'",
            GameError::NotSurcoinchable => "Game is in non-sur-coinchable state",
            GameError::InvalidCard => "Invalid card pos",
            GameError::NotInRunningPhase => "Games not in running state",
            GameError::IllegalCard => "Cannot play this card here",
        }
    }
}

/// The full-state snapshot notification for seat `to`.
pub open spec fn game_state_msg(to: usize) -> Outbound {
    Outbound { to, msg: ServerMessage::Game { player_id: to } }
}

/// The own-hand snapshot notification for seat `to`.
pub open spec fn cards_msg(to: usize) -> Outbound {
    Outbound { to, msg: ServerMessage::Cards { player_id: to } }
}

/// The hand-count notifications sent to `to` about every other seat below
/// `upto`, in seat order.
pub open spec fn card_count_msgs(g: Game, to: usize, upto: int) -> Seq<Outbound>
    decreases upto,
{
    if upto <= 0 {
        Seq::empty()
    } else {
        let rest = card_count_msgs(g, to, upto - 1);
        let q = upto - 1;
        if q == to as int {
            rest
        } else {
            rest.push(
                Outbound {
                    to,
                    msg: ServerMessage::CardCount {
                        player_id: q as usize,
                        count: g.players@[q].cards@.len() as usize,
                    },
                },
            )
        }
    }
}

/// Everything a full refresh sends to seat `to`: the state snapshot, the
/// other seats' hand counts, and the seat's own hand.
pub open spec fn refresh_msgs(g: Game, to: usize) -> Seq<Outbound> {
    seq![game_state_msg(to)] + card_count_msgs(g, to, g.players@.len() as int) + seq![
        cards_msg(to),
    ]
}

/// A full refresh for every seat below `upto`, in seat order.
pub open spec fn refresh_all_msgs(g: Game, upto: int) -> Seq<Outbound>
    decreases upto,
{
    if upto <= 0 {
        Seq::empty()
    } else {
        refresh_all_msgs(g, upto - 1) + refresh_msgs(g, (upto - 1) as usize)
    }
}

/// The state snapshot for every seat below `upto`, in seat order.
pub open spec fn game_state_all_msgs(upto: int) -> Seq<Outbound>
    decreases upto,
{
    if upto <= 0 {
        Seq::empty()
    } else {
        game_state_all_msgs(upto - 1).push(game_state_msg((upto - 1) as usize))
    }
}

/// One notification addressed to every seat below `upto`, in seat order.
pub open spec fn broadcast_msgs(msg: ServerMessage, upto: int) -> Seq<Outbound>
    decreases upto,
{
    if upto <= 0 {
        Seq::empty()
    } else {
        broadcast_msgs(msg, upto - 1).push(Outbound { to: (upto - 1) as usize, msg })
    }
}

impl Game {
    /// Queues the full-state snapshot for seat `to`.
    pub fn send_game_state(&self, to: usize, out: &mut Vec<Outbound>)
        ensures
            final(out)@ == old(out)@.push(game_state_msg(to)),
    {
        out.push(Outbound { to, msg: ServerMessage::Game { player_id: to } });
    }

    /// Queues, for seat `to`, the other seats' hand counts and its own hand.
    pub fn send_all_cards(&self, to: usize, out: &mut Vec<Outbound>)
        ensures
            final(out)@ == old(out)@ + card_count_msgs(
                *self,
                to,
                self.players@.len() as int,
            ) + seq![cards_msg(to)],
    {
        let n = self.players.len();
        let mut q: usize = 0;
        while q < n
            invariant
                n == self.players@.len(),
                q <= n,
                out@ == old(out)@ + card_count_msgs(*self, to, q as int),
            decreases n - q,
        {
            if q != to {
                let count = self.players[q].cards.len();
                out.push(
                    Outbound { to, msg: ServerMessage::CardCount { player_id: q, count } },
                );
            }
            q += 1;
        }
        out.push(Outbound { to, msg: ServerMessage::Cards { player_id: to } });
        proof {
            assert(out@ =~= old(out)@ + card_count_msgs(*self, to, self.players@.len() as int)
                + seq![cards_msg(to)]);
        }
    }

    /// Queues a full refresh for seat `to`.
    pub fn send_refresh_all(&self, to: usize, out: &mut Vec<Outbound>)
        ensures
            final(out)@ == old(out)@ + refresh_msgs(*self, to),
    {
        self.send_game_state(to, out);
        self.send_all_cards(to, out);
        proof {
            assert(out@ =~= old(out)@ + refresh_msgs(*self, to));
        }
    }

    /// Queues a full refresh for every seat.
    pub fn send_refresh_all_all(&self, out: &mut Vec<Outbound>)
        ensures
            final(out)@ == old(out)@ + refresh_all_msgs(*self, self.players@.len() as int),
    {
        let n = self.players.len();
        let mut p: usize = 0;
        while p < n
            invariant
                n == self.players@.len(),
                p <= n,
                out@ == old(out)@ + refresh_all_msgs(*self, p as int),
            decreases n - p,
        {
            self.send_refresh_all(p, out);
            p += 1;
            proof {
                assert(out@ =~= old(out)@ + refresh_all_msgs(*self, p as int));
            }
        }
    }

    /// Queues the full-state snapshot for every seat.
    pub fn send_game_state_all(&self, out: &mut Vec<Outbound>)
        ensures
            final(out)@ == old(out)@ + game_state_all_msgs(self.players@.len() as int),
    {
        let n = self.players.len();
        let mut p: usize = 0;
        while p < n
            invariant
                n == self.players@.len(),
                p <= n,
                out@ == old(out)@ + game_state_all_msgs(p as int),
            decreases n - p,
        {
            self.send_game_state(p, out);
            p += 1;
            proof {
                assert(out@ =~= old(out)@ + game_state_all_msgs(p as int));
            }
        }
    }

    /// Queues one notification for every seat.
    pub fn send_all(&self, msg: ServerMessage, out: &mut Vec<Outbound>)
        ensures
            final(out)@ == old(out)@ + broadcast_msgs(msg, self.players@.len() as int),
    {
        let n = self.players.len();
        let mut p: usize = 0;
        while p < n
            invariant
                n == self.players@.len(),
                p <= n,
                out@ == old(out)@ + broadcast_msgs(msg, p as int),
            decreases n - p,
        {
            out.push(Outbound { to: p, msg });
            p += 1;
            proof {
                assert(out@ =~= old(out)@ + broadcast_msgs(msg, p as int));
            }
        }
    }
}


/// What one inbound client action does: before a seat is assigned only Init
/// is accepted, and it joins (or rejoins) the match; from a seat, a refresh
/// resends everything, and the game actions behave as their own outcome
/// predicates say. The result carries the seat a successful Init assigned.
pub open spec fn handle_msg_outcome(
    pre: Game,
    post: Game,
    player_id: Option<usize>,
    msg: ClientMessage,
    r: Result<Option<usize>, GameError>,
    pre_out: Seq<Outbound>,
    post_out: Seq<Outbound>,
) -> bool {
    match player_id {
        None => match msg {
            ClientMessage::Init { username } => match r {
                Ok(assigned) => assigned is Some && crate::game::add_player_outcome(
                    pre,
                    post,
                    username@,
                    Ok(assigned->Some_0),
                    pre_out,
                    post_out,
                ),
                Err(e) => crate::game::add_player_outcome(
                    pre,
                    post,
                    username@,
                    Err(e),
                    pre_out,
                    post_out,
                ),
            },
            _ => {
                &&& r == Err::<Option<usize>, GameError>(GameError::NotInitialized)
                &&& post == pre
                &&& post_out == pre_out
            },
        },
        Some(pid) => match msg {
            ClientMessage::Init { .. } => {
                &&& r == Err::<Option<usize>, GameError>(GameError::AlreadyInitialized)
                &&& post == pre
                &&& post_out == pre_out
            },
            ClientMessage::RefreshGameState => {
                &&& r == Ok::<Option<usize>, GameError>(None)
                &&& post == pre
                &&& post_out == pre_out + refresh_msgs(pre, pid)
            },
            ClientMessage::Bid(b) => match r {
                Ok(assigned) => assigned is None && crate::actions::bid_outcome(
                    pre,
                    post,
                    pid,
                    b,
                    Ok(()),
                    pre_out,
                    post_out,
                ),
                Err(e) => crate::actions::bid_outcome(pre, post, pid, b, Err(e), pre_out, post_out),
            },
            ClientMessage::Coinche => match r {
                Ok(assigned) => assigned is None && crate::actions::coinche_outcome(
                    pre,
                    post,
                    pid,
                    Ok(()),
                    pre_out,
                    post_out,
                ),
                Err(e) => crate::actions::coinche_outcome(pre, post, pid, Err(e), pre_out, post_out),
            },
            ClientMessage::SurCoinche(accept) => match r {
                Ok(assigned) => assigned is None && crate::actions::surcoinche_outcome(
                    pre,
                    post,
                    pid,
                    accept,
                    Ok(()),
                    pre_out,
                    post_out,
                ),
                Err(e) => crate::actions::surcoinche_outcome(
                    pre,
                    post,
                    pid,
                    accept,
                    Err(e),
                    pre_out,
                    post_out,
                ),
            },
            ClientMessage::PlayCard(card_identifier) => match r {
                Ok(assigned) => assigned is None && crate::actions::play_card_outcome(
                    pre,
                    post,
                    pid,
                    card_identifier,
                    Ok(()),
                    pre_out,
                    post_out,
                ),
                Err(e) => crate::actions::play_card_outcome(
                    pre,
                    post,
                    pid,
                    card_identifier,
                    Err(e),
                    pre_out,
                    post_out,
                ),
            },
        },
    }
}

impl Game {
    /// Handles one inbound action from the connection seated at `player_id`
    /// (or not yet seated). On success for Init, returns the seat assigned.
    pub fn handle_msg(
        &mut self,
        player_id: Option<usize>,
        msg: ClientMessage,
        out: &mut Vec<Outbound>,
    ) -> (r: Result<Option<usize>, GameError>)
        requires
            old(self).wf(),
            match player_id {
                Some(pid) => pid < old(self).players@.len(),
                None => true,
            },
        ensures
            final(self).wf(),
            handle_msg_outcome(
                *old(self),
                *final(self),
                player_id,
                msg,
                r,
                old(out)@,
                final(out)@,
            ),
    {
        match player_id {
            None => match msg {
                ClientMessage::Init { username } => match self.add_player(username, out) {
                    Ok(id) => Ok(Some(id)),
                    Err(e) => Err(e),
                },
                _ => Err(GameError::NotInitialized),
            },
            Some(pid) => match msg {
                ClientMessage::Init { .. } => Err(GameError::AlreadyInitialized),
                ClientMessage::RefreshGameState => {
                    self.send_refresh_all(pid, out);
                    Ok(None)
                },
                ClientMessage::Bid(b) => match self.bid(pid, b, out) {
                    Ok(()) => Ok(None),
                    Err(e) => Err(e),
                },
                ClientMessage::Coinche => match self.coincher(pid, out) {
                    Ok(()) => Ok(None),
                    Err(e) => Err(e),
                },
                ClientMessage::SurCoinche(accept) => match self.surcoincher(pid, accept, out) {
                    Ok(()) => Ok(None),
                    Err(e) => Err(e),
                },
                ClientMessage::PlayCard(card_identifier) => match self.play_card(
                    pid,
                    card_identifier,
                    out,
                ) {
                    Ok(()) => Ok(None),
                    Err(e) => Err(e),
                },
            },
        }
    }
}

} // verus!
