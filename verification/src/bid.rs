//! Bids and round payout arithmetic.
//!
//! A bid names a trump choice and a target (`80`..`180` in steps of ten, or
//! Capot). `BidScore::points` turns a finished round's raw totals into the
//! pair of awarded totals: on success the bidding team is awarded
//! `(threshold + its raw points) * multiplier` and the defenders nothing; on
//! failure the bidding team gets nothing and the defenders
//! `160 + threshold * multiplier`. The multiplier is 1, 2 or 4 for no
//! escalation, Coinche and Surcoinche.

use vstd::prelude::*;

use crate::game::CoincheState;
use crate::trump::Trump;

verus! {

#[derive(Debug, Clone, Copy, PartialEq, Eq, Structural)]
pub enum BidScore {
    _80,
    _90,
    _100,
    _110,
    _120,
    _130,
    _140,
    _150,
    _160,
    _170,
    _180,
    Capot,
}

/// The escalation multiplier: 1 with no escalation, 2 once coinched,
/// 4 once surcoinched.
pub open spec fn multiplier(coinche_state: CoincheState) -> int {
    match coinche_state {
        CoincheState::No => 1,
        CoincheState::Coinche { .. } => 2,
        CoincheState::Surcoinche { .. } => 4,
    }
}

impl BidScore {
    /// The point threshold this target demands (Capot demands 250).
    pub open spec fn threshold(self) -> int {
        match self {
            BidScore::_80 => 80,
            BidScore::_90 => 90,
            BidScore::_100 => 100,
            BidScore::_110 => 110,
            BidScore::_120 => 120,
            BidScore::_130 => 130,
            BidScore::_140 => 140,
            BidScore::_150 => 150,
            BidScore::_160 => 160,
            BidScore::_170 => 170,
            BidScore::_180 => 180,
            BidScore::Capot => 250,
        }
    }

    /// The contract succeeds when the bidding team's raw points reach the
    /// threshold, a sweep of all eight tricks counting as 250 for this check
    /// alone.
    pub open spec fn is_success(self, taking_team_points: int, taking_team_capot: bool) -> bool {
        (if taking_team_capot {
            250int
        } else {
            taking_team_points
        }) >= self.threshold()
    }

    /// What the bidding team is awarded.
    pub open spec fn taking_award(
        self,
        taking_team_points: int,
        taking_team_capot: bool,
        coinche_state: CoincheState,
    ) -> int {
        if self.is_success(taking_team_points, taking_team_capot) {
            (self.threshold() + taking_team_points) * multiplier(coinche_state)
        } else {
            0
        }
    }

    /// What the defending team is awarded.
    pub open spec fn defending_award(
        self,
        taking_team_points: int,
        taking_team_capot: bool,
        coinche_state: CoincheState,
    ) -> int {
        if self.is_success(taking_team_points, taking_team_capot) {
            0
        } else {
            160 + self.threshold() * multiplier(coinche_state)
        }
    }

    pub fn required_points(self) -> (r: usize)
        ensures
            r as int == self.threshold(),
    {
        match self {
            BidScore::_80 => 80,
            BidScore::_90 => 90,
            BidScore::_100 => 100,
            BidScore::_110 => 110,
            BidScore::_120 => 120,
            BidScore::_130 => 130,
            BidScore::_140 => 140,
            BidScore::_150 => 150,
            BidScore::_160 => 160,
            BidScore::_170 => 170,
            BidScore::_180 => 180,
            BidScore::Capot => 250,
        }
    }

    /// The awarded pair `(bidding team, defending team)` for a finished
    /// round, from the bidding team's raw points (card points plus the last
    /// trick and belote bonuses), whether it swept all eight tricks, and the
    /// escalation reached. The defenders' raw points never enter the payout;
    /// the parameter is kept because a settlement naturally has it in hand.
    pub fn points(
        self,
        taking_team_points: usize,
        def_team_points: usize,
        taking_team_capot: bool,
        coinche_state: CoincheState,
    ) -> (r: (usize, usize))
        requires
            (self.threshold() + taking_team_points) * 4 <= usize::MAX,
        ensures
            r.0 as int == self.taking_award(
                taking_team_points as int,
                taking_team_capot,
                coinche_state,
            ),
            r.1 as int == self.defending_award(
                taking_team_points as int,
                taking_team_capot,
                coinche_state,
            ),
    {
        let _ = def_team_points;
        let required_points = self.required_points();
        let mult: usize = match coinche_state {
            CoincheState::No => 1,
            CoincheState::Coinche { .. } => 2,
            CoincheState::Surcoinche { .. } => 4,
        };
        let checked: usize = if taking_team_capot {
            250
        } else {
            taking_team_points
        };
        if checked >= required_points {
            ((required_points + taking_team_points) * mult, 0)
        } else {
            (0, 160 + required_points * mult)
        }
    }
}

/// A bid: a trump choice and a target.
#[derive(Debug, Clone, Copy, PartialEq, Eq, Structural)]
pub struct Bid {
    pub trump: Trump,
    pub score: BidScore,
}

/// One entry of the bidding sequence: a seat's bid, or its pass (`None`).
#[derive(Debug, Clone, Copy)]
pub struct PlayerBid {
    pub player_id: usize,
    pub bid: Option<Bid>,
}

/// A resolved contract as shown to clients: threshold and trump.
#[derive(Debug, Clone, Copy)]
pub struct Contract {
    pub points: usize,
    pub trump: Trump,
}

} // verus!
