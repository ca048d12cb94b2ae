//! The record of a finished match: who won, and what every turn looked like.

use vstd::prelude::*;
use crate::tank::Tank;

verus! {

/// How the match ended for one participant.
#[derive(Clone, Copy, Debug, PartialEq, Eq, Structural)]
pub enum WinStatus {
    Won,
    Lost,
    Draw,
}

/// Every participant's state at the start of one turn, in roster order.
#[derive(Debug)]
pub struct Shot {
    pub players: Vec<Tank>,
}

/// The outcome of a match: names and results in roster order, and one shot
/// per turn in turn order.
#[derive(Debug)]
pub struct Report {
    pub player_names: Vec<String>,
    pub match_results: Vec<WinStatus>,
    pub replay: Vec<Shot>,
}

} // verus!
