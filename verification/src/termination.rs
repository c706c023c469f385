//! How a game ended, and who won it.

use vstd::prelude::*;
use crate::pieces::Color;

verus! {

/// The way a game ended. The colour is that of the side that gave mate,
/// resigned or ran out of time.
#[derive(Debug, Clone, Copy, PartialEq, Eq, Hash, Structural)]
pub enum GameTermination {
    Aborted,
    CheckmateBy(Color),
    Stalemate,
    ResignationBy(Color),
    TimeoutBy(Color),
}

impl GameTermination {
    /// The winner: the side that gave mate, or the opponent of the side that
    /// resigned or ran out of time; nobody after an abort or a stalemate.
    pub fn winner(self) -> (w: Option<Color>)
        ensures
            w == (match self {
                GameTermination::Aborted => None,
                GameTermination::CheckmateBy(color) => Some(color),
                GameTermination::Stalemate => None,
                GameTermination::ResignationBy(color) => Some(color.other()),
                GameTermination::TimeoutBy(color) => Some(color.other()),
            }),
    {
        match self {
            GameTermination::Aborted => None,
            GameTermination::CheckmateBy(color) => Some(color),
            GameTermination::ResignationBy(color) => Some(color.opposite()),
            GameTermination::TimeoutBy(color) => Some(color.opposite()),
            GameTermination::Stalemate => None,
        }
    }
}

} // verus!
