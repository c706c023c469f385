//! Engines: strategies that pick a move for the side to move.

use vstd::prelude::*;
use crate::board_repr::BoardRepr;
use crate::pieces::movement::{get_all_legal_moves, list_get, Move, MOVES_CAPACITY};

verus! {

/// A strategy that picks a move. An engine carries its own configuration
/// and keeps nothing of the boards it is shown.
pub trait Engine: Clone + Send + Sync {
    fn new() -> Self;

    /// The move that the engine picks on `board_repr` for the side to move,
    /// which must have a legal move.
    fn think(&mut self, board_repr: &BoardRepr) -> (mv: Move)
        requires
            board_repr@.kings_kept(board_repr@.turn),
            board_repr@.pseudo_below(board_repr@.turn, 64).len() <= MOVES_CAPACITY,
            board_repr@.legal_moves(board_repr@.turn).len() > 0,
        ensures
            board_repr@.legal_moves(board_repr@.turn).contains(mv),
    ;
}

/// The engine that plays the first legal move.
#[derive(Clone, Copy)]
pub struct FirstMove {}

impl Engine for FirstMove {
    fn new() -> Self {
        FirstMove {  }
    }

    fn think(&mut self, board_repr: &BoardRepr) -> (mv: Move)
        ensures
            mv == board_repr@.legal_moves(board_repr@.turn)[0],
    {
        let moves = get_all_legal_moves(board_repr, board_repr.side_to_move);
        list_get(&moves, 0)
    }
}

/// The configuration of the engine that searches the game tree to a fixed
/// depth with alpha-beta pruning.
#[derive(Clone, Copy)]
pub struct AlphaBetaMinimax {
    depth: i64,
}

impl AlphaBetaMinimax {
    /// The depth to which the search goes, in plies.
    pub closed spec fn plies(&self) -> int {
        self.depth as int
    }

    /// The engine with the default depth of 2 plies.
    pub fn new() -> (e: AlphaBetaMinimax)
        ensures
            e.plies() == 2,
    {
        AlphaBetaMinimax { depth: 2 }
    }

    /// The depth to which the search goes, in plies.
    pub fn depth(&self) -> (d: i64)
        ensures
            d == self.plies(),
    {
        self.depth
    }

    /// Whether the search maximises on `board_repr`: it does when White is
    /// to move.
    pub fn maximizes(board_repr: &BoardRepr) -> (b: bool)
        ensures
            b == (board_repr@.turn == crate::pieces::Color::White),
    {
        match board_repr.side_to_move {
            crate::pieces::Color::White => true,
            crate::pieces::Color::Black => false,
        }
    }
}

} // verus!
