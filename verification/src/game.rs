//! A game in progress: the board, the side to move and the state of play.

use crate::board::{initial_square, Board};
use crate::pieces::Side;
use vstd::prelude::*;

verus! {

/// The state of play.
#[derive(Copy, Clone, Debug, PartialEq, Structural)]
pub enum GameState {
    InProgress,
    Check,
    GameOver,
}

/// A game: the board, the side to move and the state of play.
#[derive(Debug)]
pub struct Game {
    state: GameState,
    board: Board,
    active: Side,
}

impl Game {
    /// The state of play.
    pub closed spec fn state(&self) -> GameState {
        self.state
    }

    /// The board.
    pub closed spec fn board(&self) -> Board {
        self.board
    }

    /// The side to move.
    pub closed spec fn active(&self) -> Side {
        self.active
    }

    /// Initialises a new board with pieces: the game is in progress and
    /// white is to move.
    pub fn new() -> (r: Game)
        ensures
            r.state() == GameState::InProgress,
            r.active() == Side::White,
            forall|file: int, rank: int|
                0 <= file < 8 && 0 <= rank < 8 ==> #[trigger] r.board().squares[file][rank]
                    == initial_square(file, rank),
    {
        Game { board: Board::new(), state: GameState::InProgress, active: Side::White }
    }

    /// Asks for the piece on `_from` to be moved to `_to`. A game keeps no
    /// record of moves: every request is declined with `None` and the game
    /// stays as it was.
    pub fn make_move(&mut self, _from: &str, _to: &str) -> (r: Option<GameState>)
        ensures
            r is None,
            *final(self) == *old(self),
    {
        None
    }

    /// Names the piece that a pawn becomes on promotion. A game keeps no
    /// such choice: it stays as it was.
    pub fn set_promotion(&mut self, _piece: &str) -> (r: ())
        ensures
            *final(self) == *old(self),
    {
        ()
    }

    /// Get the current game state.
    pub fn get_game_state(&self) -> (r: GameState)
        ensures
            r == self.state(),
    {
        self.state
    }

    /// Asks for the moves of the piece on `_postion`. A game answers for no
    /// cell: the result is always `None`. The moves of a piece on a board are
    /// had from `Piece::get_possible_moves`.
    pub fn get_possible_moves(&self, _postion: &str) -> (r: Option<Vec<String>>)
        ensures
            r is None,
    {
        None
    }
}

} // verus!
