//! Bitboard chess geometry, verified.
//!
//! The board is a set of 64 cells. A [`Coord`] names one of them by its index
//! `8 * rank + file`, where rank index 0 is the eighth rank and file index 0
//! is the `a` file: `a8` is cell 0 and `h1` is cell 63. A [`BitBoard`] is a
//! set of cells held in one 64-bit word, bit `i` standing for cell `i`.
//!
//! On top of these the crate offers:
//!
//! - the sixteen [`Direction`]s and single steps along them ([`Coord::next`]);
//! - rays to the edge of the board ([`search`], [`search_all`]), single steps
//!   in several directions ([`search_one`]) and lines of sight that end on the
//!   first occupied cell ([`search_until`], [`search_all_until`]);
//! - the segment between two aligned cells ([`cord`], [`CordTable`]);
//! - for every piece, the cells it attacks ([`control_set`]) and the cells it
//!   may move to ([`move_set`]);
//! - a [`Board`] of [`Square`]s, from which the moves of the piece on a named
//!   cell can be listed, and the bare frame of a [`Game`].
//!
//! Every function states what it returns over mathematical sets of cell
//! indices, and Verus proves each such statement.

pub mod bitboard;
pub mod board;
pub mod coord;
pub mod cord_table;
pub mod direction;
pub mod game;
pub mod moves;
pub mod pieces;
pub mod rays;

pub use bitboard::{BitBoard, Cells};
pub use board::{Board, Square};
pub use coord::{Coord, CoordError};
pub use cord_table::CordTable;
pub use direction::Direction;
pub use game::{Game, GameState};
pub use pieces::{control_set, move_set, Chessman, Piece, Side, ALL_PIECES};
pub use rays::{cord, search, search_all, search_all_until, search_one, search_until};
