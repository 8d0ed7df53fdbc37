//! Moves on a board, named cell by cell: where the piece on a given square
//! may go.

use crate::bitboard::{ascending, BitBoard};
use crate::board::Board;
use crate::coord::{index_of_name, is_name, name_of, Coord};
use crate::pieces::{move_set, moves, Chessman, Piece};
use vstd::prelude::*;

verus! {

/// The names of the cells in `cells`, in the same order.
pub open spec fn names(cells: Seq<int>) -> Seq<Seq<char>> {
    cells.map_values(|i: int| name_of(i))
}

/// The cells to which a piece of the given kind standing on `from` may move
/// on `board`. The piece belongs to the side that `board` records for
/// `from`; where it records none, there are no moves.
pub open spec fn board_moves(kind: Piece, board: Board, from: int) -> Set<int> {
    match board.cell(from).side {
        Some(side) => moves(
            Chessman { kind, side },
            from,
            board.held_by(side),
            board.held_by(side.other()),
        ),
        None => Set::empty(),
    }
}

/// The names of the cells of `cells`, in increasing order of index.
pub fn cell_names(cells: BitBoard) -> (r: Vec<String>)
    ensures
        r.deep_view() == names(ascending(cells@)),
{
    let list = cells.cells();
    let mut out: Vec<String> = Vec::new();
    let mut i: usize = 0;
    let ghost ids = ascending(cells@);
    while i < list.len()
        invariant
            i <= list.len(),
            ids == list@.map_values(|c: Coord| c@),
            out.len() == i,
            forall|k: int| 0 <= k < i ==> (#[trigger] out[k])@ == name_of(ids[k]),
        decreases list.len() - i,
    {
        let name = list[i].name();
        out.push(name);
        i = i + 1;
    }
    out
}

/// The cells to which a piece of the given kind standing on `from` may move
/// on `board`.
pub fn board_move_set(kind: Piece, board: &Board, from: Coord) -> (r: BitBoard)
    ensures
        r@ == board_moves(kind, *board, from@),
{
    match board.at(from).side {
        Some(side) => {
            move_set(
                Chessman { kind, side },
                from,
                board.occupancy(side),
                board.occupancy(side.opponent()),
            )
        },
        None => BitBoard::empty(),
    }
}

/// Whether `f` is a file letter `a` to `h` and `r` a rank digit `1` to `8`.
pub open spec fn is_file_and_rank(f: Seq<char>, r: Seq<char>) -> bool {
    f.len() == 1 && r.len() == 1 && is_name(f + r)
}

/// The cell in the file that the letter `f` names and the rank that the
/// digit `r` names.
fn locate(f: &str, r: &str) -> (c: Coord)
    requires
        is_file_and_rank(f@, r@),
    ensures
        c.wf(),
        c@ == index_of_name(f@ + r@),
{
    let file = Board::file_index(f);
    let rank = Board::rank_index(r);
    Coord::at((rank * 8 + file) as u8)
}

/// The names of the cells to which a piece of the given kind standing in
/// file `f` and rank `r` may move, in increasing order of cell index.
fn valid(kind: Piece, board: Board, f: &str, r: &str) -> (v: Vec<String>)
    requires
        is_file_and_rank(f@, r@),
    ensures
        v.deep_view() == names(ascending(board_moves(kind, board, index_of_name(f@ + r@)))),
{
    cell_names(board_move_set(kind, &board, locate(f, r)))
}

impl Piece {
    /// The names of the cells to which the piece standing on `position` may
    /// move, in increasing order of cell index. `position` must name a cell
    /// on which a piece stands.
    pub fn get_possible_moves(board: Board, position: &str) -> (r: Vec<String>)
        requires
            is_name(position@),
            board.cell(index_of_name(position@)).piece is Some,
        ensures
            r.deep_view() == names(
                ascending(
                    board_moves(
                        board.cell(index_of_name(position@)).piece->0,
                        board,
                        index_of_name(position@),
                    ),
                ),
            ),
    {
        let f = position.substring_char(0, 1);
        let r = position.substring_char(1, 2);
        let at = locate(f, r);
        match board.at(at).piece {
            Some(p) => p.legal_moves(board, position),
            None => unreached(),
        }
    }

    /// The names of the cells to which a piece of this kind standing on
    /// `position` may move, in increasing order of cell index. `position`
    /// must name a cell. The piece moves for the side that the board records
    /// on that cell; where the board records no side there, it has no moves.
    pub fn legal_moves(self, b: Board, position: &str) -> (r: Vec<String>)
        requires
            is_name(position@),
        ensures
            r.deep_view() == names(ascending(board_moves(self, b, index_of_name(position@)))),
    {
        let f = position.substring_char(0, 1);
        let r = position.substring_char(1, 2);
        match self {
            Piece::Pawn => Piece::pawn_valid(b, f, r),
            Piece::Knight => Piece::knight_valid(b, f, r),
            Piece::Rook => valid(Piece::Rook, b, f, r),
            Piece::Bishop => valid(Piece::Bishop, b, f, r),
            Piece::Queen => valid(Piece::Queen, b, f, r),
            Piece::King => valid(Piece::King, b, f, r),
        }
    }

    /// The names of the cells to which a pawn standing in file `f` and rank
    /// `r` may move, in increasing order of cell index: one step ahead onto a
    /// free cell, two steps ahead from its starting rank over free cells, and
    /// diagonally ahead onto a cell held by the other side.
    pub fn pawn_valid(board: Board, f: &str, r: &str) -> (v: Vec<String>)
        requires
            is_file_and_rank(f@, r@),
        ensures
            v.deep_view() == names(
                ascending(board_moves(Piece::Pawn, board, index_of_name(f@ + r@))),
            ),
    {
        valid(Piece::Pawn, board, f, r)
    }

    /// The names of the cells to which a knight standing in file `f` and
    /// rank `r` may move, in increasing order of cell index: the cells a
    /// knight's jump away that its own side does not hold.
    pub fn knight_valid(board: Board, f: &str, r: &str) -> (v: Vec<String>)
        requires
            is_file_and_rank(f@, r@),
        ensures
            v.deep_view() == names(
                ascending(board_moves(Piece::Knight, board, index_of_name(f@ + r@))),
            ),
    {
        valid(Piece::Knight, board, f, r)
    }
}

} // verus!
