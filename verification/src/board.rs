//! The board as an 8 by 8 grid of squares, each empty or holding a piece of
//! one side.

use crate::bitboard::BitBoard;
use crate::coord::{file_of, on_board, rank_digit, rank_of, Coord};
use crate::pieces::{Piece, Side};
use vstd::prelude::*;

verus! {

/// One square of the board: the piece standing on it and the side that
/// piece belongs to, or nothing.
#[derive(Debug, Clone, Copy, PartialEq, Eq)]
pub struct Square {
    pub piece: Option<Piece>,
    pub side: Option<Side>,
}

/// The text that shows a piece of a side, or an empty square.
pub open spec fn symbol_of(square: Square) -> Seq<char> {
    match (square.side, square.piece) {
        (Some(Side::White), Some(Piece::King)) => "♚ "@,
        (Some(Side::White), Some(Piece::Queen)) => "♛ "@,
        (Some(Side::White), Some(Piece::Rook)) => "♜ "@,
        (Some(Side::White), Some(Piece::Bishop)) => "♝ "@,
        (Some(Side::White), Some(Piece::Knight)) => "♞ "@,
        (Some(Side::White), Some(Piece::Pawn)) => "♟ "@,
        (Some(Side::Black), Some(Piece::King)) => "♔ "@,
        (Some(Side::Black), Some(Piece::Queen)) => "♕ "@,
        (Some(Side::Black), Some(Piece::Rook)) => "♖ "@,
        (Some(Side::Black), Some(Piece::Bishop)) => "♗ "@,
        (Some(Side::Black), Some(Piece::Knight)) => "♘ "@,
        (Some(Side::Black), Some(Piece::Pawn)) => "♙ "@,
        _ => ". "@,
    }
}

impl Square {
    /// An empty square.
    pub fn new() -> (r: Square)
        ensures
            r.piece is None,
            r.side is None,
    {
        Square { piece: None, side: None }
    }

    /// The text that shows what stands on the square, as an owned string.
    pub fn to_string(&self) -> (r: String)
        ensures
            r@ == symbol_of(*self),
    {
        String::from_str(self.symbol())
    }

    /// The text that shows what stands on the square.
    pub fn symbol(&self) -> (r: &'static str)
        ensures
            r@ == symbol_of(*self),
    {
        match self.side {
            Some(Side::White) => match self.piece {
                Some(Piece::King) => "♚ ",
                Some(Piece::Queen) => "♛ ",
                Some(Piece::Rook) => "♜ ",
                Some(Piece::Bishop) => "♝ ",
                Some(Piece::Knight) => "♞ ",
                Some(Piece::Pawn) => "♟ ",
                None => ". ",
            },
            Some(Side::Black) => match self.piece {
                Some(Piece::King) => "♔ ",
                Some(Piece::Queen) => "♕ ",
                Some(Piece::Rook) => "♖ ",
                Some(Piece::Bishop) => "♗ ",
                Some(Piece::Knight) => "♘ ",
                Some(Piece::Pawn) => "♙ ",
                None => ". ",
            },
            None => ". ",
        }
    }
}

/// The piece that starts on the back rank in the file with index `file`.
pub open spec fn back_rank_piece(file: int) -> Piece {
    if file == 0 || file == 7 {
        Piece::Rook
    } else if file == 1 || file == 6 {
        Piece::Knight
    } else if file == 2 || file == 5 {
        Piece::Bishop
    } else if file == 3 {
        Piece::King
    } else {
        Piece::Queen
    }
}

/// What stands at the start of a game on the square in the file with index
/// `file` and the rank with index `rank`.
pub open spec fn initial_square(file: int, rank: int) -> Square {
    if rank == 0 {
        Square { piece: Some(back_rank_piece(file)), side: Some(Side::Black) }
    } else if rank == 1 {
        Square { piece: Some(Piece::Pawn), side: Some(Side::Black) }
    } else if rank == 6 {
        Square { piece: Some(Piece::Pawn), side: Some(Side::White) }
    } else if rank == 7 {
        Square { piece: Some(back_rank_piece(file)), side: Some(Side::White) }
    } else {
        Square { piece: None, side: None }
    }
}

/// The text at the end of the row of the rank with index `rank`: a space,
/// then the digit of the rank.
pub open spec fn rank_label(rank: int) -> Seq<char> {
    seq![' ', rank_digit(rank)]
}

/// The symbols of the first `files` squares of the rank with index `rank`.
pub open spec fn row_text(board: Board, rank: int, files: int) -> Seq<char>
    decreases files,
{
    if files <= 0 {
        Seq::empty()
    } else {
        row_text(board, rank, files - 1) + symbol_of(board.squares[files - 1][rank])
    }
}

/// The rows of the first `ranks` ranks, the eighth rank first: each row is
/// the symbols of its eight squares, the label of the rank and a line
/// break.
pub open spec fn rows_text(board: Board, ranks: int) -> Seq<char>
    decreases ranks,
{
    if ranks <= 0 {
        Seq::empty()
    } else {
        rows_text(board, ranks - 1) + row_text(board, ranks - 1, 8) + rank_label(ranks - 1)
            + seq!['\n']
    }
}

/// The picture of a board: its eight rows, then a line of file letters.
pub open spec fn board_text(board: Board) -> Seq<char> {
    rows_text(board, 8) + " A B C D E F G H"@
}

/// The label of the rank with index `rank`, as text.
fn rank_label_text(rank: usize) -> (r: &'static str)
    requires
        rank < 8,
    ensures
        r@ == rank_label(rank as int),
{
    proof {
        reveal_strlit(" 1");
        reveal_strlit(" 2");
        reveal_strlit(" 3");
        reveal_strlit(" 4");
        reveal_strlit(" 5");
        reveal_strlit(" 6");
        reveal_strlit(" 7");
        reveal_strlit(" 8");
    }
    let r = match rank {
        0 => " 8",
        1 => " 7",
        2 => " 6",
        3 => " 5",
        4 => " 4",
        5 => " 3",
        6 => " 2",
        _ => " 1",
    };
    r
}

/// The board: `squares[file][rank]`, with file index 0 for the `a` file and
/// rank index 0 for the eighth rank.
#[derive(Debug, Clone, Copy, PartialEq, Eq)]
pub struct Board {
    pub squares: [[Square; 8]; 8],
}

/// The squares of one file at the start of a game.
fn initial_file(file: usize) -> (r: [Square; 8])
    requires
        file < 8,
    ensures
        forall|rank: int| 0 <= rank < 8 ==> r[rank] == initial_square(file as int, rank),
{
    let back = if file == 0 || file == 7 {
        Piece::Rook
    } else if file == 1 || file == 6 {
        Piece::Knight
    } else if file == 2 || file == 5 {
        Piece::Bishop
    } else if file == 3 {
        Piece::King
    } else {
        Piece::Queen
    };
    let none = Square { piece: None, side: None };
    [
        Square { piece: Some(back), side: Some(Side::Black) },
        Square { piece: Some(Piece::Pawn), side: Some(Side::Black) },
        none,
        none,
        none,
        none,
        Square { piece: Some(Piece::Pawn), side: Some(Side::White) },
        Square { piece: Some(back), side: Some(Side::White) },
    ]
}

impl Board {
    /// What stands on the cell with index `i`.
    pub open spec fn cell(self, i: int) -> Square {
        self.squares[file_of(i)][rank_of(i)]
    }

    /// The cells on which a piece of `side` stands.
    pub open spec fn held_by(self, side: Side) -> Set<int> {
        Set::new(|i: int| on_board(i) && self.cell(i).side == Some(side))
    }

    /// A board with nothing on it.
    pub fn empty() -> (r: Board)
        ensures
            forall|file: int, rank: int|
                0 <= file < 8 && 0 <= rank < 8 ==> #[trigger] r.squares[file][rank] == (Square {
                    piece: None,
                    side: None,
                }),
    {
        let none = Square { piece: None, side: None };
        let file = [none, none, none, none, none, none, none, none];
        Board { squares: [file, file, file, file, file, file, file, file] }
    }

    /// The board at the start of a game.
    pub fn new() -> (r: Board)
        ensures
            forall|file: int, rank: int|
                0 <= file < 8 && 0 <= rank < 8 ==> #[trigger] r.squares[file][rank]
                    == initial_square(file, rank),
    {
        Board {
            squares: [
                initial_file(0),
                initial_file(1),
                initial_file(2),
                initial_file(3),
                initial_file(4),
                initial_file(5),
                initial_file(6),
                initial_file(7),
            ],
        }
    }

    /// The index of the file that the letter `file` names: 0 for `a` up to 7
    /// for `h`. `file` must be one of these eight letters.
    pub fn file_index(file: &str) -> (r: usize)
        requires
            file@.len() == 1,
            'a' <= file@[0] <= 'h',
        ensures
            r == file@[0] as int - 'a' as int,
            r < 8,
    {
        let c = file.get_char(0);
        (c as u32 - 'a' as u32) as usize
    }

    /// The index of the rank that the digit `rank` names: 0 for `8` down to
    /// 7 for `1`. `rank` must be one of these eight digits.
    pub fn rank_index(rank: &str) -> (r: usize)
        requires
            rank@.len() == 1,
            '1' <= rank@[0] <= '8',
        ensures
            r == '8' as int - rank@[0] as int,
            r < 8,
    {
        let c = rank.get_char(0);
        ('8' as u32 - c as u32) as usize
    }

    /// The picture of the board: eight rows from the eighth rank down to the
    /// first, each with the symbols of its squares and the digit of its rank,
    /// then a line of file letters.
    pub fn to_string(&self) -> (r: String)
        ensures
            r@ == board_text(*self),
    {
        let mut res = String::new();
        let mut i: usize = 0;
        while i < 8
            invariant
                i <= 8,
                res@ == rows_text(*self, i as int),
            decreases 8 - i,
        {
            let ghost start = res@;
            let mut j: usize = 0;
            while j < 8
                invariant
                    i < 8,
                    j <= 8,
                    res@ == start + row_text(*self, i as int, j as int),
                decreases 8 - j,
            {
                res.append(self.squares[j][i].symbol());
                j = j + 1;
            }
            res.append(rank_label_text(i));
            proof {
                reveal_strlit("\n");
            }
            res.append("\n");
            i = i + 1;
        }
        res.append(" A B C D E F G H");
        res
    }

    /// A copy of the board.
    pub fn get_board(&mut self) -> (r: Board)
        ensures
            r == *old(self),
            *final(self) == *old(self),
    {
        Board { squares: self.squares }
    }

    /// What stands on the cell `c`.
    pub fn at(&self, c: Coord) -> (r: Square)
        ensures
            r == self.cell(c@),
    {
        self.squares[c.file_index() as usize][c.rank_index() as usize]
    }

    /// The cells on which a piece of `side` stands.
    pub fn occupancy(&self, side: Side) -> (r: BitBoard)
        ensures
            r@ == self.held_by(side),
    {
        let mut out = BitBoard::empty();
        let mut i: u8 = 0;
        while i < 64
            invariant
                i <= 64,
                forall|j: int| out@.contains(j) <==> 0 <= j < i && self.held_by(side).contains(j),
            decreases 64 - i,
        {
            let c = Coord::at(i);
            let held = match self.at(c).side {
                Some(s) => s == side,
                None => false,
            };
            if held {
                out = out.with(c);
            }
            i = i + 1;
        }
        out
    }
}

} // verus!
