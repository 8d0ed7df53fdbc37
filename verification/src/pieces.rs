//! The pieces and, for each kind, the cells it controls and the cells it
//! may move to.

use crate::bitboard::BitBoard;
use crate::coord::{is_step, on_board, rank_of, Coord};
use crate::direction::{Direction, COMPASS, DIAGONALS, JUMPS, ORTHOGONALS};
use crate::rays::{clear_before, search_all_until, search_one, sights, steps};
use vstd::prelude::*;

verus! {

/// Represents the two different teams in a game of chess.
#[derive(Debug, Copy, Clone, PartialEq, Eq, PartialOrd, Ord, Hash, Structural)]
pub enum Side {
    White,
    Black,
}

/// The six kinds of piece.
#[derive(Debug, Clone, Copy, PartialEq, Eq, Structural)]
pub enum Piece {
    King,
    Queen,
    Rook,
    Bishop,
    Knight,
    Pawn,
}

/// Every kind of piece, once.
pub const ALL_PIECES: [Piece; 6] = [
    Piece::King,
    Piece::Queen,
    Piece::Bishop,
    Piece::Knight,
    Piece::Rook,
    Piece::Pawn,
];

/// A piece of one of the two sides: one of twelve values.
#[derive(Debug, Clone, Copy, PartialEq, Eq, Structural)]
pub struct Chessman {
    pub kind: Piece,
    pub side: Side,
}

impl Side {
    /// The direction in which the pawns of this side advance.
    pub open spec fn forward(self) -> Direction {
        match self {
            Side::White => Direction::North,
            Side::Black => Direction::South,
        }
    }

    /// The two directions in which the pawns of this side capture.
    pub open spec fn pawn_attacks(self) -> Seq<Direction> {
        match self {
            Side::White => seq![Direction::NorthWest, Direction::NorthEast],
            Side::Black => seq![Direction::SouthWest, Direction::SouthEast],
        }
    }

    /// The rank index on which the pawns of this side start: the second
    /// rank for white, the seventh for black.
    pub open spec fn pawn_rank(self) -> int {
        match self {
            Side::White => 6,
            Side::Black => 1,
        }
    }

    /// The letter of the side: `w` for white, `b` for black.
    pub open spec fn letter(self) -> Seq<char> {
        match self {
            Side::White => seq!['w'],
            Side::Black => seq!['b'],
        }
    }

    /// The letter of the side: `w` for white, `b` for black.
    pub fn to_string(&self) -> (r: String)
        ensures
            r@ == self.letter(),
    {
        proof {
            reveal_strlit("w");
            reveal_strlit("b");
        }
        let r = match self {
            Side::White => String::from_str("w"),
            Side::Black => String::from_str("b"),
        };
        r
    }

    /// The other side.
    pub open spec fn other(self) -> Side {
        match self {
            Side::White => Side::Black,
            Side::Black => Side::White,
        }
    }

    /// The other side.
    pub fn opponent(self) -> (r: Side)
        ensures
            r == self.other(),
    {
        match self {
            Side::White => Side::Black,
            Side::Black => Side::White,
        }
    }
}

/// The cells a pawn of `side` on `from` attacks: the one or two cells
/// diagonally ahead of it, whatever stands on them.
pub open spec fn pawn_control(side: Side, from: int) -> Set<int> {
    steps(from, side.pawn_attacks())
}

/// The cells a pawn of `side` on `from` may move to: one step ahead onto a
/// free cell; two steps ahead from its starting rank where both cells are
/// free; and diagonally ahead onto a cell held by the other side.
pub open spec fn pawn_moves(side: Side, from: int, own: Set<int>, opp: Set<int>) -> Set<int> {
    Set::new(
        |to: int|
            {
                ||| is_step(from, side.forward(), 1, to) && clear_before(
                    from,
                    side.forward(),
                    2,
                    own.union(opp),
                )
                ||| is_step(from, side.forward(), 2, to) && rank_of(from) == side.pawn_rank()
                    && clear_before(from, side.forward(), 3, own.union(opp))
                ||| pawn_control(side, from).contains(to) && opp.contains(to) && !own.contains(to)
            },
    )
}

/// The directions in which a piece of the given kind slides; none for the
/// kinds that do not slide.
pub open spec fn slide_dirs(kind: Piece) -> Seq<Direction> {
    match kind {
        Piece::Bishop => DIAGONALS@,
        Piece::Rook => ORTHOGONALS@,
        Piece::Queen => COMPASS@,
        _ => Seq::empty(),
    }
}

/// The cells that the piece `man` on `from` attacks, given the cells held by
/// its own side and by the other side. Cells held by its own side count:
/// the piece defends them.
pub open spec fn control(man: Chessman, from: int, own: Set<int>, opp: Set<int>) -> Set<int> {
    match man.kind {
        Piece::Pawn => pawn_control(man.side, from),
        Piece::Knight => steps(from, JUMPS@),
        Piece::King => steps(from, COMPASS@),
        _ => sights(from, slide_dirs(man.kind), own.union(opp)),
    }
}

/// The cells that the piece `man` on `from` may move to, given the cells
/// held by its own side and by the other side.
pub open spec fn moves(man: Chessman, from: int, own: Set<int>, opp: Set<int>) -> Set<int> {
    match man.kind {
        Piece::Pawn => pawn_moves(man.side, from, own, opp),
        _ => control(man, from, own, opp).difference(own),
    }
}

/// The cells a pawn of `side` on `from` attacks.
pub fn pawn_control_set(side: Side, from: Coord) -> (r: BitBoard)
    ensures
        r@ == pawn_control(side, from@),
{
    match side {
        Side::White => {
            let dirs = [Direction::NorthWest, Direction::NorthEast];
            search_one(from, &dirs)
        },
        Side::Black => {
            let dirs = [Direction::SouthWest, Direction::SouthEast];
            search_one(from, &dirs)
        },
    }
}

/// The cells a pawn of `side` on `from` may move to.
pub fn pawn_move_set(side: Side, from: Coord, own: BitBoard, opp: BitBoard) -> (r: BitBoard)
    ensures
        r@ == pawn_moves(side, from@, own@, opp@),
{
    let occupied = own | opp;
    let (ahead, home): (Direction, u8) = match side {
        Side::White => (Direction::North, 6),
        Side::Black => (Direction::South, 1),
    };
    let mut pushes = BitBoard::empty();
    if let Some(one) = from.next(ahead) {
        if !occupied.contains(one) {
            pushes = pushes.with(one);
            if from.rank_index() == home {
                if let Some(two) = one.next(ahead) {
                    if !occupied.contains(two) {
                        pushes = pushes.with(two);
                    }
                }
            }
        }
    }
    let takes = (pawn_control_set(side, from) & opp) - own;
    pushes | takes
}

/// The cells a sliding piece on `from` attacks along the directions of its
/// kind; the empty set for the kinds that do not slide.
pub fn slide_control_set(kind: Piece, from: Coord, own: BitBoard, opp: BitBoard) -> (r: BitBoard)
    ensures
        r@ == sights(from@, slide_dirs(kind), own@.union(opp@)),
{
    let occupied = own | opp;
    match kind {
        Piece::Bishop => search_all_until(from, &DIAGONALS, occupied),
        Piece::Rook => search_all_until(from, &ORTHOGONALS, occupied),
        Piece::Queen => search_all_until(from, &COMPASS, occupied),
        _ => {
            let none: [Direction; 0] = [];
            search_all_until(from, &none, occupied)
        },
    }
}

/// The cells that the piece `man` on `from` attacks, where `own` holds the
/// cells of its own side and `opp` those of the other side.
pub fn control_set(man: Chessman, from: Coord, own: BitBoard, opp: BitBoard) -> (r: BitBoard)
    ensures
        r@ == control(man, from@, own@, opp@),
{
    match man.kind {
        Piece::Pawn => pawn_control_set(man.side, from),
        Piece::Knight => search_one(from, &JUMPS),
        Piece::King => search_one(from, &COMPASS),
        Piece::Bishop => slide_control_set(Piece::Bishop, from, own, opp),
        Piece::Rook => slide_control_set(Piece::Rook, from, own, opp),
        Piece::Queen => slide_control_set(Piece::Queen, from, own, opp),
    }
}

/// The cells that the piece `man` on `from` may move to, where `own` holds
/// the cells of its own side and `opp` those of the other side. No cell of
/// `own` is among them.
pub fn move_set(man: Chessman, from: Coord, own: BitBoard, opp: BitBoard) -> (r: BitBoard)
    ensures
        r@ == moves(man, from@, own@, opp@),
{
    match man.kind {
        Piece::Pawn => pawn_move_set(man.side, from, own, opp),
        _ => control_set(man, from, own, opp) - own,
    }
}

/// No piece may move onto a cell held by its own side, and every cell it
/// may move to lies on the board.
pub proof fn lemma_moves_avoid_own(man: Chessman, from: int, own: Set<int>, opp: Set<int>)
    ensures
        moves(man, from, own, opp).disjoint(own),
        forall|to: int| moves(man, from, own, opp).contains(to) ==> on_board(to),
{
}

/// Every piece but the pawn may move to exactly the cells that it controls
/// and that its own side does not hold. A pawn controls the cells diagonally
/// ahead of it whatever stands there, and may move onto one only to capture.
pub proof fn lemma_moves_from_control(man: Chessman, from: int, own: Set<int>, opp: Set<int>)
    ensures
        man.kind != Piece::Pawn ==> moves(man, from, own, opp) == control(
            man,
            from,
            own,
            opp,
        ).difference(own),
        man.kind == Piece::Pawn ==> control(man, from, own, opp) == control(
            man,
            from,
            Set::empty(),
            Set::empty(),
        ),
        man.kind == Piece::Pawn ==> moves(man, from, own, opp).intersect(
            control(man, from, own, opp),
        ) == control(man, from, own, opp).intersect(opp).difference(own),
{
}

} // verus!
