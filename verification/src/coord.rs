//! Board coordinates: the 64 cells of the board and their rank/file algebra.

use crate::direction::Direction;
use vstd::prelude::*;

verus! {

/// Rank of the cell with index `i`, counted from the top of the board
/// (rank `8`) downwards.
pub open spec fn rank_of(i: int) -> int {
    i / 8
}

/// File of the cell with index `i`, counted from the `a` file.
pub open spec fn file_of(i: int) -> int {
    i % 8
}

/// Whether `i` is the index of a cell of the board.
pub open spec fn on_board(i: int) -> bool {
    0 <= i < 64
}

/// Whether the cell `to` lies exactly `k` steps in direction `d` from the
/// cell `from`, both being on the board.
pub open spec fn is_step(from: int, d: Direction, k: int, to: int) -> bool {
    &&& on_board(from)
    &&& on_board(to)
    &&& rank_of(to) == rank_of(from) + k * d.dr()
    &&& file_of(to) == file_of(from) + k * d.df()
}

/// The letter of the file with index `file`: `a` for 0 up to `h` for 7.
pub open spec fn file_letter(file: int) -> char {
    ('a' as int + file) as char
}

/// The digit of the rank with index `rank`: `8` for 0 down to `1` for 7.
pub open spec fn rank_digit(rank: int) -> char {
    ('8' as int - rank) as char
}

/// The name of the cell with index `i`: its file letter, then its rank
/// digit.
pub open spec fn name_of(i: int) -> Seq<char> {
    seq![file_letter(file_of(i)), rank_digit(rank_of(i))]
}

/// Whether `s` names a cell: a file letter `a` to `h`, then a rank digit `1`
/// to `8`, and nothing else.
pub open spec fn is_name(s: Seq<char>) -> bool {
    s.len() == 2 && 'a' <= s[0] <= 'h' && '1' <= s[1] <= '8'
}

/// The index of the cell that `s` names.
pub open spec fn index_of_name(s: Seq<char>) -> int {
    8 * ('8' as int - s[1] as int) + (s[0] as int - 'a' as int)
}

/// Names and cells correspond one to one: the name of a cell names that
/// cell, and a name is the name of the cell it names.
pub proof fn lemma_name_round_trip(i: int, s: Seq<char>)
    requires
        on_board(i),
        is_name(s),
    ensures
        is_name(name_of(i)),
        index_of_name(name_of(i)) == i,
        on_board(index_of_name(s)),
        name_of(index_of_name(s)) == s,
{
}

/// Why a value was refused where a cell is made from outside data.
#[derive(Clone, Copy, Debug, PartialEq, Eq, Hash, Structural)]
pub enum CoordError {
    /// An index of 64 or more.
    OutOfRange,
    /// A name that is not a file letter `a` to `h` followed by a rank digit
    /// `1` to `8`.
    Malformed,
}

/// One of the 64 cells of the board.
///
/// A cell is identified by its index `8 * rank + file`, where rank `0` is the
/// eighth rank and file `0` is the `a` file, so that index `0` is `a8` and
/// index `63` is `h1`.
#[derive(Clone, Copy, Debug, PartialEq, Eq, Hash, Structural)]
pub struct Coord {
    idx: u8,
}

impl View for Coord {
    type V = int;

    closed spec fn view(&self) -> int {
        self.idx as int
    }
}

impl Coord {
    /// Every cell lies on the board.
    #[verifier::type_invariant]
    pub open spec fn wf(self) -> bool {
        on_board(self@)
    }

    /// The cell at the given rank and file, if both are below 8.
    pub fn new(rank: u8, file: u8) -> (r: Option<Coord>)
        ensures
            r is Some <==> rank < 8 && file < 8,
            r matches Some(c) ==> c.wf() && rank_of(c@) == rank && file_of(c@) == file,
    {
        if rank < 8 && file < 8 {
            Some(Coord { idx: rank * 8 + file })
        } else {
            None
        }
    }

    /// The cell with the given index, or `OutOfRange` for an index of 64 or
    /// more.
    pub fn from_index(index: u8) -> (r: Result<Coord, CoordError>)
        ensures
            r is Ok <==> index < 64,
            r matches Ok(c) ==> c.wf() && c@ == index,
            r matches Err(e) ==> e == CoordError::OutOfRange,
    {
        if index < 64 {
            Ok(Coord { idx: index })
        } else {
            Err(CoordError::OutOfRange)
        }
    }

    /// The cell that `name` names, or `Malformed` where `name` is not a file
    /// letter `a` to `h` followed by a rank digit `1` to `8`.
    pub fn parse(name: &str) -> (r: Result<Coord, CoordError>)
        ensures
            r is Ok <==> is_name(name@),
            r matches Ok(c) ==> c.wf() && c@ == index_of_name(name@),
            r matches Err(e) ==> e == CoordError::Malformed,
    {
        if name.unicode_len() != 2 {
            return Err(CoordError::Malformed);
        }
        let f = name.get_char(0);
        let r = name.get_char(1);
        if 'a' <= f && f <= 'h' && '1' <= r && r <= '8' {
            let file: u8 = (f as u32 - 'a' as u32) as u8;
            let rank: u8 = ('8' as u32 - r as u32) as u8;
            Ok(Coord { idx: rank * 8 + file })
        } else {
            Err(CoordError::Malformed)
        }
    }

    /// The name of the cell: its file letter, then its rank digit.
    pub fn name(&self) -> (r: String)
        ensures
            r@ == name_of(self@),
    {
        let file = file_text(self.file_index());
        let rank = rank_text(self.rank_index());
        let r = String::from_str(file).concat(rank);
        r
    }

    /// The cell with the given index, which must be below 64.
    pub(crate) fn at(index: u8) -> (c: Coord)
        requires
            index < 64,
        ensures
            c.wf(),
            c@ == index,
    {
        Coord { idx: index }
    }

    /// Rank index of the cell, `0` for the eighth rank.
    pub fn rank_index(&self) -> (r: u8)
        ensures
            r == rank_of(self@),
            r < 8,
    {
        proof {
            use_type_invariant(self);
        }
        self.idx / 8
    }

    /// File index of the cell, `0` for the `a` file.
    pub fn file_index(&self) -> (r: u8)
        ensures
            r == file_of(self@),
            r < 8,
    {
        self.idx % 8
    }

    /// Index of the cell, between 0 and 63.
    pub fn index(&self) -> (r: u8)
        ensures
            r == self@,
            r < 64,
    {
        proof {
            use_type_invariant(self);
        }
        self.idx
    }

    /// The neighbouring cell one step in direction `d`, or `None` where that
    /// step would leave the board. There is no wrapping round an edge.
    pub fn next(&self, d: Direction) -> (r: Option<Coord>)
        ensures
            r is Some <==> exists|to: int| is_step(self@, d, 1, to),
            r matches Some(c) ==> c.wf() && is_step(self@, d, 1, c@),
            r matches Some(c) ==> rank_of(c@) == rank_of(self@) + d.dr() && file_of(c@) == file_of(
                self@,
            ) + d.df(),
            r is None <==> !(0 <= rank_of(self@) + d.dr() < 8 && 0 <= file_of(self@) + d.df() < 8),
    {
        proof {
            use_type_invariant(self);
        }
        let rank: i8 = (self.idx / 8) as i8 + d.rank_delta();
        let file: i8 = (self.idx % 8) as i8 + d.file_delta();
        if 0 <= rank && rank < 8 && 0 <= file && file < 8 {
            let c = Coord { idx: (rank * 8 + file) as u8 };
            assert(is_step(self@, d, 1, c@));
            Some(c)
        } else {
            None
        }
    }
}

/// Rank and file both lie in `0..8`, no two cells share both, and every
/// pair of a rank and a file in range belongs to a cell.
pub proof fn lemma_rank_file_bijection(a: Coord, b: Coord, rank: int, file: int)
    requires
        a.wf(),
        b.wf(),
        0 <= rank < 8,
        0 <= file < 8,
    ensures
        0 <= rank_of(a@) < 8,
        0 <= file_of(a@) < 8,
        a@ == 8 * rank_of(a@) + file_of(a@),
        rank_of(a@) == rank_of(b@) && file_of(a@) == file_of(b@) ==> a == b,
        exists|c: Coord| c.wf() && rank_of(c@) == rank && file_of(c@) == file,
{
    let c = Coord { idx: (8 * rank + file) as u8 };
    assert(c.wf() && rank_of(c@) == rank && file_of(c@) == file);
}

/// A cell is known by its index.
pub proof fn lemma_view_injective(a: Coord, b: Coord)
    requires
        a@ == b@,
    ensures
        a == b,
{
}

/// The letter of the file with index `file`, as text.
pub(crate) fn file_text(file: u8) -> (r: &'static str)
    requires
        file < 8,
    ensures
        r@ == seq![file_letter(file as int)],
{
    proof {
        reveal_strlit("a");
        reveal_strlit("b");
        reveal_strlit("c");
        reveal_strlit("d");
        reveal_strlit("e");
        reveal_strlit("f");
        reveal_strlit("g");
        reveal_strlit("h");
    }
    let r = match file {
        0 => "a",
        1 => "b",
        2 => "c",
        3 => "d",
        4 => "e",
        5 => "f",
        6 => "g",
        _ => "h",
    };
    r
}

/// The digit of the rank with index `rank`, as text.
pub(crate) fn rank_text(rank: u8) -> (r: &'static str)
    requires
        rank < 8,
    ensures
        r@ == seq![rank_digit(rank as int)],
{
    proof {
        reveal_strlit("1");
        reveal_strlit("2");
        reveal_strlit("3");
        reveal_strlit("4");
        reveal_strlit("5");
        reveal_strlit("6");
        reveal_strlit("7");
        reveal_strlit("8");
    }
    let r = match rank {
        0 => "8",
        1 => "7",
        2 => "6",
        3 => "5",
        4 => "4",
        5 => "3",
        6 => "2",
        _ => "1",
    };
    r
}

} // verus!
