//! The sixteen directions a piece can travel in: the eight compass
//! directions of a queen and the eight jumps of a knight.

use vstd::prelude::*;

verus! {

/// A direction of travel, named by compass points with north pointing from
/// the first rank towards the eighth and east from the `a` file towards the
/// `h` file.
#[derive(Clone, Copy, Debug, PartialEq, Eq, Hash, Structural)]
pub enum Direction {
    North,
    NorthEast,
    East,
    SouthEast,
    South,
    SouthWest,
    West,
    NorthWest,
    NorthNorthEast,
    EastNorthEast,
    EastSouthEast,
    SouthSouthEast,
    SouthSouthWest,
    WestSouthWest,
    WestNorthWest,
    NorthNorthWest,
}

impl Direction {
    /// Change of rank index made by one step. Moving north lowers the rank
    /// index, because rank index `0` is the eighth rank.
    pub open spec fn dr(self) -> int {
        match self {
            Direction::North | Direction::NorthEast | Direction::NorthWest => -1,
            Direction::South | Direction::SouthEast | Direction::SouthWest => 1,
            Direction::East | Direction::West => 0,
            Direction::NorthNorthEast | Direction::NorthNorthWest => -2,
            Direction::SouthSouthEast | Direction::SouthSouthWest => 2,
            Direction::EastNorthEast | Direction::WestNorthWest => -1,
            Direction::EastSouthEast | Direction::WestSouthWest => 1,
        }
    }

    /// Change of file index made by one step.
    pub open spec fn df(self) -> int {
        match self {
            Direction::North | Direction::South => 0,
            Direction::NorthEast | Direction::East | Direction::SouthEast => 1,
            Direction::NorthWest | Direction::West | Direction::SouthWest => -1,
            Direction::NorthNorthEast | Direction::SouthSouthEast => 1,
            Direction::NorthNorthWest | Direction::SouthSouthWest => -1,
            Direction::EastNorthEast | Direction::EastSouthEast => 2,
            Direction::WestNorthWest | Direction::WestSouthWest => -2,
        }
    }

    /// Whether this is one of the eight compass directions.
    pub open spec fn is_compass(self) -> bool {
        -1 <= self.dr() <= 1 && -1 <= self.df() <= 1
    }

    /// Change of rank index made by one step.
    pub fn rank_delta(self) -> (r: i8)
        ensures
            r == self.dr(),
    {
        match self {
            Direction::North | Direction::NorthEast | Direction::NorthWest => -1,
            Direction::South | Direction::SouthEast | Direction::SouthWest => 1,
            Direction::East | Direction::West => 0,
            Direction::NorthNorthEast | Direction::NorthNorthWest => -2,
            Direction::SouthSouthEast | Direction::SouthSouthWest => 2,
            Direction::EastNorthEast | Direction::WestNorthWest => -1,
            Direction::EastSouthEast | Direction::WestSouthWest => 1,
        }
    }

    /// Change of file index made by one step.
    pub fn file_delta(self) -> (r: i8)
        ensures
            r == self.df(),
    {
        match self {
            Direction::North | Direction::South => 0,
            Direction::NorthEast | Direction::East | Direction::SouthEast => 1,
            Direction::NorthWest | Direction::West | Direction::SouthWest => -1,
            Direction::NorthNorthEast | Direction::SouthSouthEast => 1,
            Direction::NorthNorthWest | Direction::SouthSouthWest => -1,
            Direction::EastNorthEast | Direction::EastSouthEast => 2,
            Direction::WestNorthWest | Direction::WestSouthWest => -2,
        }
    }

    /// The direction pointing the opposite way.
    pub open spec fn reversed(self) -> Direction {
        match self {
            Direction::North => Direction::South,
            Direction::NorthEast => Direction::SouthWest,
            Direction::East => Direction::West,
            Direction::SouthEast => Direction::NorthWest,
            Direction::South => Direction::North,
            Direction::SouthWest => Direction::NorthEast,
            Direction::West => Direction::East,
            Direction::NorthWest => Direction::SouthEast,
            Direction::NorthNorthEast => Direction::SouthSouthWest,
            Direction::EastNorthEast => Direction::WestSouthWest,
            Direction::EastSouthEast => Direction::WestNorthWest,
            Direction::SouthSouthEast => Direction::NorthNorthWest,
            Direction::SouthSouthWest => Direction::NorthNorthEast,
            Direction::WestSouthWest => Direction::EastNorthEast,
            Direction::WestNorthWest => Direction::EastSouthEast,
            Direction::NorthNorthWest => Direction::SouthSouthEast,
        }
    }

    /// The direction pointing the opposite way: both offsets change sign.
    pub fn opposite(self) -> (r: Direction)
        ensures
            r == self.reversed(),
            r.dr() == -self.dr(),
            r.df() == -self.df(),
    {
        match self {
            Direction::North => Direction::South,
            Direction::NorthEast => Direction::SouthWest,
            Direction::East => Direction::West,
            Direction::SouthEast => Direction::NorthWest,
            Direction::South => Direction::North,
            Direction::SouthWest => Direction::NorthEast,
            Direction::West => Direction::East,
            Direction::NorthWest => Direction::SouthEast,
            Direction::NorthNorthEast => Direction::SouthSouthWest,
            Direction::EastNorthEast => Direction::WestSouthWest,
            Direction::EastSouthEast => Direction::WestNorthWest,
            Direction::SouthSouthEast => Direction::NorthNorthWest,
            Direction::SouthSouthWest => Direction::NorthNorthEast,
            Direction::WestSouthWest => Direction::EastNorthEast,
            Direction::WestNorthWest => Direction::EastSouthEast,
            Direction::NorthNorthWest => Direction::SouthSouthEast,
        }
    }
}

/// The eight compass directions, clockwise from north.
pub const COMPASS: [Direction; 8] = [
    Direction::North,
    Direction::NorthEast,
    Direction::East,
    Direction::SouthEast,
    Direction::South,
    Direction::SouthWest,
    Direction::West,
    Direction::NorthWest,
];

/// The four orthogonal directions.
pub const ORTHOGONALS: [Direction; 4] = [
    Direction::North,
    Direction::East,
    Direction::South,
    Direction::West,
];

/// The four diagonal directions.
pub const DIAGONALS: [Direction; 4] = [
    Direction::NorthEast,
    Direction::SouthEast,
    Direction::SouthWest,
    Direction::NorthWest,
];

/// The eight knight jumps, clockwise from north-north-east.
pub const JUMPS: [Direction; 8] = [
    Direction::NorthNorthEast,
    Direction::EastNorthEast,
    Direction::EastSouthEast,
    Direction::SouthSouthEast,
    Direction::SouthSouthWest,
    Direction::WestSouthWest,
    Direction::WestNorthWest,
    Direction::NorthNorthWest,
];

} // verus!
