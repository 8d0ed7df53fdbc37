use chess::direction::{COMPASS, DIAGONALS, JUMPS, ORTHOGONALS};
use chess::{
    cord, search, search_all, search_all_until, search_one, search_until, BitBoard, Coord,
    CoordError, Direction,
};

fn sq(name: &str) -> Coord {
    Coord::parse(name).unwrap()
}

fn set_of(names: &[&str]) -> BitBoard {
    let mut b = BitBoard::empty();
    for n in names {
        b = b.with(sq(n));
    }
    b
}

#[test]
fn rank_and_file_are_in_range_and_identify_the_cell() {
    let mut seen = vec![];
    for i in 0..64u8 {
        let c = Coord::from_index(i).unwrap();
        assert!(c.rank_index() < 8);
        assert!(c.file_index() < 8);
        assert_eq!(8 * c.rank_index() + c.file_index(), i);
        assert_eq!(Coord::new(c.rank_index(), c.file_index()), Some(c));
        assert!(!seen.contains(&(c.rank_index(), c.file_index())));
        seen.push((c.rank_index(), c.file_index()));
    }
    assert_eq!(seen.len(), 64);
    for rank in 0..8u8 {
        for file in 0..8u8 {
            let c = Coord::new(rank, file).unwrap();
            assert_eq!(c.rank_index(), rank);
            assert_eq!(c.file_index(), file);
            assert_eq!(c.index(), 8 * rank + file);
        }
    }
    assert_eq!(Coord::new(8, 0), None);
    assert_eq!(Coord::new(0, 8), None);
}

#[test]
fn names_and_cells_correspond() {
    assert_eq!(sq("a8").index(), 0);
    assert_eq!(sq("h8").index(), 7);
    assert_eq!(sq("e4").index(), 36);
    assert_eq!(sq("e2").index(), 52);
    assert_eq!(sq("a1").index(), 56);
    assert_eq!(sq("h1").index(), 63);
    assert_eq!(sq("e4").rank_index(), 4);
    assert_eq!(sq("e4").file_index(), 4);
    for i in 0..64u8 {
        let c = Coord::from_index(i).unwrap();
        let name = c.name();
        assert_eq!(name.chars().count(), 2);
        assert_eq!(Coord::parse(&name), Ok(c));
    }
    assert_eq!(sq("e4").name(), "e4");
    assert_eq!(Coord::from_index(0).unwrap().name(), "a8");
    assert_eq!(Coord::from_index(63).unwrap().name(), "h1");
}

#[test]
fn malformed_names_are_refused() {
    for bad in ["", "e", "e44", "i4", "e0", "e9", "E4", "4e", " e4", "e4 ", "é4", "a08", "a+8"] {
        assert_eq!(Coord::parse(bad), Err(CoordError::Malformed), "{:?}", bad);
    }
}

#[test]
fn next_applies_the_offset_or_stops_at_the_edge() {
    let all = [
        (Direction::North, -1, 0),
        (Direction::NorthEast, -1, 1),
        (Direction::East, 0, 1),
        (Direction::SouthEast, 1, 1),
        (Direction::South, 1, 0),
        (Direction::SouthWest, 1, -1),
        (Direction::West, 0, -1),
        (Direction::NorthWest, -1, -1),
        (Direction::NorthNorthEast, -2, 1),
        (Direction::EastNorthEast, -1, 2),
        (Direction::EastSouthEast, 1, 2),
        (Direction::SouthSouthEast, 2, 1),
        (Direction::SouthSouthWest, 2, -1),
        (Direction::WestSouthWest, 1, -2),
        (Direction::WestNorthWest, -1, -2),
        (Direction::NorthNorthWest, -2, -1),
    ];
    for (d, dr, df) in all {
        assert_eq!(d.rank_delta(), dr);
        assert_eq!(d.file_delta(), df);
        assert_eq!(d.opposite().rank_delta(), -dr);
        assert_eq!(d.opposite().file_delta(), -df);
        for i in 0..64u8 {
            let c = Coord::from_index(i).unwrap();
            let rank = c.rank_index() as i8 + dr;
            let file = c.file_index() as i8 + df;
            let inside = (0..8).contains(&rank) && (0..8).contains(&file);
            match c.next(d) {
                Some(n) => {
                    assert!(inside);
                    assert_eq!(n.rank_index() as i8, rank);
                    assert_eq!(n.file_index() as i8, file);
                },
                None => assert!(!inside),
            }
        }
    }
    assert_eq!(sq("e4").next(Direction::North), Some(sq("e5")));
    assert_eq!(sq("e4").next(Direction::East), Some(sq("f4")));
    assert_eq!(sq("e4").next(Direction::SouthWest), Some(sq("d3")));
    assert_eq!(sq("g1").next(Direction::NorthNorthWest), Some(sq("f3")));
    assert_eq!(sq("h4").next(Direction::East), None);
    assert_eq!(sq("a4").next(Direction::West), None);
    assert_eq!(sq("h4").next(Direction::EastNorthEast), None);
}

#[test]
fn corners_have_three_neighbours() {
    for corner in ["a1", "h1", "a8", "h8"] {
        let open = COMPASS.iter().filter(|d| sq(corner).next(**d).is_some()).count();
        assert_eq!(open, 3, "{}", corner);
        assert_eq!(search_one(sq(corner), &COMPASS).size(), 3);
    }
    assert_eq!(search_one(sq("a1"), &COMPASS), set_of(&["a2", "b2", "b1"]));
    assert_eq!(search_one(sq("e4"), &COMPASS).size(), 8);
    assert_eq!(search_one(sq("a4"), &COMPASS).size(), 5);
}

#[test]
fn search_walks_to_the_edge() {
    assert_eq!(search(sq("d4"), Direction::North), set_of(&["d5", "d6", "d7", "d8"]));
    assert_eq!(search(sq("d4"), Direction::SouthEast), set_of(&["e3", "f2", "g1"]));
    assert_eq!(search(sq("d4"), Direction::West), set_of(&["c4", "b4", "a4"]));
    assert_eq!(search(sq("h8"), Direction::North), BitBoard::empty());
    assert_eq!(search(sq("a1"), Direction::NorthEast).size(), 7);
    assert_eq!(search(sq("a1"), Direction::NorthNorthEast), set_of(&["b3", "c5", "d7"]));
    assert!(!search(sq("d4"), Direction::North).contains(sq("d4")));
}

#[test]
fn search_all_and_search_one() {
    assert_eq!(search_all(sq("d4"), &ORTHOGONALS).size(), 14);
    assert_eq!(search_all(sq("d4"), &DIAGONALS).size(), 13);
    assert_eq!(search_all(sq("d4"), &COMPASS).size(), 27);
    assert_eq!(search_all(sq("a1"), &COMPASS).size(), 21);
    assert_eq!(
        search_all(sq("d4"), &ORTHOGONALS),
        (BitBoard::rank_mask(4) | BitBoard::file_mask(3)).without(sq("d4"))
    );
    assert_eq!(search_one(sq("d4"), &ORTHOGONALS), set_of(&["d5", "e4", "d3", "c4"]));
    assert_eq!(search_one(sq("d4"), &JUMPS).size(), 8);
    assert_eq!(search_one(sq("d4"), &[]), BitBoard::empty());
    assert_eq!(search_all(sq("d4"), &[]), BitBoard::empty());
    assert_eq!(
        search_all(sq("d4"), &[Direction::North, Direction::North]),
        search(sq("d4"), Direction::North)
    );
}

#[test]
fn sight_ends_on_the_first_occupied_cell() {
    let occ = set_of(&["d6", "d7", "f4"]);
    assert_eq!(search_until(sq("d4"), Direction::North, occ), set_of(&["d5", "d6"]));
    assert_eq!(search_until(sq("d4"), Direction::East, occ), set_of(&["e4", "f4"]));
    assert_eq!(search_until(sq("d4"), Direction::South, occ), set_of(&["d3", "d2", "d1"]));
    assert_eq!(
        search_until(sq("d4"), Direction::North, BitBoard::empty()),
        search(sq("d4"), Direction::North)
    );
    // what stands on the starting cell blocks nothing
    assert_eq!(
        search_until(sq("d4"), Direction::North, set_of(&["d4"])),
        search(sq("d4"), Direction::North)
    );
    assert_eq!(
        search_all_until(sq("d4"), &ORTHOGONALS, occ),
        set_of(&["d5", "d6", "e4", "f4", "d3", "d2", "d1", "c4", "b4", "a4"])
    );
}

#[test]
fn cord_between_aligned_cells() {
    assert_eq!(cord(sq("a1"), sq("a4")), set_of(&["a1", "a2", "a3", "a4"]));
    assert_eq!(cord(sq("c1"), sq("f4")), set_of(&["c1", "d2", "e3", "f4"]));
    assert_eq!(cord(sq("h4"), sq("e4")), set_of(&["h4", "g4", "f4", "e4"]));
    assert_eq!(cord(sq("a1"), sq("h8")).size(), 8);
    assert_eq!(cord(sq("e4"), sq("e5")), set_of(&["e4", "e5"]));
    assert_eq!(cord(sq("a8"), sq("h1")).size(), 8);
}

#[test]
fn cord_of_a_cell_with_itself_is_empty() {
    for i in 0..64u8 {
        let c = Coord::from_index(i).unwrap();
        assert!(cord(c, c).is_empty());
    }
}

#[test]
fn cord_between_unaligned_cells_is_empty() {
    assert!(cord(sq("a1"), sq("b3")).is_empty());
    assert!(cord(sq("e4"), sq("f6")).is_empty());
    assert!(cord(sq("a1"), sq("h7")).is_empty());
}

#[test]
fn cord_is_symmetric_and_matches_the_clipped_ray() {
    for i in 0..64u8 {
        for j in 0..64u8 {
            let s = Coord::from_index(i).unwrap();
            let t = Coord::from_index(j).unwrap();
            let c = cord(s, t);
            assert_eq!(c, cord(t, s));
            let dr = (t.rank_index() as i8 - s.rank_index() as i8).abs();
            let df = (t.file_index() as i8 - s.file_index() as i8).abs();
            let aligned = i != j && (dr == 0 || df == 0 || dr == df);
            if aligned {
                assert!(c.contains(s) && c.contains(t));
                assert_eq!(c.size() as i8, dr.max(df) + 1);
                let d = COMPASS
                    .iter()
                    .find(|d| search(s, **d).contains(t))
                    .unwrap();
                assert_eq!(c, search_until(s, *d, BitBoard::single(t)).with(s));
            } else {
                assert!(c.is_empty());
            }
        }
    }
}

#[test]
fn table_holds_every_cord() {
    let table = chess::CordTable::new();
    for i in 0..64u8 {
        for j in 0..64u8 {
            let s = Coord::from_index(i).unwrap();
            let t = Coord::from_index(j).unwrap();
            assert_eq!(table.cord(s, t), cord(s, t));
        }
    }
    assert_eq!(table.cord(sq("c1"), sq("f4")), set_of(&["c1", "d2", "e3", "f4"]));
    assert_eq!(table.cord(sq("c1"), sq("c1")), BitBoard::empty());
}
