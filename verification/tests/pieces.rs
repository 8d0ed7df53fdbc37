use chess::pieces::{pawn_control_set, pawn_move_set, slide_control_set};
use chess::{control_set, move_set, BitBoard, Chessman, Coord, Piece, Side, ALL_PIECES};

fn sq(name: &str) -> Coord {
    Coord::parse(name).unwrap()
}

fn set_of(names: &[&str]) -> BitBoard {
    let mut b = BitBoard::empty();
    for n in names {
        b = b.with(sq(n));
    }
    b
}

fn white(kind: Piece) -> Chessman {
    Chessman { kind, side: Side::White }
}

fn black(kind: Piece) -> Chessman {
    Chessman { kind, side: Side::Black }
}

const NONE: BitBoard = BitBoard { bits: 0 };

#[test]
fn rook_on_d4_on_an_empty_board() {
    let m = move_set(white(Piece::Rook), sq("d4"), NONE, NONE);
    assert_eq!(m.size(), 14);
    assert_eq!(m, (BitBoard::file_mask(3) | BitBoard::rank_mask(4)).without(sq("d4")));
    assert_eq!(
        m,
        set_of(&[
            "d1", "d2", "d3", "d5", "d6", "d7", "d8", "a4", "b4", "c4", "e4", "f4", "g4", "h4"
        ])
    );
    assert_eq!(control_set(white(Piece::Rook), sq("d4"), NONE, NONE), m);
    assert_eq!(move_set(black(Piece::Rook), sq("d4"), NONE, NONE), m);
}

#[test]
fn knight_on_a1_on_an_empty_board() {
    let m = move_set(white(Piece::Knight), sq("a1"), NONE, NONE);
    assert_eq!(m.size(), 2);
    assert_eq!(m, set_of(&["b3", "c2"]));
}

#[test]
fn knight_jumps_over_pieces_and_not_onto_its_own() {
    let own = set_of(&["d4", "d5", "e5", "c5", "c4", "e4", "c3", "d3", "e3", "f5"]);
    let opp = set_of(&["b3", "e6"]);
    let m = move_set(white(Piece::Knight), sq("d4"), own, opp);
    assert_eq!(m, set_of(&["e6", "c6", "b5", "b3", "c2", "e2", "f3"]));
    let c = control_set(white(Piece::Knight), sq("d4"), own, opp);
    assert_eq!(c, set_of(&["e6", "c6", "b5", "b3", "c2", "e2", "f3", "f5"]));
}

#[test]
fn white_pawn_on_e2() {
    let m = move_set(white(Piece::Pawn), sq("e2"), NONE, NONE);
    assert_eq!(m, set_of(&["e3", "e4"]));
    let opp = set_of(&["d3", "f3"]);
    let m = move_set(white(Piece::Pawn), sq("e2"), NONE, opp);
    assert_eq!(m, set_of(&["e3", "e4", "d3", "f3"]));
    assert_eq!(pawn_move_set(Side::White, sq("e2"), NONE, opp), m);
}

#[test]
fn pawn_pushes_need_free_cells() {
    // blocked directly ahead, by either side: no push at all
    assert_eq!(move_set(white(Piece::Pawn), sq("e2"), NONE, set_of(&["e3"])), NONE);
    assert_eq!(move_set(white(Piece::Pawn), sq("e2"), set_of(&["e3"]), NONE), NONE);
    // blocked two ahead: one step only
    assert_eq!(move_set(white(Piece::Pawn), sq("e2"), NONE, set_of(&["e4"])), set_of(&["e3"]));
    assert_eq!(move_set(white(Piece::Pawn), sq("e2"), set_of(&["e4"]), NONE), set_of(&["e3"]));
    // off the starting rank: one step only
    assert_eq!(move_set(white(Piece::Pawn), sq("e3"), NONE, NONE), set_of(&["e4"]));
    assert_eq!(move_set(white(Piece::Pawn), sq("e7"), NONE, NONE), set_of(&["e8"]));
    // on the last rank there is nowhere to go
    assert_eq!(move_set(white(Piece::Pawn), sq("e8"), NONE, NONE), NONE);
    assert_eq!(move_set(black(Piece::Pawn), sq("e1"), NONE, NONE), NONE);
}

#[test]
fn black_pawn_goes_the_other_way() {
    assert_eq!(move_set(black(Piece::Pawn), sq("e7"), NONE, NONE), set_of(&["e6", "e5"]));
    assert_eq!(move_set(black(Piece::Pawn), sq("e6"), NONE, NONE), set_of(&["e5"]));
    assert_eq!(move_set(black(Piece::Pawn), sq("e2"), NONE, NONE), set_of(&["e1"]));
    assert_eq!(
        move_set(black(Piece::Pawn), sq("e7"), NONE, set_of(&["d6", "f6", "d8"])),
        set_of(&["e6", "e5", "d6", "f6"])
    );
    assert_eq!(control_set(black(Piece::Pawn), sq("e7"), NONE, NONE), set_of(&["d6", "f6"]));
}

#[test]
fn pawn_controls_its_diagonals_whatever_stands_there() {
    for (own, opp) in [
        (NONE, NONE),
        (set_of(&["d3"]), set_of(&["f3"])),
        (set_of(&["d3", "f3", "e3"]), NONE),
    ] {
        assert_eq!(control_set(white(Piece::Pawn), sq("e2"), own, opp), set_of(&["d3", "f3"]));
    }
    // no wrapping round the edge files
    assert_eq!(pawn_control_set(Side::White, sq("a2")), set_of(&["b3"]));
    assert_eq!(pawn_control_set(Side::White, sq("h2")), set_of(&["g3"]));
    assert_eq!(pawn_control_set(Side::Black, sq("a7")), set_of(&["b6"]));
    assert_eq!(pawn_control_set(Side::Black, sq("h7")), set_of(&["g6"]));
    assert_eq!(pawn_control_set(Side::White, sq("e8")), NONE);
}

#[test]
fn pawn_captures_only_the_other_side() {
    let own = set_of(&["d3"]);
    let opp = set_of(&["f3"]);
    assert_eq!(
        move_set(white(Piece::Pawn), sq("e2"), own, opp),
        set_of(&["e3", "e4", "f3"])
    );
    assert_eq!(move_set(white(Piece::Pawn), sq("a2"), NONE, set_of(&["h3", "b3"])),
        set_of(&["a3", "a4", "b3"]));
}

#[test]
fn bishop_on_c1_behind_its_own_piece_on_e3() {
    let own = set_of(&["c1", "e3"]);
    let m = move_set(white(Piece::Bishop), sq("c1"), own, NONE);
    assert_eq!(m, set_of(&["b2", "a3", "d2"]));
    assert!(!m.contains(sq("e3")));
    assert!(!m.contains(sq("f4")));
    let c = control_set(white(Piece::Bishop), sq("c1"), own, NONE);
    assert_eq!(c, set_of(&["b2", "a3", "d2", "e3"]));
    assert!(c.contains(sq("e3")));
    assert!(!c.contains(sq("f4")));
}

#[test]
fn sliding_piece_captures_the_first_opposing_piece_and_stops() {
    let opp = set_of(&["e3", "g5"]);
    let m = move_set(white(Piece::Bishop), sq("c1"), set_of(&["c1"]), opp);
    assert_eq!(m, set_of(&["b2", "a3", "d2", "e3"]));
    let m = move_set(black(Piece::Queen), sq("d4"), set_of(&["d4", "d6"]), set_of(&["f4", "b2"]));
    assert_eq!(
        m,
        set_of(&[
            "d5", "e5", "f6", "g7", "h8", "e4", "f4", "e3", "f2", "g1", "d3", "d2", "d1", "c3",
            "b2", "c4", "b4", "a4", "c5", "b6", "a7"
        ])
    );
}

#[test]
fn queen_is_rook_and_bishop_together() {
    let own = set_of(&["d4", "f6", "d2"]);
    let opp = set_of(&["b4", "g1", "d7"]);
    for i in 0..64u8 {
        let from = Coord::from_index(i).unwrap();
        let q = control_set(white(Piece::Queen), from, own, opp);
        let r = control_set(white(Piece::Rook), from, own, opp);
        let b = control_set(white(Piece::Bishop), from, own, opp);
        assert_eq!(q, r | b);
        assert!((r & b).is_empty());
        assert_eq!(slide_control_set(Piece::Queen, from, own, opp), q);
    }
    assert_eq!(slide_control_set(Piece::King, sq("d4"), own, opp), NONE);
    assert_eq!(slide_control_set(Piece::Pawn, sq("d4"), own, opp), NONE);
    assert_eq!(move_set(white(Piece::Queen), sq("d4"), NONE, NONE).size(), 27);
    assert_eq!(move_set(white(Piece::Bishop), sq("d4"), NONE, NONE).size(), 13);
}

#[test]
fn king_on_e1() {
    let m = move_set(white(Piece::King), sq("e1"), NONE, NONE);
    assert_eq!(m, set_of(&["d1", "d2", "e2", "f2", "f1"]));
    let own = set_of(&["e1", "d1", "e2"]);
    let m = move_set(white(Piece::King), sq("e1"), own, set_of(&["f2"]));
    assert_eq!(m, set_of(&["d2", "f2", "f1"]));
    let c = control_set(white(Piece::King), sq("e1"), own, set_of(&["f2"]));
    assert_eq!(c, set_of(&["d1", "d2", "e2", "f2", "f1"]));
    assert_eq!(move_set(black(Piece::King), sq("e4"), NONE, NONE).size(), 8);
}

#[test]
fn no_piece_moves_onto_its_own_side() {
    let own = BitBoard { bits: 0x00ff_0000_1824_4281 };
    let opp = BitBoard { bits: 0x8100_0042_0000_ff00 };
    for kind in ALL_PIECES {
        for side in [Side::White, Side::Black] {
            for i in 0..64u8 {
                let from = Coord::from_index(i).unwrap();
                let man = Chessman { kind, side };
                let m = move_set(man, from, own, opp);
                let c = control_set(man, from, own, opp);
                assert!((m & own).is_empty());
                assert!(!c.contains(from));
                if kind != Piece::Pawn {
                    assert_eq!(m, c - own);
                } else {
                    assert_eq!(m & c, (c & opp) - own);
                }
            }
        }
    }
}

#[test]
fn all_pieces_lists_the_six_kinds() {
    assert_eq!(
        ALL_PIECES,
        [Piece::King, Piece::Queen, Piece::Bishop, Piece::Knight, Piece::Rook, Piece::Pawn]
    );
}

#[test]
fn side_letters_and_opponents() {
    assert_eq!(Side::White.to_string(), "w");
    assert_eq!(Side::Black.to_string(), "b");
    assert_eq!(Side::White.opponent(), Side::Black);
    assert_eq!(Side::Black.opponent(), Side::White);
    assert!(Side::White < Side::Black);
}
