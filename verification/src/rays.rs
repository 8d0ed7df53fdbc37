//! Straight lines on the board: single steps, full rays, rays cut short by
//! the first occupied cell, and the segment between two aligned cells.

use crate::bitboard::BitBoard;
use crate::coord::{file_of, is_step, on_board, rank_of, Coord};
use crate::direction::{Direction, COMPASS};
use vstd::prelude::*;

verus! {

/// The cells one or more steps away from `from` in direction `d`.
pub open spec fn ray(from: int, d: Direction) -> Set<int> {
    Set::new(|to: int| exists|k: int| k >= 1 && is_step(from, d, k, to))
}

/// The cells one step away from `from` in one of the directions `dirs`.
pub open spec fn steps(from: int, dirs: Seq<Direction>) -> Set<int> {
    Set::new(|to: int| exists|n: int| 0 <= n < dirs.len() && is_step(from, dirs[n], 1, to))
}

/// The cells on the ray from `from` in one of the directions `dirs`.
pub open spec fn rays(from: int, dirs: Seq<Direction>) -> Set<int> {
    Set::new(|to: int| exists|n: int| 0 <= n < dirs.len() && ray(from, dirs[n]).contains(to))
}

/// Whether every cell fewer than `k` steps away from `from` in direction `d`
/// is free of the pieces in `occupied`.
pub open spec fn clear_before(from: int, d: Direction, k: int, occupied: Set<int>) -> bool {
    forall|j: int, mid: int|
        1 <= j < k && #[trigger] is_step(from, d, j, mid) ==> !occupied.contains(mid)
}

/// The cells seen from `from` in direction `d`: those on the ray up to and
/// including the first cell in `occupied`.
pub open spec fn sight(from: int, d: Direction, occupied: Set<int>) -> Set<int> {
    Set::new(
        |to: int|
            exists|k: int|
                k >= 1 && is_step(from, d, k, to) && clear_before(from, d, k, occupied),
    )
}

/// The cells seen from `from` in one of the directions `dirs`.
pub open spec fn sights(from: int, dirs: Seq<Direction>, occupied: Set<int>) -> Set<int> {
    Set::new(
        |to: int| exists|n: int| 0 <= n < dirs.len() && sight(from, dirs[n], occupied).contains(to),
    )
}

/// The segment between `source` and `target`, both ends included, where
/// `target` lies on a rank, file or diagonal through `source` and differs
/// from it; no cells otherwise.
pub open spec fn cord_set(source: int, target: int) -> Set<int> {
    Set::new(
        |c: int| exists|d: Direction, k: int, j: int|
            d.is_compass() && 0 <= j <= k && 1 <= k && is_step(source, d, k, target) && is_step(
                source,
                d,
                j,
                c,
            ),
    )
}

/// A cell is determined by where it started, the direction and the number
/// of steps.
pub proof fn lemma_step_unique(from: int, d: Direction, k: int, a: int, b: int)
    requires
        is_step(from, d, k, a),
        is_step(from, d, k, b),
    ensures
        a == b,
{
}

/// One more step after `k` steps makes `k + 1` steps.
pub proof fn lemma_step_compose(from: int, d: Direction, k: int, mid: int, to: int)
    requires
        is_step(from, d, k, mid),
        is_step(mid, d, 1, to),
    ensures
        is_step(from, d, k + 1, to),
{
    assert((k + 1) * d.dr() == k * d.dr() + d.dr()) by (nonlinear_arith);
    assert((k + 1) * d.df() == k * d.df() + d.df()) by (nonlinear_arith);
}

/// No walk on the board is longer than seven steps, and only a walk of no
/// steps ends where it began.
pub proof fn lemma_step_bound(from: int, d: Direction, k: int, to: int)
    requires
        is_step(from, d, k, to),
        0 <= k,
    ensures
        k <= 7,
        to == from <==> k == 0,
{
    assert(d.dr() != 0 || d.df() != 0);
}

/// The board is convex: between two cells of a walk every step of the walk
/// stays on the board.
pub proof fn lemma_step_between(
    from: int,
    d: Direction,
    n: int,
    a: int,
    k: int,
    c: int,
    m: int,
) -> (b: int)
    requires
        is_step(from, d, n, a),
        is_step(from, d, k, c),
        n <= m <= k,
    ensures
        is_step(from, d, m, b),
{
    let r = d.dr();
    let f = d.df();
    assert((n * r <= m * r <= k * r) || (k * r <= m * r <= n * r)) by (nonlinear_arith)
        requires
            n <= m <= k,
    ;
    assert((n * f <= m * f <= k * f) || (k * f <= m * f <= n * f)) by (nonlinear_arith)
        requires
            n <= m <= k,
    ;
    let b = 8 * (rank_of(from) + m * r) + (file_of(from) + m * f);
    b
}

/// Along compass directions there is one way at most from one cell to
/// another.
pub proof fn lemma_compass_unique(s: int, t: int, d1: Direction, k1: int, d2: Direction, k2: int)
    requires
        d1.is_compass(),
        d2.is_compass(),
        1 <= k1,
        1 <= k2,
        is_step(s, d1, k1, t),
        is_step(s, d2, k2, t),
    ensures
        d1 == d2,
        k1 == k2,
{
    let r1 = d1.dr();
    let f1 = d1.df();
    let r2 = d2.dr();
    let f2 = d2.df();
    assert(r1 == r2 && f1 == f2 && k1 == k2) by (nonlinear_arith)
        requires
            1 <= k1,
            1 <= k2,
            -1 <= r1 <= 1,
            -1 <= f1 <= 1,
            -1 <= r2 <= 1,
            -1 <= f2 <= 1,
            r1 != 0 || f1 != 0,
            r2 != 0 || f2 != 0,
            k1 * r1 == k2 * r2,
            k1 * f1 == k2 * f2,
    ;
}

/// Where no step leads on from the end of a walk of `n` steps, no longer
/// walk in that direction exists.
pub proof fn lemma_edge_ends_ray(from: int, d: Direction, n: int, cur: int)
    requires
        0 <= n,
        is_step(from, d, n, cur),
        forall|to: int| !is_step(cur, d, 1, to),
    ensures
        forall|k: int, to: int| k > n ==> !is_step(from, d, k, to),
{
    assert forall|k: int, to: int| k > n implies !is_step(from, d, k, to) by {
        if is_step(from, d, k, to) {
            let b = lemma_step_between(from, d, n, cur, k, to, n + 1);
            assert((n + 1) * d.dr() == n * d.dr() + d.dr()) by (nonlinear_arith);
            assert((n + 1) * d.df() == n * d.df() + d.df()) by (nonlinear_arith);
            assert(is_step(cur, d, 1, b));
        }
    }
}

/// All cells reached from `from` by walking in direction `d` until the edge
/// of the board; `from` itself is not among them.
pub fn search(from: Coord, d: Direction) -> (r: BitBoard)
    ensures
        r@ == ray(from@, d),
{
    let mut out = BitBoard::empty();
    let mut cur = from;
    let ghost mut n: int = 0;
    proof {
        use_type_invariant(from);
    }
    loop
        invariant_except_break
            0 <= n <= 7,
            cur.wf(),
            is_step(from@, d, n, cur@),
            forall|to: int|
                out@.contains(to) <==> exists|k: int| 1 <= k <= n && is_step(from@, d, k, to),
        ensures
            out@ == ray(from@, d),
        decreases 7 - n,
    {
        match cur.next(d) {
            Some(c) => {
                proof {
                    lemma_step_compose(from@, d, n, cur@, c@);
                    lemma_step_bound(from@, d, n + 1, c@);
                }
                out = out.with(c);
                proof {
                    n = n + 1;
                }
                cur = c;
            },
            None => {
                proof {
                    lemma_edge_ends_ray(from@, d, n, cur@);
                }
                break ;
            },
        }
    }
    out
}

/// The cells seen from `from` in direction `d` past nothing that stands in
/// `occupied`: the walk takes in the first occupied cell and stops there.
pub fn search_until(from: Coord, d: Direction, occupied: BitBoard) -> (r: BitBoard)
    ensures
        r@ == sight(from@, d, occupied@),
{
    let mut out = BitBoard::empty();
    let mut cur = from;
    let ghost mut n: int = 0;
    let ghost occ = occupied@;
    proof {
        use_type_invariant(from);
    }
    loop
        invariant_except_break
            0 <= n <= 7,
            cur.wf(),
            occ == occupied@,
            is_step(from@, d, n, cur@),
            clear_before(from@, d, n + 1, occ),
            forall|to: int|
                out@.contains(to) <==> exists|k: int| 1 <= k <= n && is_step(from@, d, k, to),
        ensures
            out@ == sight(from@, d, occupied@),
        decreases 7 - n,
    {
        match cur.next(d) {
            Some(c) => {
                proof {
                    lemma_step_compose(from@, d, n, cur@, c@);
                    lemma_step_bound(from@, d, n + 1, c@);
                }
                out = out.with(c);
                if occupied.contains(c) {
                    break ;
                }
                proof {
                    n = n + 1;
                }
                cur = c;
            },
            None => {
                proof {
                    lemma_edge_ends_ray(from@, d, n, cur@);
                }
                break ;
            },
        }
    }
    out
}

/// The neighbours of `from` one step away in the directions `dirs`.
pub fn search_one(from: Coord, dirs: &[Direction]) -> (r: BitBoard)
    ensures
        r@ == steps(from@, dirs@),
{
    let mut out = BitBoard::empty();
    let mut i: usize = 0;
    while i < dirs.len()
        invariant
            i <= dirs.len(),
            out@ == steps(from@, dirs@.take(i as int)),
        decreases dirs.len() - i,
    {
        match from.next(dirs[i]) {
            Some(c) => {
                out = out.with(c);
            },
            None => {},
        }
        proof {
            let more = dirs@.take(i + 1);
            assert forall|to: int| out@.contains(to) <==> steps(from@, more).contains(to) by {
                if is_step(from@, dirs[i as int], 1, to) {
                    assert(is_step(from@, more[i as int], 1, to));
                }
            }
        }
        i = i + 1;
    }
    proof {
        assert(dirs@.take(dirs.len() as int) =~= dirs@);
    }
    out
}

/// The cells on the rays from `from` in the directions `dirs`.
pub fn search_all(from: Coord, dirs: &[Direction]) -> (r: BitBoard)
    ensures
        r@ == rays(from@, dirs@),
{
    let mut out = BitBoard::empty();
    let mut i: usize = 0;
    while i < dirs.len()
        invariant
            i <= dirs.len(),
            out@ == rays(from@, dirs@.take(i as int)),
        decreases dirs.len() - i,
    {
        out = out | search(from, dirs[i]);
        proof {
            let more = dirs@.take(i + 1);
            assert forall|to: int| out@.contains(to) <==> rays(from@, more).contains(to) by {
                if ray(from@, dirs[i as int]).contains(to) {
                    assert(ray(from@, more[i as int]).contains(to));
                }
            }
        }
        i = i + 1;
    }
    proof {
        assert(dirs@.take(dirs.len() as int) =~= dirs@);
    }
    out
}

/// The cells seen from `from` in the directions `dirs`, each line of sight
/// ending on the first cell in `occupied`.
pub fn search_all_until(from: Coord, dirs: &[Direction], occupied: BitBoard) -> (r: BitBoard)
    ensures
        r@ == sights(from@, dirs@, occupied@),
{
    let mut out = BitBoard::empty();
    let mut i: usize = 0;
    let ghost occ = occupied@;
    while i < dirs.len()
        invariant
            i <= dirs.len(),
            occ == occupied@,
            out@ == sights(from@, dirs@.take(i as int), occ),
        decreases dirs.len() - i,
    {
        out = out | search_until(from, dirs[i], occupied);
        proof {
            let more = dirs@.take(i + 1);
            assert forall|to: int| out@.contains(to) <==> sights(from@, more, occ).contains(
                to,
            ) by {
                if sight(from@, dirs[i as int], occ).contains(to) {
                    assert(sight(from@, more[i as int], occ).contains(to));
                }
            }
        }
        i = i + 1;
    }
    proof {
        assert(dirs@.take(dirs.len() as int) =~= dirs@);
    }
    out
}

/// The cells from `from` along direction `d` up to `target`, both ends
/// included, where the walk in that direction meets `target`; `None` where it
/// reaches the edge of the board first.
fn walk_to(from: Coord, d: Direction, target: Coord) -> (r: Option<BitBoard>)
    ensures
        r is Some <==> exists|k: int| 1 <= k && is_step(from@, d, k, target@),
        r matches Some(b) ==> forall|c: int|
            b@.contains(c) <==> exists|k: int, j: int|
                0 <= j <= k && 1 <= k && is_step(from@, d, k, target@) && is_step(from@, d, j, c),
{
    let mut out = BitBoard::single(from);
    let mut cur = from;
    let ghost mut n: int = 0;
    proof {
        use_type_invariant(from);
        use_type_invariant(target);
    }
    loop
        invariant
            0 <= n <= 7,
            cur.wf(),
            target.wf(),
            is_step(from@, d, n, cur@),
            forall|k: int| 1 <= k <= n ==> !is_step(from@, d, k, target@),
            forall|c: int|
                out@.contains(c) <==> exists|j: int| 0 <= j <= n && is_step(from@, d, j, c),
        decreases 7 - n,
    {
        match cur.next(d) {
            Some(c) => {
                proof {
                    lemma_step_compose(from@, d, n, cur@, c@);
                    lemma_step_bound(from@, d, n + 1, c@);
                }
                out = out.with(c);
                if c.index() == target.index() {
                    proof {
                        assert forall|to: int|
                            out@.contains(to) <==> exists|k: int, j: int|
                                0 <= j <= k && 1 <= k && is_step(from@, d, k, target@) && is_step(
                                    from@,
                                    d,
                                    j,
                                    to,
                                ) by {
                            if exists|k: int, j: int|
                                0 <= j <= k && 1 <= k && is_step(from@, d, k, target@) && is_step(
                                    from@,
                                    d,
                                    j,
                                    to,
                                ) {
                                let (k, j) = choose|k: int, j: int|
                                    0 <= j <= k && 1 <= k && is_step(from@, d, k, target@)
                                        && is_step(from@, d, j, to);
                                lemma_walk_length_unique(from@, d, k, n + 1, target@);
                            }
                        }
                    }
                    return Some(out);
                }
                proof {
                    n = n + 1;
                }
                cur = c;
            },
            None => {
                proof {
                    lemma_edge_ends_ray(from@, d, n, cur@);
                }
                return None;
            },
        }
    }
}

/// A walk in one direction reaches a given cell after one number of steps
/// only.
pub proof fn lemma_walk_length_unique(from: int, d: Direction, k1: int, k2: int, to: int)
    requires
        is_step(from, d, k1, to),
        is_step(from, d, k2, to),
    ensures
        k1 == k2,
{
    assert(d.dr() != 0 || d.df() != 0);
}

/// The segment between `source` and `target`, both ends included, where the
/// two differ and share a rank, a file or a diagonal; the empty set
/// otherwise.
pub fn cord(source: Coord, target: Coord) -> (r: BitBoard)
    ensures
        r@ == cord_set(source@, target@),
{
    let dirs = COMPASS;
    let mut i: usize = 0;
    while i < 8
        invariant
            i <= 8,
            dirs == COMPASS,
            forall|n: int, k: int|
                0 <= n < i && 1 <= k ==> !#[trigger] is_step(source@, dirs[n], k, target@),
        decreases 8 - i,
    {
        let d = dirs[i];
        match walk_to(source, d, target) {
            Some(b) => {
                proof {
                    let k0 = choose|k: int| 1 <= k && is_step(source@, d, k, target@);
                    assert forall|c: int| b@.contains(c) <==> cord_set(
                        source@,
                        target@,
                    ).contains(c) by {
                        if b@.contains(c) {
                            let (k, j) = choose|k: int, j: int|
                                0 <= j <= k && 1 <= k && is_step(source@, d, k, target@)
                                    && is_step(source@, d, j, c);
                        }
                        if cord_set(source@, target@).contains(c) {
                            let (d2, k, j) = choose|d2: Direction, k: int, j: int|
                                d2.is_compass() && 0 <= j <= k && 1 <= k && is_step(
                                    source@,
                                    d2,
                                    k,
                                    target@,
                                ) && is_step(source@, d2, j, c);
                            lemma_compass_unique(source@, target@, d, k0, d2, k);
                        }
                    }
                }
                return b;
            },
            None => {},
        }
        i = i + 1;
    }
    BitBoard::empty()
}

/// Whether two cells share a rank, a file or a diagonal.
pub open spec fn aligned(s: int, t: int) -> bool {
    let r = rank_of(t) - rank_of(s);
    let f = file_of(t) - file_of(s);
    r == 0 || f == 0 || r == f || r == -f
}

/// The compass direction whose offsets have the signs of `r` and `f`.
pub open spec fn toward(r: int, f: int) -> Direction {
    if r < 0 {
        if f < 0 {
            Direction::NorthWest
        } else if f == 0 {
            Direction::North
        } else {
            Direction::NorthEast
        }
    } else if r == 0 {
        if f < 0 {
            Direction::West
        } else {
            Direction::East
        }
    } else {
        if f < 0 {
            Direction::SouthWest
        } else if f == 0 {
            Direction::South
        } else {
            Direction::SouthEast
        }
    }
}

/// A cell has no segment to itself.
pub proof fn lemma_cord_of_self(s: int)
    ensures
        cord_set(s, s) == Set::<int>::empty(),
{
    assert forall|c: int| !cord_set(s, s).contains(c) by {
        if cord_set(s, s).contains(c) {
            let (d, k, j) = choose|d: Direction, k: int, j: int|
                d.is_compass() && 0 <= j <= k && 1 <= k && is_step(s, d, k, s) && is_step(
                    s,
                    d,
                    j,
                    c,
                );
            lemma_step_bound(s, d, k, s);
        }
    }
}

/// Walking back from the far end of a segment passes the same cells.
proof fn lemma_cord_subset(s: int, t: int)
    ensures
        cord_set(s, t).subset_of(cord_set(t, s)),
{
    assert forall|c: int| cord_set(s, t).contains(c) implies cord_set(t, s).contains(c) by {
        let (d, k, j) = choose|d: Direction, k: int, j: int|
            d.is_compass() && 0 <= j <= k && 1 <= k && is_step(s, d, k, t) && is_step(s, d, j, c);
        let e = d.reversed();
        let r = d.dr();
        let f = d.df();
        assert(k * (-r) == -(k * r) && (k - j) * (-r) == j * r - k * r) by (nonlinear_arith);
        assert(k * (-f) == -(k * f) && (k - j) * (-f) == j * f - k * f) by (nonlinear_arith);
        assert(is_step(t, e, k, s));
        assert(is_step(t, e, k - j, c));
    }
}

/// The segment between two cells does not depend on which end is named
/// first.
pub proof fn lemma_cord_symmetric(s: int, t: int)
    ensures
        cord_set(s, t) == cord_set(t, s),
{
    lemma_cord_subset(s, t);
    lemma_cord_subset(t, s);
}

/// The segment between two cells holds both of them where they differ and
/// share a rank, a file or a diagonal, and is empty otherwise.
pub proof fn lemma_cord_aligned(s: int, t: int)
    requires
        on_board(s),
        on_board(t),
    ensures
        s != t && aligned(s, t) ==> cord_set(s, t).contains(s) && cord_set(s, t).contains(t),
        s == t || !aligned(s, t) ==> cord_set(s, t) == Set::<int>::empty(),
{
    let r = rank_of(t) - rank_of(s);
    let f = file_of(t) - file_of(s);
    if s != t && aligned(s, t) {
        let d = toward(r, f);
        let k = if r > 0 {
            r
        } else if r < 0 {
            -r
        } else if f > 0 {
            f
        } else {
            -f
        };
        assert(k * d.dr() == r && k * d.df() == f) by (nonlinear_arith)
            requires
                -1 <= d.dr() <= 1,
                -1 <= d.df() <= 1,
                (d.dr() == 1) == (r > 0),
                (d.dr() == -1) == (r < 0),
                (d.df() == 1) == (f > 0),
                (d.df() == -1) == (f < 0),
                k >= 1,
                r != 0 ==> (k == r || k == -r),
                f != 0 ==> (k == f || k == -f),
        ;
        assert(is_step(s, d, k, t));
        assert(is_step(s, d, 0, s));
    } else if s == t {
        lemma_cord_of_self(s);
    }
}

/// Where `target` lies on the ray from `source` in a compass direction,
/// the segment between them is `source` together with what is seen from
/// `source` in that direction when `target` alone blocks the view.
pub proof fn lemma_cord_is_clipped_ray(source: int, target: int, d: Direction)
    requires
        d.is_compass(),
        ray(source, d).contains(target),
    ensures
        cord_set(source, target) == sight(source, d, set![target]).insert(source),
{
    let k0 = choose|k: int| k >= 1 && is_step(source, d, k, target);
    let occ = set![target];
    let seen = sight(source, d, occ).insert(source);
    assert forall|c: int| cord_set(source, target).contains(c) <==> seen.contains(c) by {
        if cord_set(source, target).contains(c) {
            let (d2, k, j) = choose|d2: Direction, k: int, j: int|
                d2.is_compass() && 0 <= j <= k && 1 <= k && is_step(source, d2, k, target)
                    && is_step(source, d2, j, c);
            lemma_compass_unique(source, target, d, k0, d2, k);
            if j >= 1 {
                assert forall|i: int, mid: int|
                    1 <= i < j && #[trigger] is_step(source, d, i, mid) implies !occ.contains(
                    mid,
                ) by {
                    if mid == target {
                        lemma_walk_length_unique(source, d, i, k0, target);
                    }
                }
            }
        }
        if c == source {
            assert(is_step(source, d, 0, source));
        }
    }
}

} // verus!
