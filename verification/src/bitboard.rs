//! Sets of board cells packed into one 64-bit word.

use crate::coord::{file_of, on_board, rank_of, Coord};
use vstd::prelude::*;
use vstd::set_lib::{lemma_int_range, set_int_range};
use vstd::std_specs::ops::{BitAndSpec, NotSpec};

verus! {

/// Whether bit `i` of `bits` is set. Bits outside `0..64` are never set.
pub open spec fn bit(bits: u64, i: int) -> bool {
    on_board(i) && (bits >> (i as u64)) & 1 == 1
}

/// A set of board cells: bit `i` of the word is set exactly when the cell
/// with index `i` belongs to the set.
#[derive(Clone, Copy, Debug, PartialEq, Eq, Hash, Structural)]
pub struct BitBoard {
    pub bits: u64,
}

impl View for BitBoard {
    type V = Set<int>;

    open spec fn view(&self) -> Set<int> {
        Set::new(|i: int| bit(self.bits, i))
    }
}

/// The cells in exactly one of the two sets.
pub open spec fn symmetric_difference(a: Set<int>, b: Set<int>) -> Set<int> {
    a.difference(b).union(b.difference(a))
}

/// The word with all 64 bits set.
pub const ALL_BITS: u64 = 0xffff_ffff_ffff_ffff;

/// The word whose set bits are the cells of the eighth rank.
pub const TOP_RANK_BITS: u64 = 0xff;

/// The word whose set bits are the cells of the `a` file.
pub const LEFT_FILE_BITS: u64 = 0x0101_0101_0101_0101;

/// Every member of a bitboard is the index of a cell, so the set is finite
/// and holds at most 64 cells.
pub proof fn lemma_view_bounded(b: BitBoard)
    ensures
        b@.subset_of(set_int_range(0, 64)),
        b@.finite(),
        b@.len() <= 64,
{
    lemma_int_range(0, 64);
    vstd::set_lib::lemma_len_subset(b@, set_int_range(0, 64));
}

/// Two bitboards with the same members are the same word.
pub proof fn lemma_view_injective(a: BitBoard, b: BitBoard)
    requires
        a@ == b@,
    ensures
        a == b,
{
    let x = a.bits;
    let y = b.bits;
    let z = x ^ y;
    if z != 0 {
        vstd::std_specs::bits::axiom_u64_trailing_zeros(z);
        let t = vstd::std_specs::bits::u64_trailing_zeros(z) as u64;
        assert(t < 64 && ((x ^ y) >> t) & 1 == 1 ==> (((x >> t) & 1 == 1) != ((y >> t) & 1 == 1)))
            by (bit_vector);
        assert(a@.contains(t as int) == bit(x, t as int));
    }
    assert(x ^ y == 0 ==> x == y) by (bit_vector);
}

/// The zero word has no members.
pub proof fn lemma_zero_is_empty()
    ensures
        (BitBoard { bits: 0 })@ == Set::<int>::empty(),
{
    assert forall|i: int| !bit(0u64, i) by {
        let j = i as u64;
        assert((0u64 >> j) & 1 != 1) by (bit_vector);
    }
}

/// The word of all ones has every cell of the board as a member.
pub proof fn lemma_ones_is_board()
    ensures
        (BitBoard { bits: ALL_BITS })@ == set_int_range(0, 64),
{
    assert forall|i: int| bit(ALL_BITS, i) == on_board(i) by {
        let j = i as u64;
        assert(j < 64 ==> (0xffff_ffff_ffff_ffffu64 >> j) & 1 == 1) by (bit_vector);
    }
    assert forall|i: int|
        (BitBoard { bits: ALL_BITS })@.contains(i) <==> set_int_range(0, 64).contains(i) by {
        assert(bit(ALL_BITS, i) == on_board(i));
    }
}

/// The members of `s` below `n`, in increasing order.
pub open spec fn members_below(s: Set<int>, n: int) -> Seq<int>
    decreases n,
{
    if n <= 0 {
        Seq::empty()
    } else if s.contains(n - 1) {
        members_below(s, n - 1).push(n - 1)
    } else {
        members_below(s, n - 1)
    }
}

/// The cells of `s` in increasing order of index.
pub open spec fn ascending(s: Set<int>) -> Seq<int> {
    members_below(s, 64)
}

/// Whether `m` is a member of `s` and no member of `s` is smaller.
pub open spec fn is_least(s: Set<int>, m: int) -> bool {
    s.contains(m) && forall|i: int| s.contains(i) ==> m <= i
}

/// `members_below(s, n)` lists exactly the members of `s` in `0..n`, each
/// once, in strictly increasing order.
pub proof fn lemma_members_below(s: Set<int>, n: int)
    requires
        0 <= n,
    ensures
        members_below(s, n).len() == s.intersect(set_int_range(0, n)).len(),
        s.intersect(set_int_range(0, n)).finite(),
        forall|k: int|
            0 <= k < members_below(s, n).len() ==> {
                let m = #[trigger] members_below(s, n)[k];
                s.contains(m) && 0 <= m < n
            },
        forall|k: int, l: int|
            0 <= k < l < members_below(s, n).len() ==> members_below(s, n)[k] < members_below(
                s,
                n,
            )[l],
        forall|i: int|
            s.contains(i) && 0 <= i < n ==> exists|k: int|
                0 <= k < members_below(s, n).len() && members_below(s, n)[k] == i,
    decreases n,
{
    if n == 0 {
        assert(s.intersect(set_int_range(0, 0)) =~= Set::<int>::empty());
    } else {
        lemma_members_below(s, n - 1);
        let prev = members_below(s, n - 1);
        let cur = members_below(s, n);
        let below = s.intersect(set_int_range(0, n - 1));
        if s.contains(n - 1) {
            assert(s.intersect(set_int_range(0, n)) =~= below.insert(n - 1));
            assert forall|i: int| s.contains(i) && 0 <= i < n implies exists|k: int|
                0 <= k < cur.len() && cur[k] == i by {
                if i == n - 1 {
                    assert(cur[prev.len() as int] == i);
                } else {
                    let k = choose|k: int| 0 <= k < prev.len() && prev[k] == i;
                    assert(cur[k] == i);
                }
            }
        } else {
            assert(s.intersect(set_int_range(0, n)) =~= below);
        }
    }
}

/// The cells of a bitboard in increasing order are its members, each once
/// and nothing else, every one below the next.
pub proof fn lemma_ascending(b: BitBoard)
    ensures
        ascending(b@).len() == b@.len(),
        forall|k: int| 0 <= k < ascending(b@).len() ==> b@.contains(#[trigger] ascending(b@)[k]),
        forall|k: int, l: int|
            0 <= k < l < ascending(b@).len() ==> ascending(b@)[k] < ascending(b@)[l],
        forall|i: int|
            b@.contains(i) ==> exists|k: int|
                0 <= k < ascending(b@).len() && ascending(b@)[k] == i,
{
    lemma_members_below(b@, 64);
    assert(b@.intersect(set_int_range(0, 64)) =~= b@);
}

impl BitBoard {
    /// The set with no cells.
    pub fn empty() -> (r: BitBoard)
        ensures
            r@ == Set::<int>::empty(),
            r.bits == 0,
    {
        proof {
            lemma_zero_is_empty();
        }
        BitBoard { bits: 0 }
    }

    /// The set of all 64 cells.
    pub fn all() -> (r: BitBoard)
        ensures
            r@ == set_int_range(0, 64),
            r.bits == ALL_BITS,
    {
        proof {
            lemma_ones_is_board();
        }
        BitBoard { bits: ALL_BITS }
    }

    /// The set holding the single cell `c`.
    pub fn single(c: Coord) -> (r: BitBoard)
        ensures
            r@ == set![c@],
            r.bits == 1u64 << (c@ as u64),
    {
        let k: u64 = c.index() as u64;
        let r = BitBoard { bits: 1u64 << k };
        assert forall|i: int| bit(r.bits, i) <==> i == c@ by {
            let j = i as u64;
            assert(k < 64 && j < 64 ==> (((1u64 << k) >> j) & 1 == 1 <==> j == k)) by (bit_vector);
        }
        r
    }

    /// The cells of the rank with index `rank`; no cells where `rank` is 8
    /// or more.
    pub fn rank_mask(rank: u8) -> (r: BitBoard)
        ensures
            r@ == Set::new(|i: int| on_board(i) && rank_of(i) == rank),
    {
        if rank >= 8 {
            return BitBoard::empty();
        }
        let k: u64 = rank as u64;
        let r = BitBoard { bits: TOP_RANK_BITS << (8 * k) };
        assert forall|i: int| bit(r.bits, i) <==> on_board(i) && rank_of(i) == rank by {
            let j = i as u64;
            assert(k < 8 && j < 64 ==> (((0xffu64 << (8 * k)) >> j) & 1 == 1 <==> j / 8 == k))
                by (bit_vector);
        }
        r
    }

    /// The cells of the file with index `file`; no cells where `file` is 8
    /// or more.
    pub fn file_mask(file: u8) -> (r: BitBoard)
        ensures
            r@ == Set::new(|i: int| on_board(i) && file_of(i) == file),
    {
        if file >= 8 {
            return BitBoard::empty();
        }
        let k: u64 = file as u64;
        let r = BitBoard { bits: LEFT_FILE_BITS << k };
        assert forall|i: int| bit(r.bits, i) <==> on_board(i) && file_of(i) == file by {
            let j = i as u64;
            assert(k < 8 && j < 64 ==> (((0x0101_0101_0101_0101u64 << k) >> j) & 1 == 1 <==> j % 8
                == k)) by (bit_vector);
        }
        r
    }

    /// Whether the cell `c` belongs to the set.
    pub fn contains(&self, c: Coord) -> (r: bool)
        ensures
            r == self@.contains(c@),
    {
        (self.bits >> (c.index() as u64)) & 1 == 1
    }

    /// Whether the set has no cells.
    pub fn is_empty(&self) -> (r: bool)
        ensures
            r == (self@ == Set::<int>::empty()),
            r == (self@.len() == 0),
    {
        proof {
            lemma_view_bounded(*self);
            lemma_zero_is_empty();
            if self@ == Set::<int>::empty() {
                lemma_view_injective(*self, BitBoard { bits: 0 });
            }
            if self@.len() == 0 {
                self@.lemma_len0_is_empty();
            }
        }
        self.bits == 0
    }

    /// The number of cells in the set.
    pub fn size(&self) -> (r: u32)
        ensures
            r == self@.len(),
            r <= 64,
    {
        let mut n: u32 = 0;
        let mut i: u8 = 0;
        proof {
            assert(self@.intersect(set_int_range(0, 0)) =~= Set::<int>::empty());
        }
        while i < 64
            invariant
                i <= 64,
                n <= i,
                self@.intersect(set_int_range(0, i as int)).finite(),
                n == self@.intersect(set_int_range(0, i as int)).len(),
            decreases 64 - i,
        {
            let ghost below = self@.intersect(set_int_range(0, i as int));
            if (self.bits >> (i as u64)) & 1 == 1 {
                proof {
                    assert(self@.intersect(set_int_range(0, i + 1)) =~= below.insert(i as int));
                }
                n = n + 1;
            } else {
                proof {
                    assert(self@.intersect(set_int_range(0, i + 1)) =~= below);
                }
            }
            i = i + 1;
        }
        proof {
            assert(self@.intersect(set_int_range(0, 64)) =~= self@);
        }
        n
    }

    /// The cell of lowest index in the set, or `None` for the empty set.
    pub fn first(&self) -> (r: Option<Coord>)
        ensures
            r is None <==> self@ == Set::<int>::empty(),
            r matches Some(c) ==> c.wf() && is_least(self@, c@),
    {
        if self.bits == 0 {
            proof {
                lemma_zero_is_empty();
            }
            return None;
        }
        let t: u32 = self.bits.trailing_zeros();
        proof {
            vstd::std_specs::bits::axiom_u64_trailing_zeros(self.bits);
            assert(self@.contains(t as int));
        }
        Some(Coord::at(t as u8))
    }

    /// The set holding only the cell of lowest index, or the empty set for
    /// the empty set.
    pub fn least_set_bit(&self) -> (r: BitBoard)
        ensures
            self@ == Set::<int>::empty() ==> r@ == Set::<int>::empty(),
            forall|m: int| is_least(self@, m) ==> r@ == set![m],
    {
        match self.first() {
            Some(c) => BitBoard::single(c),
            None => BitBoard::empty(),
        }
    }

    /// The set with the cell `c` added.
    pub fn with(&self, c: Coord) -> (r: BitBoard)
        ensures
            r@ == self@.insert(c@),
    {
        *self | BitBoard::single(c)
    }

    /// The set with the cell `c` taken out.
    pub fn without(&self, c: Coord) -> (r: BitBoard)
        ensures
            r@ == self@.remove(c@),
    {
        *self - BitBoard::single(c)
    }

    /// The cells of the board that are not in the set.
    pub fn complement(&self) -> (r: BitBoard)
        ensures
            r@ == set_int_range(0, 64).difference(self@),
    {
        proof {
            lemma_not_view(*self);
        }
        BitBoard { bits: !self.bits }
    }

    /// The cells of the set in increasing order of index.
    pub fn cells(&self) -> (r: Vec<Coord>)
        ensures
            r@.map_values(|c: Coord| c@) == ascending(self@),
            forall|k: int| 0 <= k < r.len() ==> (#[trigger] r[k]).wf(),
    {
        let mut out: Vec<Coord> = Vec::new();
        let mut i: u8 = 0;
        while i < 64
            invariant
                i <= 64,
                out@.map_values(|c: Coord| c@) == members_below(self@, i as int),
                forall|k: int| 0 <= k < out.len() ==> (#[trigger] out[k]).wf(),
            decreases 64 - i,
        {
            if (self.bits >> (i as u64)) & 1 == 1 {
                out.push(Coord::at(i));
            }
            i = i + 1;
        }
        out
    }

    /// A cursor over the cells of the set in increasing order of index.
    pub fn iter(&self) -> (r: Cells)
        ensures
            r.rest == *self,
    {
        Cells { rest: *self }
    }
}

/// A cursor over the cells of a bitboard, lowest index first. It holds the
/// cells not yet handed out; making a new cursor from the same bitboard
/// starts over.
#[derive(Clone, Copy, Debug)]
pub struct Cells {
    pub rest: BitBoard,
}

impl Cells {
    /// Hands out the cell of lowest index that is left and drops it from the
    /// cursor, or returns `None` once no cell is left.
    pub fn next(&mut self) -> (r: Option<Coord>)
        ensures
            r is None <==> old(self).rest@ == Set::<int>::empty(),
            r is None ==> *final(self) == *old(self),
            r matches Some(c) ==> c.wf() && is_least(old(self).rest@, c@) && final(self).rest@
                == old(self).rest@.remove(c@),
            r matches Some(c) ==> forall|i: int| final(self).rest@.contains(i) ==> c@ < i,
    {
        match self.rest.first() {
            Some(c) => {
                self.rest = self.rest.without(c);
                Some(c)
            },
            None => None,
        }
    }
}

/// The members of `a & b` are the cells in both sets.
pub proof fn lemma_and_view(a: BitBoard, b: BitBoard)
    ensures
        (BitBoard { bits: a.bits & b.bits })@ == a@.intersect(b@),
{
    let x = a.bits;
    let y = b.bits;
    assert forall|i: int| bit(x & y, i) <==> bit(x, i) && bit(y, i) by {
        let j = i as u64;
        assert(((x & y) >> j) & 1 == 1 <==> (x >> j) & 1 == 1 && (y >> j) & 1 == 1)
            by (bit_vector);
    }
}

/// The members of `a | b` are the cells in either set.
pub proof fn lemma_or_view(a: BitBoard, b: BitBoard)
    ensures
        (BitBoard { bits: a.bits | b.bits })@ == a@.union(b@),
{
    let x = a.bits;
    let y = b.bits;
    assert forall|i: int| bit(x | y, i) <==> bit(x, i) || bit(y, i) by {
        let j = i as u64;
        assert(((x | y) >> j) & 1 == 1 <==> (x >> j) & 1 == 1 || (y >> j) & 1 == 1)
            by (bit_vector);
    }
}

/// The members of `a ^ b` are the cells in exactly one of the sets.
pub proof fn lemma_xor_view(a: BitBoard, b: BitBoard)
    ensures
        (BitBoard { bits: a.bits ^ b.bits })@ == symmetric_difference(a@, b@),
{
    let x = a.bits;
    let y = b.bits;
    assert forall|i: int| bit(x ^ y, i) <==> (bit(x, i) != bit(y, i)) by {
        let j = i as u64;
        assert(((x ^ y) >> j) & 1 == 1 <==> (((x >> j) & 1 == 1) != ((y >> j) & 1 == 1)))
            by (bit_vector);
    }
}

/// The members of `a & !b` are the cells of `a` that are not in `b`.
pub proof fn lemma_sub_view(a: BitBoard, b: BitBoard)
    ensures
        (BitBoard { bits: a.bits & !b.bits })@ == a@.difference(b@),
{
    let x = a.bits;
    let y = b.bits;
    assert forall|i: int| bit(x & !y, i) <==> bit(x, i) && !bit(y, i) by {
        let j = i as u64;
        assert(((x & !y) >> j) & 1 == 1 <==> (x >> j) & 1 == 1 && !((y >> j) & 1 == 1))
            by (bit_vector);
    }
}

/// The members of `!a` are the cells of the board that are not in `a`.
pub proof fn lemma_not_view(a: BitBoard)
    ensures
        (BitBoard { bits: !a.bits })@ == set_int_range(0, 64).difference(a@),
{
    let x = a.bits;
    assert forall|i: int| bit(!x, i) <==> on_board(i) && !bit(x, i) by {
        let j = i as u64;
        assert(j < 64 ==> (((!x) >> j) & 1 == 1 <==> !((x >> j) & 1 == 1))) by (bit_vector);
    }
    assert forall|i: int|
        (BitBoard { bits: !x })@.contains(i) <==> set_int_range(0, 64).difference(a@).contains(
            i,
        ) by {
        assert(bit(!x, i) <==> on_board(i) && !bit(x, i));
    }
}

impl core::ops::BitAnd for BitBoard {
    type Output = BitBoard;

    /// Intersection: the cells in both sets.
    fn bitand(self, rhs: BitBoard) -> (r: BitBoard)
        ensures
            r@ == self@.intersect(rhs@),
    {
        proof {
            lemma_and_view(self, rhs);
        }
        BitBoard { bits: self.bits & rhs.bits }
    }
}

impl vstd::std_specs::ops::BitAndSpecImpl for BitBoard {
    open spec fn obeys_bitand_spec() -> bool {
        true
    }

    open spec fn bitand_req(self, rhs: BitBoard) -> bool {
        true
    }

    open spec fn bitand_spec(self, rhs: BitBoard) -> BitBoard {
        BitBoard { bits: self.bits & rhs.bits }
    }
}

impl core::ops::BitAndAssign for BitBoard {
    /// Intersection: the cells in both sets.
    fn bitand_assign(&mut self, rhs: BitBoard)
        ensures
            final(self)@ == old(self)@.intersect(rhs@),
            final(self).bits == old(self).bits & rhs.bits,
    {
        proof {
            lemma_and_view(*self, rhs);
        }
        self.bits = self.bits & rhs.bits;
    }
}

impl core::ops::BitAnd<Coord> for BitBoard {
    type Output = BitBoard;

    /// Intersection with one cell: that cell where the set holds it, nothing otherwise.
    fn bitand(self, rhs: Coord) -> (r: BitBoard)
        ensures
            r@ == self@.intersect(set![rhs@]),
    {
        let one = BitBoard::single(rhs);
        proof {
            lemma_and_view(self, one);
        }
        BitBoard { bits: self.bits & one.bits }
    }
}

impl vstd::std_specs::ops::BitAndSpecImpl<Coord> for BitBoard {
    open spec fn obeys_bitand_spec() -> bool {
        true
    }

    open spec fn bitand_req(self, rhs: Coord) -> bool {
        true
    }

    open spec fn bitand_spec(self, rhs: Coord) -> BitBoard {
        BitBoard { bits: self.bits & (1u64 << (rhs@ as u64)) }
    }
}

impl core::ops::BitAndAssign<Coord> for BitBoard {
    /// Intersection with one cell: that cell where the set holds it, nothing otherwise.
    fn bitand_assign(&mut self, rhs: Coord)
        ensures
            final(self)@ == old(self)@.intersect(set![rhs@]),
    {
        let one = BitBoard::single(rhs);
        proof {
            lemma_and_view(*self, one);
        }
        self.bits = self.bits & one.bits;
    }
}

impl core::ops::BitOr for BitBoard {
    type Output = BitBoard;

    /// Union: the cells in either set.
    fn bitor(self, rhs: BitBoard) -> (r: BitBoard)
        ensures
            r@ == self@.union(rhs@),
    {
        proof {
            lemma_or_view(self, rhs);
        }
        BitBoard { bits: self.bits | rhs.bits }
    }
}

impl vstd::std_specs::ops::BitOrSpecImpl for BitBoard {
    open spec fn obeys_bitor_spec() -> bool {
        true
    }

    open spec fn bitor_req(self, rhs: BitBoard) -> bool {
        true
    }

    open spec fn bitor_spec(self, rhs: BitBoard) -> BitBoard {
        BitBoard { bits: self.bits | rhs.bits }
    }
}

impl core::ops::BitOrAssign for BitBoard {
    /// Union: the cells in either set.
    fn bitor_assign(&mut self, rhs: BitBoard)
        ensures
            final(self)@ == old(self)@.union(rhs@),
            final(self).bits == old(self).bits | rhs.bits,
    {
        proof {
            lemma_or_view(*self, rhs);
        }
        self.bits = self.bits | rhs.bits;
    }
}

impl core::ops::BitOr<Coord> for BitBoard {
    type Output = BitBoard;

    /// The set with the cell added.
    fn bitor(self, rhs: Coord) -> (r: BitBoard)
        ensures
            r@ == self@.insert(rhs@),
    {
        let one = BitBoard::single(rhs);
        proof {
            lemma_or_view(self, one);
        }
        BitBoard { bits: self.bits | one.bits }
    }
}

impl vstd::std_specs::ops::BitOrSpecImpl<Coord> for BitBoard {
    open spec fn obeys_bitor_spec() -> bool {
        true
    }

    open spec fn bitor_req(self, rhs: Coord) -> bool {
        true
    }

    open spec fn bitor_spec(self, rhs: Coord) -> BitBoard {
        BitBoard { bits: self.bits | (1u64 << (rhs@ as u64)) }
    }
}

impl core::ops::BitOrAssign<Coord> for BitBoard {
    /// The set with the cell added.
    fn bitor_assign(&mut self, rhs: Coord)
        ensures
            final(self)@ == old(self)@.insert(rhs@),
    {
        let one = BitBoard::single(rhs);
        proof {
            lemma_or_view(*self, one);
        }
        self.bits = self.bits | one.bits;
    }
}

impl core::ops::BitXor for BitBoard {
    type Output = BitBoard;

    /// Symmetric difference: the cells in exactly one of the sets.
    fn bitxor(self, rhs: BitBoard) -> (r: BitBoard)
        ensures
            r@ == symmetric_difference(self@, rhs@),
    {
        proof {
            lemma_xor_view(self, rhs);
        }
        BitBoard { bits: self.bits ^ rhs.bits }
    }
}

impl vstd::std_specs::ops::BitXorSpecImpl for BitBoard {
    open spec fn obeys_bitxor_spec() -> bool {
        true
    }

    open spec fn bitxor_req(self, rhs: BitBoard) -> bool {
        true
    }

    open spec fn bitxor_spec(self, rhs: BitBoard) -> BitBoard {
        BitBoard { bits: self.bits ^ rhs.bits }
    }
}

impl core::ops::BitXorAssign for BitBoard {
    /// Symmetric difference: the cells in exactly one of the sets.
    fn bitxor_assign(&mut self, rhs: BitBoard)
        ensures
            final(self)@ == symmetric_difference(old(self)@, rhs@),
            final(self).bits == old(self).bits ^ rhs.bits,
    {
        proof {
            lemma_xor_view(*self, rhs);
        }
        self.bits = self.bits ^ rhs.bits;
    }
}

impl core::ops::BitXor<Coord> for BitBoard {
    type Output = BitBoard;

    /// The set with the cell taken out where the set holds it, and added where it does not.
    fn bitxor(self, rhs: Coord) -> (r: BitBoard)
        ensures
            r@ == symmetric_difference(self@, set![rhs@]),
    {
        let one = BitBoard::single(rhs);
        proof {
            lemma_xor_view(self, one);
        }
        BitBoard { bits: self.bits ^ one.bits }
    }
}

impl vstd::std_specs::ops::BitXorSpecImpl<Coord> for BitBoard {
    open spec fn obeys_bitxor_spec() -> bool {
        true
    }

    open spec fn bitxor_req(self, rhs: Coord) -> bool {
        true
    }

    open spec fn bitxor_spec(self, rhs: Coord) -> BitBoard {
        BitBoard { bits: self.bits ^ (1u64 << (rhs@ as u64)) }
    }
}

impl core::ops::BitXorAssign<Coord> for BitBoard {
    /// The set with the cell taken out where the set holds it, and added where it does not.
    fn bitxor_assign(&mut self, rhs: Coord)
        ensures
            final(self)@ == symmetric_difference(old(self)@, set![rhs@]),
    {
        let one = BitBoard::single(rhs);
        proof {
            lemma_xor_view(*self, one);
        }
        self.bits = self.bits ^ one.bits;
    }
}

impl core::ops::Sub for BitBoard {
    type Output = BitBoard;

    /// Difference: the cells of `self` that are not in `rhs`.
    fn sub(self, rhs: BitBoard) -> (r: BitBoard)
        ensures
            r@ == self@.difference(rhs@),
    {
        proof {
            lemma_sub_view(self, rhs);
        }
        BitBoard { bits: self.bits & !rhs.bits }
    }
}

impl vstd::std_specs::ops::SubSpecImpl for BitBoard {
    open spec fn obeys_sub_spec() -> bool {
        true
    }

    open spec fn sub_req(self, rhs: BitBoard) -> bool {
        true
    }

    open spec fn sub_spec(self, rhs: BitBoard) -> BitBoard {
        BitBoard { bits: self.bits & !rhs.bits }
    }
}

impl core::ops::SubAssign for BitBoard {
    /// Difference: the cells of `self` that are not in `rhs`.
    fn sub_assign(&mut self, rhs: BitBoard)
        ensures
            final(self)@ == old(self)@.difference(rhs@),
            final(self).bits == old(self).bits & !rhs.bits,
    {
        proof {
            lemma_sub_view(*self, rhs);
        }
        self.bits = self.bits & !rhs.bits;
    }
}

impl core::ops::Sub<Coord> for BitBoard {
    type Output = BitBoard;

    /// The set with the cell taken out.
    fn sub(self, rhs: Coord) -> (r: BitBoard)
        ensures
            r@ == self@.remove(rhs@),
    {
        let one = BitBoard::single(rhs);
        proof {
            lemma_sub_view(self, one);
        }
        BitBoard { bits: self.bits & !one.bits }
    }
}

impl vstd::std_specs::ops::SubSpecImpl<Coord> for BitBoard {
    open spec fn obeys_sub_spec() -> bool {
        true
    }

    open spec fn sub_req(self, rhs: Coord) -> bool {
        true
    }

    open spec fn sub_spec(self, rhs: Coord) -> BitBoard {
        BitBoard { bits: self.bits & !(1u64 << (rhs@ as u64)) }
    }
}

impl core::ops::SubAssign<Coord> for BitBoard {
    /// The set with the cell taken out.
    fn sub_assign(&mut self, rhs: Coord)
        ensures
            final(self)@ == old(self)@.remove(rhs@),
    {
        let one = BitBoard::single(rhs);
        proof {
            lemma_sub_view(*self, one);
        }
        self.bits = self.bits & !one.bits;
    }
}

impl core::ops::Not for BitBoard {
    type Output = BitBoard;

    /// Complement: the cells of the board that are not in `self`.
    fn not(self) -> (r: BitBoard)
        ensures
            r@ == set_int_range(0, 64).difference(self@),
    {
        proof {
            lemma_not_view(self);
        }
        BitBoard { bits: !self.bits }
    }
}

impl vstd::std_specs::ops::NotSpecImpl for BitBoard {
    open spec fn obeys_not_spec() -> bool {
        true
    }

    open spec fn not_req(self) -> bool {
        true
    }

    open spec fn not_spec(self) -> BitBoard {
        BitBoard { bits: !self.bits }
    }
}

/// The empty set has no cells, the full set has all 64, and no set shares a
/// cell with its complement.
pub proof fn lemma_empty_all_complement(b: BitBoard)
    ensures
        (BitBoard { bits: 0 })@.len() == 0,
        (BitBoard { bits: ALL_BITS })@.len() == 64,
        b.bitand_spec(b.not_spec())@ == Set::<int>::empty(),
        b.bitand_spec(b.not_spec()).bits == 0,
{
    lemma_zero_is_empty();
    lemma_ones_is_board();
    lemma_int_range(0, 64);
    let x = b.bits;
    assert(x & !x == 0) by (bit_vector);
}

} // verus!
