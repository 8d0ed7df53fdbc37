//! The segments between every two cells, worked out once and then looked
//! up.

use crate::bitboard::BitBoard;
use crate::coord::Coord;
use crate::rays::{cord, cord_set};
use vstd::prelude::*;

verus! {

/// The segment between every pair of cells: 4096 bitboards, the one for
/// `source` and `target` stored at `64 * source + target`. Once built a
/// table never changes, so it may be shared freely.
pub struct CordTable {
    masks: Vec<BitBoard>,
}

impl CordTable {
    /// Every entry holds the segment between its two cells.
    #[verifier::type_invariant]
    pub closed spec fn wf(self) -> bool {
        &&& self.masks.len() == 4096
        &&& forall|i: int|
            0 <= i < 4096 ==> (#[trigger] self.masks[i])@ == cord_set(i / 64, i % 64)
    }

    /// Works out all 4096 segments.
    pub fn new() -> (r: CordTable)
        ensures
            r.wf(),
    {
        let mut masks: Vec<BitBoard> = Vec::new();
        let mut i: u16 = 0;
        while i < 4096
            invariant
                i <= 4096,
                masks.len() == i,
                forall|k: int| 0 <= k < i ==> (#[trigger] masks[k])@ == cord_set(k / 64, k % 64),
            decreases 4096 - i,
        {
            let source = Coord::at((i / 64) as u8);
            let target = Coord::at((i % 64) as u8);
            masks.push(cord(source, target));
            i = i + 1;
        }
        CordTable { masks }
    }

    /// The segment between `source` and `target`, as `cord` gives it.
    pub fn cord(&self, source: Coord, target: Coord) -> (r: BitBoard)
        ensures
            r@ == cord_set(source@, target@),
    {
        proof {
            use_type_invariant(self);
        }
        let i: usize = source.index() as usize * 64 + target.index() as usize;
        self.masks[i]
    }
}

} // verus!
