//! Cube coordinates for hexagonal tiles.
//!
//! A coordinate is a triple of integers `(q, r, s)` with `q + r + s == 0`.
//! Every coordinate produced by this crate satisfies that invariant; a caller
//! that builds one by hand is expected to keep it as well.

use vstd::prelude::*;

verus! {

/// Largest magnitude a board radius or move range may take.  Keeps every
/// coordinate the crate computes comfortably inside `i64`, and keeps the tile
/// count of a full board inside `usize` even on 32-bit hosts.
pub const RADIUS_LIMIT: i64 = 30_000;

/// A cube coordinate on the hexagonal grid.
#[derive(Clone, Copy, PartialEq, Eq, Structural, Hash, Debug)]
pub struct HexCoord {
    pub q: i64,
    pub r: i64,
    pub s: i64,
}

impl HexCoord {
    /// The cube-coordinate invariant: the three components sum to zero.
    pub open spec fn wf(self) -> bool {
        self.q + self.r + self.s == 0
    }

    /// `self` lies within `radius` steps of the board center:
    /// `max(|q|, |r|, |s|) <= radius`.
    pub open spec fn in_bounds(self, radius: int) -> bool {
        &&& -radius <= self.q <= radius
        &&& -radius <= self.r <= radius
        &&& -radius <= self.s <= radius
    }

    /// Builds the coordinate `(q, r, -q-r)`, deriving the third component.
    pub fn new(q: i64, r: i64) -> (c: HexCoord)
        requires
            i64::MIN < q,
            i64::MIN <= -q - r <= i64::MAX,
        ensures
            c.q == q,
            c.r == r,
            c.s == -q - r,
            c.wf(),
    {
        HexCoord { q, r, s: -q - r }
    }

    /// Component-wise sum; translates `self` by the offset `other`.
    /// A sum of two zero-sum triples is again zero-sum.
    pub fn add(self, other: HexCoord) -> (c: HexCoord)
        requires
            i64::MIN <= self.q + other.q <= i64::MAX,
            i64::MIN <= self.r + other.r <= i64::MAX,
            i64::MIN <= self.s + other.s <= i64::MAX,
        ensures
            c.q == self.q + other.q,
            c.r == self.r + other.r,
            c.s == self.s + other.s,
            self.wf() && other.wf() ==> c.wf(),
    {
        HexCoord { q: self.q + other.q, r: self.r + other.r, s: self.s + other.s }
    }

    /// Whether `self` is within `radius` of the board center.
    pub fn is_in_bounds(self, radius: i64) -> (b: bool)
        requires
            0 <= radius,
        ensures
            b == self.in_bounds(radius as int),
    {
        -radius <= self.q && self.q <= radius && -radius <= self.r && self.r <= radius
            && -radius <= self.s && self.s <= radius
    }
}

impl Default for HexCoord {
    /// The board center `(0, 0, 0)`.
    fn default() -> (c: HexCoord)
        ensures
            c == (HexCoord { q: 0, r: 0, s: 0 }),
    {
        HexCoord { q: 0, r: 0, s: 0 }
    }
}

/// `s` holds `c` somewhere.
pub open spec fn coord_in_seq(s: Seq<HexCoord>, c: HexCoord) -> bool {
    exists|i: int| 0 <= i < s.len() && s[i] == c
}

/// Linear scan for `c` in `v`.
pub fn contains_coord(v: &Vec<HexCoord>, c: HexCoord) -> (b: bool)
    ensures
        b == coord_in_seq(v@, c),
{
    let mut i: usize = 0;
    while i < v.len()
        invariant
            0 <= i <= v@.len(),
            forall|j: int| 0 <= j < i ==> v@[j] != c,
        decreases v@.len() - i,
    {
        if v[i] == c {
            assert(coord_in_seq(v@, c));
            return true;
        }
        i = i + 1;
    }
    false
}

} // verus!
