//! The board: every hex within the board radius, each carrying a resource
//! drawn at generation time by a weighted random draw.
//!
//! Probabilities are held as integer weights in parts per `WEIGHT_TOTAL`, so
//! the cumulative-threshold scan over a uniform sample is exact integer
//! arithmetic.

use vstd::prelude::*;

use crate::hex::{HexCoord, RADIUS_LIMIT};
use crate::rng::{draw_sample, new_rng};

verus! {

/// Resource weights are parts of this total.
pub const WEIGHT_TOTAL: u32 = 1_000_000;

/// The kind of resource a tile yields; purely descriptive.
#[derive(Clone, Copy, PartialEq, Eq, Structural, Debug)]
pub enum Resource {
    Gold,
    Wheat,
    Stone,
    Wood,
}

impl Default for Resource {
    fn default() -> (r: Resource)
        ensures
            r == Resource::Wheat,
    {
        Resource::Wheat
    }
}

/// Board configuration, fixed at startup.  `tile_size` is the hex size in
/// pixels; the resource weights are parts per `WEIGHT_TOTAL`.
#[derive(Clone, Copy, PartialEq, Eq, Structural, Debug)]
pub struct BoardSettings {
    pub tile_size: u32,
    pub board_radius: i64,
    pub gold_weight: u32,
    pub wheat_weight: u32,
    pub stone_weight: u32,
    pub wood_weight: u32,
}

impl BoardSettings {
    /// A usable configuration: positive tile size, a radius the arithmetic
    /// supports, and weights that form a probability distribution.
    pub open spec fn wf(self) -> bool {
        &&& self.tile_size > 0
        &&& 0 <= self.board_radius <= RADIUS_LIMIT
        &&& self.gold_weight + self.wheat_weight + self.stone_weight + self.wood_weight
            == WEIGHT_TOTAL
    }
}

impl Default for BoardSettings {
    /// Size-40 tiles, radius 5, probabilities (0.05, 0.4, 0.2, 0.35).
    fn default() -> (s: BoardSettings)
        ensures
            s == (BoardSettings {
                tile_size: 40,
                board_radius: 5,
                gold_weight: 50_000,
                wheat_weight: 400_000,
                stone_weight: 200_000,
                wood_weight: 350_000,
            }),
            s.wf(),
    {
        BoardSettings {
            tile_size: 40,
            board_radius: 5,
            gold_weight: 50_000,
            wheat_weight: 400_000,
            stone_weight: 200_000,
            wood_weight: 350_000,
        }
    }
}

/// The resource a uniform sample in `[0, WEIGHT_TOTAL)` selects: the first
/// cumulative threshold the sample falls under wins, scanning gold, wheat,
/// stone, else wood.
pub open spec fn spec_resource_for_sample(sample: int, s: BoardSettings) -> Resource {
    if sample < s.gold_weight {
        Resource::Gold
    } else if sample < s.gold_weight + s.wheat_weight {
        Resource::Wheat
    } else if sample < s.gold_weight + s.wheat_weight + s.stone_weight {
        Resource::Stone
    } else {
        Resource::Wood
    }
}

/// Maps a uniform sample to the resource its weight bracket selects.
pub fn resource_for_sample(sample: u32, settings: &BoardSettings) -> (res: Resource)
    requires
        settings.wf(),
        sample < WEIGHT_TOTAL,
    ensures
        res == spec_resource_for_sample(sample as int, *settings),
{
    if sample < settings.gold_weight {
        Resource::Gold
    } else if sample < settings.gold_weight + settings.wheat_weight {
        Resource::Wheat
    } else if sample < settings.gold_weight + settings.wheat_weight + settings.stone_weight {
        Resource::Stone
    } else {
        Resource::Wood
    }
}

/// One board hex and the resource drawn for it.
#[derive(Clone, Copy, PartialEq, Eq, Structural, Debug)]
pub struct Tile {
    pub coord: HexCoord,
    pub resource: Resource,
}

/// Strict lexicographic order on `(q, r)`; with the zero-sum invariant this
/// orders coordinates totally.
pub open spec fn coord_lex_lt(a: HexCoord, b: HexCoord) -> bool {
    a.q < b.q || (a.q == b.q && a.r < b.r)
}

/// Smallest `r` of the row at column `q`: `max(-radius, -q - radius)`.
pub open spec fn row_lo(radius: int, q: int) -> int {
    if -q - radius >= -radius {
        -q - radius
    } else {
        -radius
    }
}

/// Largest `r` of the row at column `q`: `min(radius, -q + radius)`.
pub open spec fn row_hi(radius: int, q: int) -> int {
    if -q + radius <= radius {
        -q + radius
    } else {
        radius
    }
}

/// Number of tiles in the row at column `q`.
pub open spec fn row_len(radius: int, q: int) -> int {
    row_hi(radius, q) - row_lo(radius, q) + 1
}

/// Number of tiles in all rows at columns strictly below `q`.
pub open spec fn rows_tile_count(radius: int, q: int) -> int
    decreases q + radius,
{
    if q <= -radius {
        0
    } else {
        rows_tile_count(radius, q - 1) + row_len(radius, q - 1)
    }
}

/// Number of tiles of a full board: `3*radius^2 + 3*radius + 1`.
pub open spec fn hex_tile_count(radius: int) -> int {
    3 * radius * radius + 3 * radius + 1
}

/// Closed form of the partial row sums, doubled to stay in integers.
proof fn lemma_rows_count_closed(radius: int, q: int)
    requires
        0 <= radius,
        -radius <= q <= radius + 1,
    ensures
        q <= 0 ==> 2 * rows_tile_count(radius, q) == (q + radius) * (q + 3 * radius + 1),
        q > 0 ==> 2 * rows_tile_count(radius, q) == radius * (3 * radius + 1) + 2 * q * (2
            * radius + 1) - q * (q - 1),
    decreases q + radius,
{
    if q <= -radius {
        assert(rows_tile_count(radius, q) == 0);
    } else {
        lemma_rows_count_closed(radius, q - 1);
        let prev = rows_tile_count(radius, q - 1);
        let len = row_len(radius, q - 1);
        assert(rows_tile_count(radius, q) == prev + len);
        if q <= 0 {
            assert(len == 2 * radius + q);
            assert(2 * (prev + len) == (q + radius) * (q + 3 * radius + 1)) by (nonlinear_arith)
                requires
                    2 * prev == (q - 1 + radius) * (q - 1 + 3 * radius + 1),
                    len == 2 * radius + q,
            ;
        } else if q == 1 {
            assert(len == 2 * radius + 1);
            assert(2 * (prev + len) == radius * (3 * radius + 1) + 2 * 1 * (2 * radius + 1) - 1 * (
            1 - 1)) by (nonlinear_arith)
                requires
                    2 * prev == (0 + radius) * (0 + 3 * radius + 1),
                    len == 2 * radius + 1,
            ;
        } else {
            assert(len == 2 * radius - q + 2);
            assert(2 * (prev + len) == radius * (3 * radius + 1) + 2 * q * (2 * radius + 1) - q * (
            q - 1)) by (nonlinear_arith)
                requires
                    2 * prev == radius * (3 * radius + 1) + 2 * (q - 1) * (2 * radius + 1) - (q - 1)
                        * (q - 2),
                    len == 2 * radius - q + 2,
            ;
        }
    }
}

/// A full board holds exactly `3*radius^2 + 3*radius + 1` tiles.
pub proof fn lemma_total_tile_count(radius: int)
    requires
        0 <= radius,
    ensures
        rows_tile_count(radius, radius + 1) == hex_tile_count(radius),
{
    lemma_rows_count_closed(radius, radius + 1);
    assert(2 * rows_tile_count(radius, radius + 1) == 2 * hex_tile_count(radius))
        by (nonlinear_arith)
        requires
            2 * rows_tile_count(radius, radius + 1) == radius * (3 * radius + 1) + 2 * (radius + 1)
                * (2 * radius + 1) - (radius + 1) * radius,
    ;
}

/// The generated board: all tiles within `radius` of the center, sorted by
/// `(q, r)`, one tile per coordinate.
pub struct Board {
    pub tiles: Vec<Tile>,
    pub radius: i64,
}

impl Board {
    /// Well-formedness: the radius is in range; every tile's coordinate is
    /// zero-sum and in bounds; tiles are strictly ordered (so coordinates are
    /// distinct); and every in-bounds coordinate has a tile.
    pub open spec fn wf(self) -> bool {
        &&& 0 <= self.radius <= RADIUS_LIMIT
        &&& forall|i: int|
            0 <= i < self.tiles@.len() ==> (#[trigger] self.tiles@[i]).coord.wf()
                && self.tiles@[i].coord.in_bounds(self.radius as int)
        &&& forall|i: int, j: int|
            0 <= i < j < self.tiles@.len() ==> coord_lex_lt(
                (#[trigger] self.tiles@[i]).coord,
                (#[trigger] self.tiles@[j]).coord,
            )
        &&& forall|c: HexCoord|
            c.wf() && #[trigger] c.in_bounds(self.radius as int) ==> coord_in_tiles(
                self.tiles@,
                c,
            )
    }

    /// Enumerates every coordinate with `max(|q|,|r|,|s|) <= board_radius`,
    /// drawing each tile's resource by a weighted uniform sample.
    pub fn generate(settings: &BoardSettings) -> (b: Board)
        requires
            settings.wf(),
        ensures
            b.wf(),
            b.radius == settings.board_radius,
            b.tiles@.len() == hex_tile_count(settings.board_radius as int),
            forall|i: int|
                0 <= i < b.tiles@.len() ==> exists|s: int|
                    0 <= s < WEIGHT_TOTAL && (#[trigger] b.tiles@[i]).resource
                        == spec_resource_for_sample(s, *settings),
    {
        let radius: i64 = settings.board_radius;
        let ghost rad = radius as int;
        let mut rng = new_rng();
        let mut tiles: Vec<Tile> = Vec::new();
        let mut q: i64 = -radius;
        while q <= radius
            invariant
                settings.wf(),
                radius == settings.board_radius,
                rad == radius as int,
                -radius <= q <= radius + 1,
                tiles@.len() == rows_tile_count(rad, q as int),
                forall|i: int|
                    0 <= i < tiles@.len() ==> (#[trigger] tiles@[i]).coord.wf()
                        && tiles@[i].coord.in_bounds(rad),
                forall|i: int| 0 <= i < tiles@.len() ==> (#[trigger] tiles@[i]).coord.q < q,
                forall|i: int, j: int|
                    0 <= i < j < tiles@.len() ==> coord_lex_lt(
                        (#[trigger] tiles@[i]).coord,
                        (#[trigger] tiles@[j]).coord,
                    ),
                forall|c: HexCoord|
                    c.wf() && #[trigger] c.in_bounds(rad) && c.q < q ==> coord_in_tiles(tiles@, c),
                forall|i: int|
                    0 <= i < tiles@.len() ==> exists|s: int|
                        0 <= s < WEIGHT_TOTAL && (#[trigger] tiles@[i]).resource
                            == spec_resource_for_sample(s, *settings),
            decreases radius + 1 - q,
        {
            let r1: i64 = if -q - radius >= -radius {
                -q - radius
            } else {
                -radius
            };
            let r2: i64 = if -q + radius <= radius {
                -q + radius
            } else {
                radius
            };
            assert(r1 == row_lo(rad, q as int));
            assert(r2 == row_hi(rad, q as int));
            let mut r: i64 = r1;
            while r <= r2
                invariant
                    settings.wf(),
                    radius == settings.board_radius,
                    rad == radius as int,
                    -radius <= q <= radius,
                    r1 == row_lo(rad, q as int),
                    r2 == row_hi(rad, q as int),
                    r1 <= r <= r2 + 1,
                    tiles@.len() == rows_tile_count(rad, q as int) + (r - r1),
                    forall|i: int|
                        0 <= i < tiles@.len() ==> (#[trigger] tiles@[i]).coord.wf()
                            && tiles@[i].coord.in_bounds(rad),
                    forall|i: int|
                        0 <= i < tiles@.len() ==> coord_lex_lt(
                            (#[trigger] tiles@[i]).coord,
                            HexCoord { q, r, s: 0 },
                        ),
                    forall|i: int, j: int|
                        0 <= i < j < tiles@.len() ==> coord_lex_lt(
                            (#[trigger] tiles@[i]).coord,
                            (#[trigger] tiles@[j]).coord,
                        ),
                    forall|c: HexCoord|
                        c.wf() && #[trigger] c.in_bounds(rad) && coord_lex_lt(
                            c,
                            HexCoord { q, r, s: 0 },
                        ) ==> coord_in_tiles(tiles@, c),
                    forall|i: int|
                        0 <= i < tiles@.len() ==> exists|s: int|
                            0 <= s < WEIGHT_TOTAL && (#[trigger] tiles@[i]).resource
                                == spec_resource_for_sample(s, *settings),
                decreases r2 + 1 - r,
            {
                let coord = HexCoord { q, r, s: -q - r };
                let sample = draw_sample(&mut rng, WEIGHT_TOTAL);
                let resource = resource_for_sample(sample, settings);
                let ghost pre = tiles@;
                tiles.push(Tile { coord, resource });
                proof {
                    let pushed = Tile { coord, resource };
                    assert(tiles@.last() == pushed);
                    assert(coord_in_tiles(tiles@, coord));
                    assert forall|c: HexCoord|
                        c.wf() && #[trigger] c.in_bounds(rad) && coord_lex_lt(
                            c,
                            HexCoord { q, r: (r + 1) as i64, s: 0 },
                        ) implies coord_in_tiles(tiles@, c) by {
                        if c == coord {
                        } else if coord_lex_lt(c, HexCoord { q, r, s: 0 }) {
                            assert(coord_in_tiles(pre, c));
                            let i = choose|i: int|
                                0 <= i < pre.len() && (#[trigger] pre[i]).coord == c;
                            assert(tiles@[i] == pre[i]);
                            assert(coord_in_tiles(tiles@, c));
                        } else {
                            assert(c.q == q && c.r == r);
                            assert(c.s == -q - r);
                            assert(c == coord);
                        }
                    }
                }
                r = r + 1;
            }
            proof {
                assert(rows_tile_count(rad, q as int + 1) == rows_tile_count(rad, q as int)
                    + row_len(rad, q as int));
            }
            q = q + 1;
        }
        proof {
            lemma_total_tile_count(rad);
            assert forall|c: HexCoord| c.wf() && #[trigger] c.in_bounds(rad) implies coord_in_tiles(
                tiles@,
                c,
            ) by {
                assert(c.q < q);
            }
        }
        Board { tiles, radius }
    }

    /// Whether a tile exists at `coord`; on a well-formed board that is
    /// exactly "the coordinate is zero-sum and within the radius".
    pub fn contains(&self, coord: HexCoord) -> (b: bool)
        requires
            self.wf(),
        ensures
            b == coord_in_tiles(self.tiles@, coord),
            b == (coord.wf() && coord.in_bounds(self.radius as int)),
    {
        let mut i: usize = 0;
        while i < self.tiles.len()
            invariant
                self.wf(),
                0 <= i <= self.tiles@.len(),
                forall|j: int| 0 <= j < i ==> (#[trigger] self.tiles@[j]).coord != coord,
            decreases self.tiles@.len() - i,
        {
            if self.tiles[i].coord == coord {
                proof {
                    assert((#[trigger] self.tiles@[i as int]).coord == coord);
                    assert(coord_in_tiles(self.tiles@, coord));
                }
                return true;
            }
            i = i + 1;
        }
        assert(!coord_in_tiles(self.tiles@, coord));
        false
    }

    /// The resource of the tile at `coord`, or `None` when no tile is there.
    pub fn resource_at(&self, coord: HexCoord) -> (res: Option<Resource>)
        requires
            self.wf(),
        ensures
            res is Some <==> (coord.wf() && coord.in_bounds(self.radius as int)),
            match res {
                Some(rs) => exists|i: int|
                    0 <= i < self.tiles@.len() && (#[trigger] self.tiles@[i]).coord == coord
                        && self.tiles@[i].resource == rs,
                None => !coord_in_tiles(self.tiles@, coord),
            },
    {
        let mut i: usize = 0;
        while i < self.tiles.len()
            invariant
                self.wf(),
                0 <= i <= self.tiles@.len(),
                forall|j: int| 0 <= j < i ==> (#[trigger] self.tiles@[j]).coord != coord,
            decreases self.tiles@.len() - i,
        {
            if self.tiles[i].coord == coord {
                proof {
                    assert((#[trigger] self.tiles@[i as int]).coord == coord);
                    assert(coord_in_tiles(self.tiles@, coord));
                }
                return Some(self.tiles[i].resource);
            }
            i = i + 1;
        }
        assert(!coord_in_tiles(self.tiles@, coord));
        None
    }
}

impl Default for Board {
    /// An empty board, to be replaced by `generate` at startup.
    fn default() -> (b: Board)
        ensures
            b.tiles@.len() == 0,
            b.radius == 0,
    {
        Board { tiles: Vec::new(), radius: 0 }
    }
}

/// `tiles` holds a tile at `c`.
pub open spec fn coord_in_tiles(tiles: Seq<Tile>, c: HexCoord) -> bool {
    exists|i: int| 0 <= i < tiles.len() && (#[trigger] tiles[i]).coord == c
}

} // verus!
