//! Legal-destination computation for a selected piece.
//!
//! Enumerates every offset within the move range hexagon, translates it by
//! the piece's position, and keeps the result when it lies on the board and
//! no other piece occupies it.  The origin itself is enumerated like any
//! other offset, so the piece's own tile is offered unless another piece
//! stands there.

use vstd::prelude::*;

use crate::board::{row_hi, row_lo};
use crate::hex::{contains_coord, coord_in_seq, HexCoord, RADIUS_LIMIT};

verus! {

/// `c` lies within `range` steps of `origin`: every cube component of the
/// offset has magnitude at most `range`.
pub open spec fn in_move_range(origin: HexCoord, c: HexCoord, range: int) -> bool {
    &&& -range <= c.q - origin.q <= range
    &&& -range <= c.r - origin.r <= range
    &&& -range <= c.s - origin.s <= range
}

/// The tile reached from `origin` by the offset `(q, r, -q-r)`.
pub open spec fn spec_offset_target(origin: HexCoord, q: int, r: int) -> HexCoord {
    HexCoord {
        q: (origin.q + q) as i64,
        r: (origin.r + r) as i64,
        s: (origin.s - q - r) as i64,
    }
}

/// The offset of `c` from `origin` is at or after `(q, r)` in the
/// enumeration order (lexicographic by column, then row).
pub open spec fn offset_lex_ge(c: HexCoord, origin: HexCoord, q: int, r: int) -> bool {
    c.q - origin.q > q || (c.q - origin.q == q && c.r - origin.r >= r)
}

/// The legal destinations contributed by offsets from `(q, r)` onward, in
/// enumeration order.
pub open spec fn spec_move_range_from(
    origin: HexCoord,
    range: int,
    radius: int,
    occupied: Seq<HexCoord>,
    q: int,
    r: int,
) -> Seq<HexCoord>
    decreases range - q, row_hi(range, q) + 1 - r,
{
    if q > range {
        Seq::empty()
    } else if r > row_hi(range, q) {
        if q == range {
            Seq::empty()
        } else {
            spec_move_range_from(origin, range, radius, occupied, q + 1, row_lo(range, q + 1))
        }
    } else {
        let c = spec_offset_target(origin, q, r);
        let rest = spec_move_range_from(origin, range, radius, occupied, q, r + 1);
        if c.in_bounds(radius) && !coord_in_seq(occupied, c) {
            seq![c] + rest
        } else {
            rest
        }
    }
}

/// The full legal-destination sequence for `origin` and `range`.
pub open spec fn spec_move_range(
    origin: HexCoord,
    range: int,
    radius: int,
    occupied: Seq<HexCoord>,
) -> Seq<HexCoord> {
    spec_move_range_from(origin, range, radius, occupied, -range, row_lo(range, -range))
}

/// A coordinate stands in the enumerated suffix exactly when it is a legal
/// destination whose offset lies at or after the current enumeration
/// position.
proof fn lemma_move_range_from_membership(
    origin: HexCoord,
    range: int,
    radius: int,
    occupied: Seq<HexCoord>,
    q: int,
    r: int,
    c: HexCoord,
)
    requires
        origin.wf(),
        origin.in_bounds(RADIUS_LIMIT as int),
        0 <= range <= RADIUS_LIMIT,
        -range <= q <= range,
        row_lo(range, q) <= r <= row_hi(range, q) + 1,
    ensures
        coord_in_seq(spec_move_range_from(origin, range, radius, occupied, q, r), c) <==> (c.wf()
            && in_move_range(origin, c, range) && c.in_bounds(radius) && !coord_in_seq(
            occupied,
            c,
        ) && offset_lex_ge(c, origin, q, r)),
    decreases range - q, row_hi(range, q) + 1 - r,
{
    let s = spec_move_range_from(origin, range, radius, occupied, q, r);
    if r > row_hi(range, q) {
        if q == range {
            assert(s =~= Seq::<HexCoord>::empty());
            assert(!coord_in_seq(s, c));
            // No legal destination has an offset at or after (range, r):
            // with the zero-sum invariant the row at the last column ends at
            // row_hi(range, range), which is below r.
            if c.wf() && in_move_range(origin, c, range) && offset_lex_ge(c, origin, q, r) {
                assert(c.s - origin.s == -(c.q - origin.q) - (c.r - origin.r));
                assert(false);
            }
        } else {
            lemma_move_range_from_membership(
                origin,
                range,
                radius,
                occupied,
                q + 1,
                row_lo(range, q + 1),
                c,
            );
            // Advancing past the end of a row reaches the next column: no
            // legal offset sits in column q at or after row r.
            if c.wf() && in_move_range(origin, c, range) {
                assert(c.s - origin.s == -(c.q - origin.q) - (c.r - origin.r));
                assert(offset_lex_ge(c, origin, q, r) == offset_lex_ge(
                    c,
                    origin,
                    q + 1,
                    row_lo(range, q + 1),
                ));
            }
        }
    } else {
        let c0 = spec_offset_target(origin, q, r);
        let rest = spec_move_range_from(origin, range, radius, occupied, q, r + 1);
        lemma_move_range_from_membership(origin, range, radius, occupied, q, r + 1, c);
        assert(c0.q == origin.q + q && c0.r == origin.r + r && c0.s == origin.s - q - r);
        assert(c0.wf());
        assert(in_move_range(origin, c0, range));
        if c0.in_bounds(radius) && !coord_in_seq(occupied, c0) {
            assert(s == seq![c0] + rest);
            assert(s.len() == 1 + rest.len());
            assert(s[0] == c0);
            if coord_in_seq(s, c) {
                let j = choose|j: int| 0 <= j < s.len() && s[j] == c;
                if j == 0 {
                    assert(c == c0);
                } else {
                    assert(s[j] == rest[j - 1]);
                    assert(coord_in_seq(rest, c));
                }
            }
            if c.wf() && in_move_range(origin, c, range) && c.in_bounds(radius) && !coord_in_seq(
                occupied,
                c,
            ) && offset_lex_ge(c, origin, q, r) {
                if c.q - origin.q == q && c.r - origin.r == r {
                    assert(c.s - origin.s == -(c.q - origin.q) - (c.r - origin.r));
                    assert(c == c0);
                    assert(coord_in_seq(s, c));
                } else {
                    assert(offset_lex_ge(c, origin, q, r + 1));
                    let j = choose|j: int| 0 <= j < rest.len() && rest[j] == c;
                    assert(s[j + 1] == c);
                    assert(coord_in_seq(s, c));
                }
            }
        } else {
            assert(s == rest);
            // The skipped candidate is exactly the offset (q, r); any other
            // coordinate at or after (q, r) is at or after (q, r + 1).
            if c.wf() && in_move_range(origin, c, range) && c.in_bounds(radius) && !coord_in_seq(
                occupied,
                c,
            ) && offset_lex_ge(c, origin, q, r) {
                if c.q - origin.q == q && c.r - origin.r == r {
                    assert(c.s - origin.s == -(c.q - origin.q) - (c.r - origin.r));
                    assert(c == c0);
                    assert(false);
                } else {
                    assert(offset_lex_ge(c, origin, q, r + 1));
                }
            }
        }
    }
}

/// A coordinate is in the full sequence exactly when it is zero-sum, within
/// range of the origin, on the board, and unoccupied.
pub proof fn lemma_move_range_membership(
    origin: HexCoord,
    range: int,
    radius: int,
    occupied: Seq<HexCoord>,
    c: HexCoord,
)
    requires
        origin.wf(),
        origin.in_bounds(RADIUS_LIMIT as int),
        0 <= range <= RADIUS_LIMIT,
    ensures
        coord_in_seq(spec_move_range(origin, range, radius, occupied), c) <==> (c.wf()
            && in_move_range(origin, c, range) && c.in_bounds(radius) && !coord_in_seq(
            occupied,
            c,
        )),
{
    lemma_move_range_from_membership(
        origin,
        range,
        radius,
        occupied,
        -range,
        row_lo(range, -range),
        c,
    );
    if c.wf() && in_move_range(origin, c, range) {
        assert(c.s - origin.s == -(c.q - origin.q) - (c.r - origin.r));
        assert(offset_lex_ge(c, origin, -range, row_lo(range, -range)));
    }
}

/// Computes the set of legal destination hexes for a piece.
pub struct MoveRangeCalculator;

impl MoveRangeCalculator {
    /// Enumerates every offset within `range`, translates it by `origin`,
    /// and keeps the tiles that are on the board and not in `occupied`.
    /// The result is pinned exactly: its contents are the legal destinations
    /// and its order is the enumeration order, so equal inputs give equal
    /// outputs.
    pub fn compute(
        origin: HexCoord,
        range: i64,
        board_radius: i64,
        occupied: &Vec<HexCoord>,
    ) -> (result: Vec<HexCoord>)
        requires
            origin.wf(),
            origin.in_bounds(board_radius as int),
            0 <= board_radius <= RADIUS_LIMIT,
            0 <= range <= RADIUS_LIMIT,
        ensures
            result@ == spec_move_range(origin, range as int, board_radius as int, occupied@),
            forall|c: HexCoord|
                coord_in_seq(result@, c) <==> (c.wf() && in_move_range(origin, c, range as int)
                    && c.in_bounds(board_radius as int) && !coord_in_seq(occupied@, c)),
    {
        let ghost full = spec_move_range(origin, range as int, board_radius as int, occupied@);
        let mut result: Vec<HexCoord> = Vec::new();
        let mut q: i64 = -range;
        proof {
            assert(full =~= result@ + spec_move_range_from(
                origin,
                range as int,
                board_radius as int,
                occupied@,
                q as int,
                row_lo(range as int, q as int),
            ));
        }
        while q <= range
            invariant
                origin.wf(),
                origin.in_bounds(board_radius as int),
                0 <= board_radius <= RADIUS_LIMIT,
                0 <= range <= RADIUS_LIMIT,
                -range <= q <= range + 1,
                full == spec_move_range(origin, range as int, board_radius as int, occupied@),
                full == result@ + spec_move_range_from(
                    origin,
                    range as int,
                    board_radius as int,
                    occupied@,
                    q as int,
                    row_lo(range as int, q as int),
                ),
            decreases range + 1 - q,
        {
            let r1: i64 = if -q - range >= -range {
                -q - range
            } else {
                -range
            };
            let r2: i64 = if -q + range <= range {
                -q + range
            } else {
                range
            };
            assert(r1 == row_lo(range as int, q as int));
            assert(r2 == row_hi(range as int, q as int));
            let mut r: i64 = r1;
            while r <= r2
                invariant
                    origin.wf(),
                    origin.in_bounds(board_radius as int),
                    0 <= board_radius <= RADIUS_LIMIT,
                    0 <= range <= RADIUS_LIMIT,
                    -range <= q <= range,
                    r1 == row_lo(range as int, q as int),
                    r2 == row_hi(range as int, q as int),
                    r1 <= r <= r2 + 1,
                    full == spec_move_range(origin, range as int, board_radius as int, occupied@),
                    full == result@ + spec_move_range_from(
                        origin,
                        range as int,
                        board_radius as int,
                        occupied@,
                        q as int,
                        r as int,
                    ),
                decreases r2 + 1 - r,
            {
                let cand = HexCoord {
                    q: origin.q + q,
                    r: origin.r + r,
                    s: origin.s - q - r,
                };
                let ghost rest = spec_move_range_from(
                    origin,
                    range as int,
                    board_radius as int,
                    occupied@,
                    q as int,
                    r as int + 1,
                );
                proof {
                    assert(cand == spec_offset_target(origin, q as int, r as int));
                }
                if cand.is_in_bounds(board_radius) && !contains_coord(occupied, cand) {
                    let ghost pre = result@;
                    result.push(cand);
                    proof {
                        assert(result@ =~= pre + seq![cand]);
                        assert((pre + seq![cand]) + rest =~= pre + (seq![cand] + rest));
                    }
                } else {
                }
                r = r + 1;
            }
            proof {
                if q < range {
                    assert(spec_move_range_from(
                        origin,
                        range as int,
                        board_radius as int,
                        occupied@,
                        q as int,
                        r as int,
                    ) == spec_move_range_from(
                        origin,
                        range as int,
                        board_radius as int,
                        occupied@,
                        q as int + 1,
                        row_lo(range as int, q as int + 1),
                    ));
                } else {
                    assert(spec_move_range_from(
                        origin,
                        range as int,
                        board_radius as int,
                        occupied@,
                        q as int,
                        r as int,
                    ) =~= Seq::<HexCoord>::empty());
                    assert(result@ + Seq::<HexCoord>::empty() =~= result@);
                    assert(spec_move_range_from(
                        origin,
                        range as int,
                        board_radius as int,
                        occupied@,
                        q as int + 1,
                        row_lo(range as int, q as int + 1),
                    ) =~= Seq::<HexCoord>::empty());
                }
            }
            q = q + 1;
        }
        proof {
            assert(spec_move_range_from(
                origin,
                range as int,
                board_radius as int,
                occupied@,
                q as int,
                row_lo(range as int, q as int),
            ) =~= Seq::<HexCoord>::empty());
            assert(result@ + Seq::<HexCoord>::empty() =~= result@);
            assert(result@ == full);
            assert forall|c: HexCoord|
                coord_in_seq(result@, c) <==> (c.wf() && in_move_range(origin, c, range as int)
                    && c.in_bounds(board_radius as int) && !coord_in_seq(occupied@, c)) by {
                lemma_move_range_membership(
                    origin,
                    range as int,
                    board_radius as int,
                    occupied@,
                    c,
                );
            }
        }
        result
    }
}

} // verus!
