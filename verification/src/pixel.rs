//! Mapping between hex coordinates and screen positions, and pointer picking.
//!
//! The screen transform for a flat-top hex of size `t` places the tile
//! `(q, r, s)` at pixel `(t*(sqrt(3)*q + sqrt(3)/2*r), t*(3/2*r))`, y growing
//! downward.  All of that is a fixed rescaling of exact integer *grid units*:
//! `x` measured in half-widths `t*sqrt(3)/2` and `y` in half-heights `t/2`,
//! the tile sits at `(2q + r, 3r)`.  This module works in those units, so the
//! mapping and its inverse are exact integer arithmetic; the renderer applies
//! the irrational per-axis scale when drawing, and the input layer divides it
//! back out before picking.
//!
//! Picking takes the cursor offset from the window center in grid units as a
//! fixed-point number (`SCALE` per unit), converts to fractional cube
//! coordinates and rounds to the nearest hex: round each component to the
//! nearest integer, then recompute the component with the largest rounding
//! error from the other two so the zero-sum invariant holds exactly.  Ties
//! between equal errors resolve to the later branch in the check order
//! (q, then r, else s) — deterministic but arbitrary.

use vstd::prelude::*;

use crate::hex::HexCoord;
use vstd::arithmetic::div_mod::{
    lemma_div_nonincreasing, lemma_div_multiples_vanish_fancy, lemma_fundamental_div_mod,
    lemma_hoist_over_denominator, lemma_mod_bound,
};

verus! {

/// Fixed-point scale: one grid unit is `SCALE` fixed-point steps.
pub const SCALE: i64 = 1_000_000;

/// Largest magnitude accepted for a fixed-point cursor offset in grid units.
pub const UNIT_LIMIT: i64 = 1_000_000_000_000;

/// Largest numerator magnitude `round_div` accepts.
pub const NUM_LIMIT: i64 = 8_000_000_000_000;

/// Absolute value of a mathematical integer.
pub open spec fn iabs(x: int) -> int {
    if x >= 0 {
        x
    } else {
        -x
    }
}

/// `num / den` rounded to the nearest integer, halves rounding up.
pub open spec fn div_round_nearest(num: int, den: int) -> int {
    (2 * num + den) / (2 * den)
}

/// `num / den` rounded to nearest.  The quotient-times-denominator bounds in
/// the postcondition pin the result within half a denominator of the
/// numerator.
fn round_div(num: i64, den: i64) -> (r: i64)
    requires
        0 < den <= 6 * SCALE,
        -NUM_LIMIT <= num <= NUM_LIMIT,
    ensures
        r == div_round_nearest(num as int, den as int),
        2 * (r * den) <= 2 * num + den,
        2 * num + den < 2 * (r * den) + 2 * den,
        -NUM_LIMIT - den <= r * den <= NUM_LIMIT + den,
        -NUM_LIMIT - den <= r <= NUM_LIMIT + den,
{
    let ghost n = num as int;
    let ghost d = den as int;
    let k: i64 = ((NUM_LIMIT as u64) / (den as u64)) as i64 + 1;
    proof {
        lemma_div_nonincreasing(NUM_LIMIT as int, d);
        lemma_fundamental_div_mod(NUM_LIMIT as int, d);
        lemma_mod_bound(NUM_LIMIT as int, d);
        assert(k == NUM_LIMIT as int / d + 1);
        assert(k * d == NUM_LIMIT as int - NUM_LIMIT as int % d + d) by (nonlinear_arith)
            requires
                k == NUM_LIMIT as int / d + 1,
                NUM_LIMIT as int == d * (NUM_LIMIT as int / d) + NUM_LIMIT as int % d,
        ;
    }
    let kd: i64 = k * den;
    let sh: i64 = num + kd;
    let t: i64 = 2 * sh + den;
    let d2: i64 = 2 * den;
    let qt: u64 = (t as u64) / (d2 as u64);
    proof {
        lemma_div_nonincreasing(t as int, d2 as int);
    }
    let r: i64 = (qt as i64) - k;
    proof {
        let q2 = (2 * n + d) / (2 * d);
        assert(t == 2 * n + d + k * (2 * d)) by (nonlinear_arith)
            requires
                t == 2 * (n + k * d) + d,
        ;
        lemma_hoist_over_denominator(2 * n + d, k as int, (2 * d) as nat);
        assert(qt == q2 + k);
        assert(r == div_round_nearest(n, d));
        lemma_fundamental_div_mod(2 * n + d, 2 * d);
        lemma_mod_bound(2 * n + d, 2 * d);
        assert(2 * (r * d) == 2 * n + d - (2 * n + d) % (2 * d)) by (nonlinear_arith)
            requires
                r == (2 * n + d) / (2 * d),
                2 * n + d == (2 * d) * ((2 * n + d) / (2 * d)) + (2 * n + d) % (2 * d),
        ;
        assert(-NUM_LIMIT - d <= r <= NUM_LIMIT + d) by (nonlinear_arith)
            requires
                d >= 1,
                -NUM_LIMIT <= n <= NUM_LIMIT,
                2 * (r * d) <= 2 * n + d,
                2 * n + d < 2 * (r * d) + 2 * d,
        ;
    }
    r
}

/// Nearest-hex rounding of the fractional cube coordinate whose components
/// are `nq/den`, `nr/den` and `(-nq-nr)/den`.
pub open spec fn spec_cube_round(nq: int, nr: int, den: int) -> HexCoord {
    let ns = -nq - nr;
    let q0 = div_round_nearest(nq, den);
    let r0 = div_round_nearest(nr, den);
    let s0 = div_round_nearest(ns, den);
    let dq = iabs(q0 * den - nq);
    let dr = iabs(r0 * den - nr);
    let ds = iabs(s0 * den - ns);
    if dq > dr && dq > ds {
        HexCoord { q: (-r0 - s0) as i64, r: r0 as i64, s: s0 as i64 }
    } else if dr > ds {
        HexCoord { q: q0 as i64, r: (-q0 - s0) as i64, s: s0 as i64 }
    } else {
        HexCoord { q: q0 as i64, r: r0 as i64, s: (-q0 - r0) as i64 }
    }
}

/// Rounds the fractional cube coordinate `(nq/den, nr/den, (-nq-nr)/den)` to
/// the nearest hex, correcting the component with the largest rounding error.
pub fn cube_round(nq: i64, nr: i64, den: i64) -> (c: HexCoord)
    requires
        0 < den <= 6 * SCALE,
        -NUM_LIMIT / 2 <= nq <= NUM_LIMIT / 2,
        -NUM_LIMIT / 2 <= nr <= NUM_LIMIT / 2,
    ensures
        c == spec_cube_round(nq as int, nr as int, den as int),
        c.wf(),
{
    let ns: i64 = -nq - nr;
    let q0: i64 = round_div(nq, den);
    let r0: i64 = round_div(nr, den);
    let s0: i64 = round_div(ns, den);
    let dq: i64 = if q0 * den >= nq { q0 * den - nq } else { nq - q0 * den };
    let dr: i64 = if r0 * den >= nr { r0 * den - nr } else { nr - r0 * den };
    let ds: i64 = if s0 * den >= ns { s0 * den - ns } else { ns - s0 * den };
    if dq > dr && dq > ds {
        HexCoord { q: -r0 - s0, r: r0, s: s0 }
    } else if dr > ds {
        HexCoord { q: q0, r: -q0 - s0, s: s0 }
    } else {
        HexCoord { q: q0, r: r0, s: -q0 - r0 }
    }
}

/// Pointer picking over fixed-point grid units.  `None` exactly when the
/// nearest hex lies outside the board.
pub open spec fn spec_pick(xu: int, yu: int, radius: int) -> Option<HexCoord> {
    let c = spec_cube_round(3 * xu - yu, 2 * yu, 6 * SCALE);
    if c.in_bounds(radius) {
        Some(c)
    } else {
        None
    }
}

/// Maps a cursor offset from the window center, in fixed-point grid units
/// (`SCALE` per unit, y growing downward), to the hex it falls within, or
/// `None` when that hex is outside the board of the given radius.
pub fn pick(xu: i64, yu: i64, radius: i64) -> (res: Option<HexCoord>)
    requires
        -UNIT_LIMIT <= xu <= UNIT_LIMIT,
        -UNIT_LIMIT <= yu <= UNIT_LIMIT,
        0 <= radius,
    ensures
        res == spec_pick(xu as int, yu as int, radius as int),
        res matches Some(c) ==> c.wf() && c.in_bounds(radius as int),
{
    let nq: i64 = 3 * xu - yu;
    let nr: i64 = 2 * yu;
    let c = cube_round(nq, nr, 6 * SCALE);
    if c.is_in_bounds(radius) {
        Some(c)
    } else {
        None
    }
}

/// The exact grid-unit center of a tile: `(2q + r, 3r)`.
pub open spec fn spec_grid_units(c: HexCoord) -> (int, int) {
    (2 * c.q + c.r, 3 * c.r)
}

/// Screen position of a tile center in grid units.  The renderer multiplies
/// the first component by `tile_size*sqrt(3)/2` and the second by
/// `tile_size/2` to obtain pixels.
pub fn to_grid_units(c: HexCoord) -> (u: (i64, i64))
    requires
        -crate::hex::RADIUS_LIMIT <= c.q <= crate::hex::RADIUS_LIMIT,
        -crate::hex::RADIUS_LIMIT <= c.r <= crate::hex::RADIUS_LIMIT,
    ensures
        u.0 == spec_grid_units(c).0,
        u.1 == spec_grid_units(c).1,
{
    (2 * c.q + c.r, 3 * c.r)
}

/// On an exact lattice point the nearest-hex rounding recovers the lattice
/// coordinate: every rounding error is zero and the final branch recomputes
/// `s` from the exact `q` and `r`.
pub proof fn lemma_cube_round_exact(q: int, r: int, den: int)
    requires
        0 < den,
        i64::MIN <= q <= i64::MAX,
        i64::MIN <= r <= i64::MAX,
        i64::MIN <= -q - r <= i64::MAX,
    ensures
        spec_cube_round(q * den, r * den, den) == (HexCoord {
            q: q as i64,
            r: r as i64,
            s: (-q - r) as i64,
        }),
{
    let nq = q * den;
    let nr = r * den;
    let ns = -nq - nr;
    assert(ns == (-q - r) * den) by (nonlinear_arith)
        requires
            nq == q * den,
            nr == r * den,
            ns == -nq - nr,
    ;
    assert forall|x: int| #[trigger] div_round_nearest(x * den, den) == x by {
        assert(2 * (x * den) + den == (2 * den) * x + den) by (nonlinear_arith);
        lemma_div_multiples_vanish_fancy(x, den, 2 * den);
    }
    assert(div_round_nearest(nq, den) == q);
    assert(div_round_nearest(nr, den) == r);
    assert(div_round_nearest(ns, den) == -q - r);
    assert(iabs(q * den - nq) == 0);
    assert(iabs(r * den - nr) == 0);
    assert(iabs((-q - r) * den - ns) == 0);
}

/// A tile's exact grid-unit center always picks that tile back: converting
/// the center to fractional cube coordinates is exact, so the rounding
/// errors vanish and the in-bounds tile is returned unchanged.
pub proof fn law_pick_inverts_grid_units(c: HexCoord, radius: int)
    requires
        c.wf(),
        0 <= radius <= crate::hex::RADIUS_LIMIT,
        c.in_bounds(radius),
    ensures
        spec_pick(spec_grid_units(c).0 * SCALE, spec_grid_units(c).1 * SCALE, radius) == Some(c),
{
    let xu = (2 * c.q + c.r) * SCALE;
    let yu = 3 * c.r * SCALE;
    let den = 6 * SCALE;
    assert(3 * xu - yu == c.q * den && 2 * yu == c.r * den) by (nonlinear_arith)
        requires
            xu == (2 * c.q + c.r) * SCALE,
            yu == 3 * c.r * SCALE,
            den == 6 * SCALE,
    ;
    lemma_cube_round_exact(c.q as int, c.r as int, den as int);
    assert(spec_cube_round(3 * xu - yu, 2 * yu, den as int) == c);
}

/// A cursor exactly at the window center picks the center tile `(0, 0, 0)`,
/// whatever the board radius and tile size.
pub proof fn law_center_picks_origin(radius: int)
    requires
        0 <= radius,
    ensures
        spec_pick(0, 0, radius) == Some(HexCoord { q: 0, r: 0, s: 0 }),
{
    lemma_cube_round_exact(0, 0, 6 * SCALE);
}

} // verus!
