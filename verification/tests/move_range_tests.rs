use hexboard::hex::{contains_coord, HexCoord};
use hexboard::move_range::MoveRangeCalculator;

fn hex(q: i64, r: i64) -> HexCoord {
    HexCoord { q, r, s: -q - r }
}

#[test]
fn range_one_from_center_yields_origin_and_six_neighbors() {
    let result = MoveRangeCalculator::compute(hex(0, 0), 1, 5, &Vec::new());
    assert_eq!(result.len(), 7);
    let expected = [
        hex(-1, 0),
        hex(-1, 1),
        hex(0, -1),
        hex(0, 0),
        hex(0, 1),
        hex(1, -1),
        hex(1, 0),
    ];
    for e in expected {
        assert!(contains_coord(&result, e));
    }
    for c in &result {
        assert_eq!(c.q + c.r + c.s, 0);
    }
}

#[test]
fn occupied_and_off_board_hexes_are_never_returned() {
    let origin = hex(4, 0);
    let occupied = vec![hex(4, 1), hex(3, 0), hex(5, 0)];
    let result = MoveRangeCalculator::compute(origin, 2, 5, &occupied);
    for c in &result {
        assert!(!contains_coord(&occupied, *c));
        assert!(c.is_in_bounds(5));
    }
    // (6, 0, -6) and (6, -1, -5) are within range 2 of (4, 0) but off the
    // radius-5 board; (5, 0, -5) is on the board but occupied.
    assert!(!contains_coord(&result, hex(6, 0)));
    assert!(!contains_coord(&result, hex(6, -1)));
    assert!(!contains_coord(&result, hex(5, 0)));
    assert!(contains_coord(&result, hex(5, -1)));
}

#[test]
fn occupied_origin_is_excluded() {
    let result = MoveRangeCalculator::compute(hex(0, 0), 1, 5, &vec![hex(0, 0)]);
    assert_eq!(result.len(), 6);
    assert!(!contains_coord(&result, hex(0, 0)));
}

#[test]
fn range_zero_yields_only_origin() {
    let result = MoveRangeCalculator::compute(hex(2, -1), 0, 5, &Vec::new());
    assert_eq!(result.len(), 1);
    assert_eq!(result[0], hex(2, -1));
}

#[test]
fn board_edge_clips_the_range() {
    // From the corner (5, 0, -5) of a radius-5 board, range 1 keeps only the
    // origin and the three neighbors that stay on the board.
    let result = MoveRangeCalculator::compute(hex(5, 0), 1, 5, &Vec::new());
    assert_eq!(result.len(), 4);
    assert!(contains_coord(&result, hex(5, 0)));
    assert!(contains_coord(&result, hex(4, 0)));
    assert!(contains_coord(&result, hex(4, 1)));
    assert!(contains_coord(&result, hex(5, -1)));
}

#[test]
fn full_range_count_matches_hexagon_size() {
    let result = MoveRangeCalculator::compute(hex(0, 0), 2, 5, &Vec::new());
    assert_eq!(result.len(), 19);
    let result = MoveRangeCalculator::compute(hex(0, 0), 3, 5, &Vec::new());
    assert_eq!(result.len(), 37);
}
