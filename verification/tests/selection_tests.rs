use hexboard::hex::{contains_coord, HexCoord};
use hexboard::pixel::{to_grid_units, SCALE};
use hexboard::selection::{
    GamePiece, HoveredTile, PieceType, SelectionController,
};

fn hex(q: i64, r: i64) -> HexCoord {
    HexCoord { q, r, s: -q - r }
}

fn two_piece_scenario() -> SelectionController {
    let mut ctrl = SelectionController::new(5);
    ctrl.add_piece(hex(0, 0), PieceType::Settler, 2);
    ctrl.add_piece(hex(1, -1), PieceType::Settler, 3);
    ctrl
}

#[test]
fn click_on_piece_selects_it_with_indicators() {
    let mut ctrl = two_piece_scenario();
    ctrl.handle_click(Some(hex(0, 0)));
    assert_eq!(ctrl.selected, Some(0));
    assert!(!ctrl.indicators.is_empty());
    // The other piece's tile is occupied, so it is never offered.
    assert!(!contains_coord(&ctrl.indicators, hex(1, -1)));
}

#[test]
fn click_on_occupied_hex_selects_that_piece_and_moves_nothing() {
    let mut ctrl = two_piece_scenario();
    ctrl.handle_click(Some(hex(0, 0)));
    assert_eq!(ctrl.selected, Some(0));
    // The second click lands on the other piece's tile, which the first
    // piece's indicators exclude: no piece moves; the clicked piece is
    // selected instead.
    ctrl.handle_click(Some(hex(1, -1)));
    assert_eq!(ctrl.pieces[0].coord, hex(0, 0));
    assert_eq!(ctrl.pieces[1].coord, hex(1, -1));
    assert_eq!(ctrl.selected, Some(1));
    assert!(!ctrl.indicators.is_empty());
}

#[test]
fn clicking_selected_piece_twice_is_idempotent() {
    let mut once = two_piece_scenario();
    once.handle_click(Some(hex(0, 0)));
    let mut twice = two_piece_scenario();
    twice.handle_click(Some(hex(0, 0)));
    twice.handle_click(Some(hex(0, 0)));
    assert_eq!(once.pieces, twice.pieces);
    assert_eq!(once.selected, twice.selected);
    assert_eq!(once.indicators, twice.indicators);
}

#[test]
fn click_on_legal_destination_moves_the_piece() {
    let mut ctrl = two_piece_scenario();
    ctrl.handle_click(Some(hex(0, 0)));
    assert!(contains_coord(&ctrl.indicators, hex(0, 2)));
    ctrl.handle_click(Some(hex(0, 2)));
    assert_eq!(ctrl.pieces[0].coord, hex(0, 2));
    assert_eq!(ctrl.selected, Some(0));
    // Indicators are rebuilt from the new position: the vacated tile is now
    // a destination again, and nothing out of the new range survives.
    assert!(contains_coord(&ctrl.indicators, hex(0, 0)));
    assert!(!contains_coord(&ctrl.indicators, hex(0, -2)));
}

#[test]
fn click_outside_board_is_a_no_op() {
    let mut ctrl = two_piece_scenario();
    ctrl.handle_click(Some(hex(0, 0)));
    let pieces = ctrl.pieces.clone();
    let indicators = ctrl.indicators.clone();
    ctrl.handle_click(None);
    assert_eq!(ctrl.pieces, pieces);
    assert_eq!(ctrl.selected, Some(0));
    assert_eq!(ctrl.indicators, indicators);
}

#[test]
fn click_on_empty_out_of_range_hex_deselects() {
    let mut ctrl = two_piece_scenario();
    ctrl.handle_click(Some(hex(0, 0)));
    assert_eq!(ctrl.selected, Some(0));
    ctrl.handle_click(Some(hex(5, 0)));
    assert_eq!(ctrl.selected, None);
    assert!(ctrl.indicators.is_empty());
    assert_eq!(ctrl.pieces[0].coord, hex(0, 0));
}

#[test]
fn click_with_nothing_selected_on_empty_hex_stays_idle() {
    let mut ctrl = two_piece_scenario();
    ctrl.handle_click(Some(hex(2, 2)));
    assert_eq!(ctrl.selected, None);
    assert!(ctrl.indicators.is_empty());
}

#[test]
fn hover_slot_is_overwritten_each_sample() {
    let mut hover = HoveredTile::default();
    assert_eq!(hover.position, None);
    hover.update(Some(hex(1, 0)));
    assert_eq!(hover.position, Some(hex(1, 0)));
    hover.update(None);
    assert_eq!(hover.position, None);
}

#[test]
fn hover_sample_picks_through_the_pixel_mapper() {
    let mut hover = HoveredTile::default();
    hover.sample(0, 0, 5);
    assert_eq!(hover.position, Some(hex(0, 0)));
    let (xu, yu) = to_grid_units(hex(2, 1));
    hover.sample(xu * SCALE, yu * SCALE, 5);
    assert_eq!(hover.position, Some(hex(2, 1)));
    let (xu, yu) = to_grid_units(hex(6, 0));
    hover.sample(xu * SCALE, yu * SCALE, 5);
    assert_eq!(hover.position, None);
}

#[test]
fn default_piece_is_a_settler_with_range_one() {
    let p = GamePiece::default();
    assert_eq!(p.coord, hex(0, 0));
    assert_eq!(p.piece_type, PieceType::Settler);
    assert_eq!(p.move_range, 1);
}
